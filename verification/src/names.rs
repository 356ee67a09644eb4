//! Model names.
//!
//! A model name is a unique, non-empty string that also serves as the
//! model's directory name on disk, so it is restricted to characters that
//! are safe in a single path component (and, incidentally, need no escaping
//! inside a JSON string), and it may not be one of the two reserved
//! directory names.  The registry keeps its entries in strictly ascending
//! name order; [`name_lt`] is that order.

use vstd::prelude::*;
use vstd::string::StrSliceExecFns;

verus! {

/// Characters a model name may contain: ASCII letters, digits, `_`, `-`
/// and `.`.
pub open spec fn allowed_name_char(c: char) -> bool {
    (48 <= c as u32 <= 57) || (65 <= c as u32 <= 90) || (97 <= c as u32 <= 122) || c as u32 == 95
        || c as u32 == 45 || c as u32 == 46
}

/// A well-formed model name: non-empty, filesystem-safe, and neither of
/// the reserved directory names `.` and `..`.
pub open spec fn valid_model_name(s: Seq<char>) -> bool {
    &&& s.len() > 0
    &&& (forall|i: int| 0 <= i < s.len() ==> allowed_name_char(#[trigger] s[i]))
    &&& s != seq!['.']
    &&& s != seq!['.', '.']
}

/// Decides `valid_model_name`.
pub fn is_valid_model_name(name: &str) -> (r: bool)
    ensures
        r == valid_model_name(name@),
{
    let n = name.unicode_len();
    if n == 0 {
        return false;
    }
    let mut i: usize = 0;
    while i < n
        invariant
            i <= n,
            n == name@.len(),
            forall|j: int| 0 <= j < i ==> allowed_name_char(#[trigger] name@[j]),
        decreases n - i,
    {
        let c = name.get_char(i);
        let u = c as u32;
        let ok = (48 <= u && u <= 57) || (65 <= u && u <= 90) || (97 <= u && u <= 122) || u == 95
            || u == 45 || u == 46;
        if !ok {
            return false;
        }
        i += 1;
    }
    if n == 1 && name.get_char(0) == '.' {
        proof {
            assert(name@ =~= seq!['.']);
        }
        return false;
    }
    if n == 2 && name.get_char(0) == '.' && name.get_char(1) == '.' {
        proof {
            assert(name@ =~= seq!['.', '.']);
        }
        return false;
    }
    proof {
        if n == 1 {
            assert(name@ != seq!['.']) by {
                assert(name@[0] != '.');
            }
        }
        if n == 2 {
            assert(name@ != seq!['.', '.']) by {
                assert(name@[0] != '.' || name@[1] != '.');
            }
        }
    }
    true
}

/// Strict lexicographic order on names, by scalar value: the order the
/// registry lists models in.
pub open spec fn name_lt(a: Seq<char>, b: Seq<char>) -> bool
    decreases a.len(),
{
    if b.len() == 0 {
        false
    } else if a.len() == 0 {
        true
    } else if a[0] != b[0] {
        a[0] < b[0]
    } else {
        name_lt(a.skip(1), b.skip(1))
    }
}

/// Nothing is below itself.
pub proof fn lemma_name_lt_irreflexive(a: Seq<char>)
    ensures
        !name_lt(a, a),
    decreases a.len(),
{
    if a.len() > 0 {
        lemma_name_lt_irreflexive(a.skip(1));
    }
}

/// Any two names are equal or ordered one way.
pub proof fn lemma_name_lt_total(a: Seq<char>, b: Seq<char>)
    ensures
        a == b || name_lt(a, b) || name_lt(b, a),
    decreases a.len(),
{
    if a.len() == 0 && b.len() == 0 {
        assert(a =~= b);
    } else if a.len() > 0 && b.len() > 0 {
        if a[0] == b[0] {
            lemma_name_lt_total(a.skip(1), b.skip(1));
            if a.skip(1) == b.skip(1) {
                assert(a.skip(1).len() == a.len() - 1);
                assert(b.skip(1).len() == b.len() - 1);
                assert(a.len() == b.len());
                assert forall|i: int| 0 <= i < a.len() implies a[i] == b[i] by {
                    if i > 0 {
                        assert(a[i] == a.skip(1)[i - 1]);
                        assert(b[i] == b.skip(1)[i - 1]);
                    }
                }
                assert(a =~= b);
            }
        } else {
            assert(a[0] < b[0] || b[0] < a[0]);
        }
    }
}

/// The order is transitive.
pub proof fn lemma_name_lt_transitive(a: Seq<char>, b: Seq<char>, c: Seq<char>)
    requires
        name_lt(a, b),
        name_lt(b, c),
    ensures
        name_lt(a, c),
    decreases a.len(),
{
    if a.len() > 0 && b.len() > 0 && c.len() > 0 {
        if a[0] == b[0] && b[0] == c[0] {
            lemma_name_lt_transitive(a.skip(1), b.skip(1), c.skip(1));
        } else {
            assert(a[0] <= b[0] && b[0] <= c[0]);
            assert(a[0] < c[0]);
        }
    }
}

/// Comparing two names whose first `i` characters agree compares their
/// suffixes from `i` on.
proof fn lemma_name_lt_common_prefix(a: Seq<char>, b: Seq<char>, i: int)
    requires
        0 <= i,
        i <= a.len(),
        i <= b.len(),
        forall|j: int| 0 <= j < i ==> a[j] == b[j],
    ensures
        name_lt(a, b) == name_lt(a.skip(i), b.skip(i)),
    decreases i,
{
    if i > 0 {
        assert(a[0] == b[0]);
        assert(name_lt(a, b) == name_lt(a.skip(1), b.skip(1)));
        assert forall|j: int| 0 <= j < i - 1 implies #[trigger] a.skip(1)[j] == b.skip(1)[j] by {
            assert(a.skip(1)[j] == a[j + 1]);
            assert(b.skip(1)[j] == b[j + 1]);
        }
        lemma_name_lt_common_prefix(a.skip(1), b.skip(1), i - 1);
        assert(a.skip(1).skip(i - 1) =~= a.skip(i));
        assert(b.skip(1).skip(i - 1) =~= b.skip(i));
    } else {
        assert(a.skip(0) =~= a);
        assert(b.skip(0) =~= b);
    }
}

/// Decides `name_lt`.
pub fn str_name_lt(a: &str, b: &str) -> (r: bool)
    ensures
        r == name_lt(a@, b@),
{
    let an = a.unicode_len();
    let bn = b.unicode_len();
    let mut i: usize = 0;
    loop
        invariant
            i <= an,
            i <= bn,
            an == a@.len(),
            bn == b@.len(),
            forall|j: int| 0 <= j < i ==> a@[j] == b@[j],
        decreases an - i,
    {
        if i >= bn {
            proof {
                lemma_name_lt_common_prefix(a@, b@, i as int);
            }
            return false;
        }
        if i >= an {
            proof {
                lemma_name_lt_common_prefix(a@, b@, i as int);
            }
            return true;
        }
        let ca = a.get_char(i);
        let cb = b.get_char(i);
        if ca != cb {
            proof {
                lemma_name_lt_common_prefix(a@, b@, i as int);
                assert(a@.skip(i as int)[0] == a@[i as int]);
                assert(b@.skip(i as int)[0] == b@[i as int]);
            }
            return ca < cb;
        }
        i += 1;
    }
}

} // verus!
