//! The model registry.
//!
//! `ModelStorage` maps each model name to its persisted definition and, when
//! the model is loaded, to the live worker owning it.  Its view is a map
//! from name to [`ModelSnap`]; every operation's contract states the exact
//! result and the exact next view.  A deployment keeps one `ModelStorage`
//! behind a lock shared by all connections, mirrors the definitions to one
//! directory per model on disk, and pairs each loaded entry with the
//! worker's conduits; the lock is held for a whole operation, including the
//! one round trip with the targeted worker.

use vstd::prelude::*;

use crate::errors::NnioError;
use crate::names::{
    is_valid_model_name, lemma_name_lt_total, lemma_name_lt_transitive, name_lt, str_name_lt,
    valid_model_name,
};
use crate::worker::{layer_info, ModelMessage, WorkerModel};

verus! {

/// What the registry knows of one model: the persisted definition and,
/// if a worker is live, the layer sizes the runtime built from it.
pub ghost struct ModelSnap {
    pub definition: Seq<char>,
    pub worker: Option<Seq<usize>>,
}

/// One registry entry.
pub struct ModelEntry {
    pub name: String,
    pub definition: String,
    pub worker: Option<WorkerModel>,
}

/// The registry: an ordered list of entries with pairwise distinct names.
pub struct ModelStorage {
    pub mdls: Vec<ModelEntry>,
}

/// The snapshot of one entry.
pub open spec fn entry_snap(e: ModelEntry) -> ModelSnap {
    ModelSnap {
        definition: e.definition@,
        worker: match e.worker {
            Some(w) => Some(w.layer_sizes@),
            None => None,
        },
    }
}

/// No two entries share a name.
pub open spec fn names_unique(s: Seq<ModelEntry>) -> bool {
    forall|i: int, j: int|
        0 <= i < j < s.len() ==> #[trigger] s[i].name@ != #[trigger] s[j].name@
}

/// Entries stand in strictly ascending name order: the listing order of the
/// registry, as an ordered mapping, is the order of the names themselves.
pub open spec fn sorted_names(s: Seq<ModelEntry>) -> bool {
    forall|i: int, j: int|
        0 <= i < j < s.len() ==> name_lt(#[trigger] s[i].name@, #[trigger] s[j].name@)
}

/// The map an entry list denotes.
pub open spec fn map_of(s: Seq<ModelEntry>) -> Map<Seq<char>, ModelSnap>
    decreases s.len(),
{
    if s.len() == 0 {
        Map::empty()
    } else {
        map_of(s.drop_last()).insert(s.last().name@, entry_snap(s.last()))
    }
}

/// A name is in the denoted map exactly when some entry carries it.
pub proof fn lemma_map_of_dom(s: Seq<ModelEntry>, n: Seq<char>)
    ensures
        map_of(s).dom().contains(n) <==> (exists|i: int|
            0 <= i < s.len() && #[trigger] s[i].name@ == n),
    decreases s.len(),
{
    if s.len() > 0 {
        let pre = s.drop_last();
        lemma_map_of_dom(pre, n);
        if map_of(s).dom().contains(n) {
            if n == s.last().name@ {
                assert(s[s.len() - 1].name@ == n);
            } else {
                let i = choose|i: int| 0 <= i < pre.len() && #[trigger] pre[i].name@ == n;
                assert(s[i].name@ == n);
            }
        }
        if exists|i: int| 0 <= i < s.len() && #[trigger] s[i].name@ == n {
            let i = choose|i: int| 0 <= i < s.len() && #[trigger] s[i].name@ == n;
            if i < s.len() - 1 {
                assert(pre[i].name@ == n);
            }
        }
    }
}

/// Under unique names, the denoted map sends each entry's name to that
/// entry's snapshot.
pub proof fn lemma_map_of_at(s: Seq<ModelEntry>, i: int)
    requires
        names_unique(s),
        0 <= i < s.len(),
    ensures
        map_of(s).dom().contains(s[i].name@),
        map_of(s)[s[i].name@] == entry_snap(s[i]),
    decreases s.len(),
{
    let pre = s.drop_last();
    if i < s.len() - 1 {
        assert(names_unique(pre)) by {
            assert(forall|x: int, y: int|
                0 <= x < y < pre.len() ==> #[trigger] pre[x].name@ != #[trigger] pre[y].name@)
                by {
                assert(forall|x: int, y: int|
                    0 <= x < y < pre.len() ==> pre[x] == s[x] && pre[y] == s[y]);
            }
        }
        lemma_map_of_at(pre, i);
        assert(s[i].name@ != s.last().name@);
    }
}

/// Replacing the entry at `i` by one of the same name turns the denoted map
/// into an insert of the new snapshot.
pub proof fn lemma_map_of_update(s: Seq<ModelEntry>, i: int, e: ModelEntry)
    requires
        names_unique(s),
        0 <= i < s.len(),
        e.name@ == s[i].name@,
    ensures
        map_of(s.update(i, e)) == map_of(s).insert(e.name@, entry_snap(e)),
    decreases s.len(),
{
    let s2 = s.update(i, e);
    let pre = s.drop_last();
    assert(names_unique(pre)) by {
        assert(forall|x: int, y: int| 0 <= x < y < pre.len() ==> pre[x] == s[x] && pre[y] == s[y]);
    }
    if i == s.len() - 1 {
        assert(s2.drop_last() =~= pre);
        assert(s2.last() == e);
        assert(map_of(s2) == map_of(pre).insert(e.name@, entry_snap(e)));
        assert(map_of(s).insert(e.name@, entry_snap(e)) =~= map_of(pre).insert(
            e.name@,
            entry_snap(e),
        ));
    } else {
        assert(s2.drop_last() =~= pre.update(i, e));
        assert(s2.last() == s.last());
        lemma_map_of_update(pre, i, e);
        assert(e.name@ != s.last().name@);
        assert(map_of(s2) == map_of(pre).insert(e.name@, entry_snap(e)).insert(
            s.last().name@,
            entry_snap(s.last()),
        ));
        assert(map_of(pre).insert(e.name@, entry_snap(e)).insert(
            s.last().name@,
            entry_snap(s.last()),
        ) =~= map_of(pre).insert(s.last().name@, entry_snap(s.last())).insert(
            e.name@,
            entry_snap(e),
        ));
    }
}

/// Inserting an entry with a fresh name at any position adds exactly that
/// entry's snapshot to the denoted map.
pub proof fn lemma_map_of_insert(s: Seq<ModelEntry>, k: int, e: ModelEntry)
    requires
        0 <= k <= s.len(),
        forall|i: int| 0 <= i < s.len() ==> #[trigger] s[i].name@ != e.name@,
    ensures
        map_of(s.insert(k, e)) == map_of(s).insert(e.name@, entry_snap(e)),
    decreases s.len(),
{
    let s2 = s.insert(k, e);
    s.insert_ensures(k, e);
    if k == s.len() {
        assert(s2.drop_last() =~= s);
        assert(s2.last() == e);
    } else {
        let pre = s.drop_last();
        assert(s2.drop_last() =~= pre.insert(k, e)) by {
            pre.insert_ensures(k, e);
        }
        assert(s2.last() == s.last());
        assert(forall|i: int| 0 <= i < pre.len() ==> #[trigger] pre[i].name@ != e.name@);
        lemma_map_of_insert(pre, k, e);
        assert(e.name@ != s.last().name@);
        assert(map_of(s2) == map_of(pre).insert(e.name@, entry_snap(e)).insert(
            s.last().name@,
            entry_snap(s.last()),
        ));
        assert(map_of(pre).insert(e.name@, entry_snap(e)).insert(
            s.last().name@,
            entry_snap(s.last()),
        ) =~= map_of(pre).insert(s.last().name@, entry_snap(s.last())).insert(
            e.name@,
            entry_snap(e),
        ));
    }
}

impl View for ModelStorage {
    type V = Map<Seq<char>, ModelSnap>;

    open spec fn view(&self) -> Map<Seq<char>, ModelSnap> {
        map_of(self.mdls@)
    }
}

/// What `create` answers on a given view.
pub open spec fn create_result(
    m: Map<Seq<char>, ModelSnap>,
    name: Seq<char>,
    overwrite: bool,
) -> Result<(), NnioError> {
    if m.dom().contains(name) && !overwrite {
        Err(NnioError::AlreadyExists)
    } else {
        Ok(())
    }
}

/// The view after `create`: on success the name maps to the fresh
/// definition with no worker; on failure nothing changes.
pub open spec fn create_next(
    m: Map<Seq<char>, ModelSnap>,
    name: Seq<char>,
    definition: Seq<char>,
    overwrite: bool,
) -> Map<Seq<char>, ModelSnap> {
    if m.dom().contains(name) && !overwrite {
        m
    } else {
        m.insert(name, ModelSnap { definition, worker: None })
    }
}

/// What `load` (the decision that precedes construction) answers.
pub open spec fn load_result(m: Map<Seq<char>, ModelSnap>, name: Seq<char>) -> Result<
    (),
    NnioError,
> {
    if !m.dom().contains(name) {
        Err(NnioError::NotFound)
    } else if m[name].worker is Some {
        Err(NnioError::AlreadyLoaded)
    } else {
        Ok(())
    }
}

/// What `install_worker` answers for a given construction outcome.
pub open spec fn install_result(
    m: Map<Seq<char>, ModelSnap>,
    name: Seq<char>,
    built: Option<Seq<usize>>,
) -> Result<(), NnioError> {
    if !m.dom().contains(name) {
        Err(NnioError::NotFound)
    } else if m[name].worker is Some {
        Err(NnioError::AlreadyLoaded)
    } else if built is None {
        Err(NnioError::RuntimeFailure)
    } else {
        Ok(())
    }
}

/// The view after `install_worker`.
pub open spec fn install_next(
    m: Map<Seq<char>, ModelSnap>,
    name: Seq<char>,
    built: Option<Seq<usize>>,
) -> Map<Seq<char>, ModelSnap> {
    if install_result(m, name, built) is Ok {
        m.insert(name, ModelSnap { definition: m[name].definition, worker: built })
    } else {
        m
    }
}

/// What `unload` answers.
pub open spec fn unload_result(m: Map<Seq<char>, ModelSnap>, name: Seq<char>) -> Result<
    (),
    NnioError,
> {
    if !m.dom().contains(name) {
        Err(NnioError::NotFound)
    } else {
        Ok(())
    }
}

/// The view after `unload`: the entry, if any, is downgraded to unloaded.
pub open spec fn unload_next(m: Map<Seq<char>, ModelSnap>, name: Seq<char>) -> Map<
    Seq<char>,
    ModelSnap,
> {
    if m.dom().contains(name) {
        m.insert(name, ModelSnap { definition: m[name].definition, worker: None })
    } else {
        m
    }
}

/// What a describe round trip yields: the loaded worker's structural
/// summary, or nothing if the model is absent or unloaded.
pub open spec fn describe_spec(m: Map<Seq<char>, ModelSnap>, name: Seq<char>) -> Option<
    Seq<char>,
> {
    if m.dom().contains(name) && m[name].worker is Some {
        Some(layer_info(m[name].worker->0))
    } else {
        None
    }
}

/// What the `save_config` decision answers: whether the round trip with the
/// targeted worker may proceed.
pub open spec fn save_result(m: Map<Seq<char>, ModelSnap>, name: Seq<char>) -> Result<
    (),
    NnioError,
> {
    if !m.dom().contains(name) {
        Err(NnioError::NotFound)
    } else if m[name].worker is None {
        Err(NnioError::NotLoaded)
    } else {
        Ok(())
    }
}

/// The registry a bulk constructor denotes: entries in order, the first
/// occurrence of a name wins, invalid names are skipped, nothing is loaded.
pub open spec fn models_map(ms: Seq<(String, String)>) -> Map<Seq<char>, ModelSnap>
    decreases ms.len(),
{
    if ms.len() == 0 {
        Map::empty()
    } else {
        let m = models_map(ms.drop_last());
        let last = ms.last();
        if m.dom().contains(last.0@) || !valid_model_name(last.0@) {
            m
        } else {
            m.insert(last.0@, ModelSnap { definition: last.1@, worker: None })
        }
    }
}

impl ModelStorage {
    /// Structural soundness: names are pairwise distinct, well formed and
    /// in strictly ascending order, and each live worker runs under its
    /// entry's name.
    pub open spec fn wf(self) -> bool {
        &&& names_unique(self.mdls@)
        &&& sorted_names(self.mdls@)
        &&& forall|i: int|
            0 <= i < self.mdls@.len() ==> valid_model_name(#[trigger] self.mdls@[i].name@)
        &&& forall|i: int|
            0 <= i < self.mdls@.len() ==> (#[trigger] self.mdls@[i].worker matches Some(w)
                ==> w.name@ == self.mdls@[i].name@)
    }

    /// The set of model names the registry knows, loaded or not.
    pub open spec fn names(self) -> Set<Seq<char>> {
        self@.dom()
    }

    /// The names with a live worker.
    pub open spec fn loaded_names(self) -> Set<Seq<char>> {
        Set::new(|n: Seq<char>| self@.dom().contains(n) && self@[n].worker is Some)
    }

    /// An empty registry.
    pub fn new() -> (r: ModelStorage)
        ensures
            r.wf(),
            r@ == Map::<Seq<char>, ModelSnap>::empty(),
            r.mdls@.len() == 0,
    {
        ModelStorage { mdls: Vec::new() }
    }

    /// The index of the entry carrying `name`, if any.
    fn find(&self, name: &String) -> (r: Option<usize>)
        ensures
            match r {
                Some(i) => i < self.mdls@.len() && self.mdls@[i as int].name@ == name@,
                None => forall|i: int|
                    0 <= i < self.mdls@.len() ==> #[trigger] self.mdls@[i].name@ != name@,
            },
    {
        let mut i: usize = 0;
        while i < self.mdls.len()
            invariant
                i <= self.mdls@.len(),
                forall|j: int| 0 <= j < i ==> #[trigger] self.mdls@[j].name@ != name@,
            decreases self.mdls@.len() - i,
        {
            if self.mdls[i].name == *name {
                return Some(i);
            }
            i += 1;
        }
        None
    }

    /// Inserts an entry whose name is absent, at its place in the name
    /// order.
    fn insert_sorted(&mut self, entry: ModelEntry)
        requires
            old(self).wf(),
            valid_model_name(entry.name@),
            forall|i: int|
                0 <= i < old(self).mdls@.len() ==> #[trigger] old(self).mdls@[i].name@
                    != entry.name@,
            (entry.worker matches Some(w) ==> w.name@ == entry.name@),
        ensures
            final(self).wf(),
            final(self)@ == old(self)@.insert(entry.name@, entry_snap(entry)),
    {
        let mut k: usize = 0;
        while k < self.mdls.len() && str_name_lt(self.mdls[k].name.as_str(), entry.name.as_str())
            invariant
                k <= self.mdls@.len(),
                forall|j: int| 0 <= j < k ==> name_lt(#[trigger] self.mdls@[j].name@, entry.name@),
            decreases self.mdls@.len() - k,
        {
            k += 1;
        }
        proof {
            let s = self.mdls@;
            lemma_map_of_insert(s, k as int, entry);
            s.insert_ensures(k as int, entry);
            let s2 = s.insert(k as int, entry);
            assert forall|x: int, y: int| 0 <= x < y < s2.len() implies name_lt(
                #[trigger] s2[x].name@,
                #[trigger] s2[y].name@,
            ) && s2[x].name@ != s2[y].name@ by {
                if y < k {
                    assert(s2[x] == s[x] && s2[y] == s[y]);
                } else if x < k && y == k {
                    assert(s2[x] == s[x] && s2[y] == entry);
                    lemma_name_lt_total(s[x].name@, entry.name@);
                } else if x < k && y > k {
                    assert(s2[x] == s[x] && s2[y] == s[y - 1]);
                } else if x == k {
                    assert(s2[x] == entry && s2[y] == s[y - 1]);
                    if k < s.len() {
                        lemma_name_lt_total(entry.name@, s[k as int].name@);
                        if y - 1 > k {
                            lemma_name_lt_transitive(
                                entry.name@,
                                s[k as int].name@,
                                s[y - 1].name@,
                            );
                        }
                    }
                } else {
                    assert(s2[x] == s[x - 1] && s2[y] == s[y - 1]);
                }
                crate::names::lemma_name_lt_irreflexive(s2[x].name@);
            }
            assert forall|i: int| 0 <= i < s2.len() implies valid_model_name(
                #[trigger] s2[i].name@,
            ) && (s2[i].worker matches Some(w) ==> w.name@ == s2[i].name@) by {
                if i < k {
                    assert(s2[i] == s[i]);
                } else if i == k {
                    assert(s2[i] == entry);
                } else {
                    assert(s2[i] == s[i - 1]);
                }
            }
        }
        self.mdls.insert(k, entry);
    }

    /// Adds a model that is not yet known, unloaded, with the given
    /// persisted definition.  Returns whether it was added: an invalid or
    /// already-known name leaves the registry unchanged.
    pub fn register_model(&mut self, name: String, definition: String) -> (r: bool)
        requires
            old(self).wf(),
        ensures
            final(self).wf(),
            r == (valid_model_name(name@) && !old(self)@.dom().contains(name@)),
            r ==> final(self)@ == old(self)@.insert(
                name@,
                ModelSnap { definition: definition@, worker: None },
            ),
            !r ==> *final(self) == *old(self),
    {
        proof {
            lemma_map_of_dom(self.mdls@, name@);
        }
        if !is_valid_model_name(name.as_str()) {
            return false;
        }
        if self.find(&name).is_some() {
            return false;
        }
        self.insert_sorted(ModelEntry { name, definition, worker: None });
        true
    }

    /// A registry primed with persisted models found on disk: pairs of name
    /// and definition, in order; the first occurrence of a name wins,
    /// invalid names are skipped, nothing is loaded.
    pub fn from_models(models: Vec<(String, String)>) -> (r: ModelStorage)
        ensures
            r.wf(),
            r@ == models_map(models@),
    {
        let mut st = ModelStorage::new();
        let mut i: usize = 0;
        while i < models.len()
            invariant
                i <= models@.len(),
                st.wf(),
                st@ == models_map(models@.take(i as int)),
            decreases models@.len() - i,
        {
            let name = models[i].0.clone();
            let definition = models[i].1.clone();
            proof {
                lemma_map_of_dom(st.mdls@, name@);
            }
            let _added = st.register_model(name, definition);
            proof {
                let taken = models@.take(i as int + 1);
                assert(taken.drop_last() =~= models@.take(i as int));
                assert(taken.last() == models@[i as int]);
            }
            i += 1;
        }
        proof {
            assert(models@.take(models@.len() as int) =~= models@);
        }
        st
    }

    /// Every model directory's name, loaded or not, in strictly ascending
    /// name order.
    pub fn get_availabel_models(&self) -> (r: Vec<String>)
        requires
            self.wf(),
        ensures
            r@.len() == self.mdls@.len(),
            forall|i: int| 0 <= i < r@.len() ==> #[trigger] r@[i]@ == self.mdls@[i].name@,
            forall|i: int, j: int|
                0 <= i < j < r@.len() ==> name_lt(#[trigger] r@[i]@, #[trigger] r@[j]@),
    {
        let mut v: Vec<String> = Vec::new();
        let mut i: usize = 0;
        while i < self.mdls.len()
            invariant
                i <= self.mdls@.len(),
                v@.len() == i,
                forall|j: int| 0 <= j < i ==> #[trigger] v@[j]@ == self.mdls@[j].name@,
            decreases self.mdls@.len() - i,
        {
            v.push(self.mdls[i].name.clone());
            i += 1;
        }
        proof {
            assert forall|x: int, y: int| 0 <= x < y < v@.len() implies name_lt(
                #[trigger] v@[x]@,
                #[trigger] v@[y]@,
            ) by {
                assert(v@[x]@ == self.mdls@[x].name@);
                assert(v@[y]@ == self.mdls@[y].name@);
            }
        }
        v
    }

    /// The names with a live worker, in strictly ascending name order.
    pub fn get_loaded_models(&self) -> (r: Vec<String>)
        requires
            self.wf(),
        ensures
            r.deep_view() == loaded_names_seq(self.mdls@),
            forall|i: int, j: int|
                0 <= i < j < r@.len() ==> name_lt(#[trigger] r@[i]@, #[trigger] r@[j]@),
    {
        let mut v: Vec<String> = Vec::new();
        let mut i: usize = 0;
        while i < self.mdls.len()
            invariant
                i <= self.mdls@.len(),
                v.deep_view() == loaded_names_seq(self.mdls@.take(i as int)),
            decreases self.mdls@.len() - i,
        {
            proof {
                let taken = self.mdls@.take(i as int + 1);
                assert(taken.drop_last() =~= self.mdls@.take(i as int));
                assert(taken.last() == self.mdls@[i as int]);
            }
            if self.mdls[i].worker.is_some() {
                v.push(self.mdls[i].name.clone());
                proof {
                    assert(v.deep_view() =~= loaded_names_seq(self.mdls@.take(i as int + 1)));
                }
            } else {
                proof {
                    assert(v.deep_view() =~= loaded_names_seq(self.mdls@.take(i as int + 1)));
                }
            }
            i += 1;
        }
        proof {
            assert(self.mdls@.take(self.mdls@.len() as int) =~= self.mdls@);
            lemma_loaded_names_seq_sorted(self.mdls@);
            assert forall|x: int, y: int| 0 <= x < y < v@.len() implies name_lt(
                #[trigger] v@[x]@,
                #[trigger] v@[y]@,
            ) by {
                assert(v@[x]@ == v.deep_view()[x]);
                assert(v@[y]@ == v.deep_view()[y]);
            }
        }
        v
    }

    /// Persists a definition under a (valid) name.  Fails `AlreadyExists`
    /// when the name is taken and `overwrite` is false; otherwise the name
    /// maps afterwards to the new definition, unloaded.  A deployment
    /// mirrors the definition to the model's directory on success.
    pub fn create_model(&mut self, net_cfg: String, mdl_name: String, overwrite: bool) -> (r:
        Result<(), NnioError>)
        requires
            old(self).wf(),
            valid_model_name(mdl_name@),
        ensures
            final(self).wf(),
            r == create_result(old(self)@, mdl_name@, overwrite),
            final(self)@ == create_next(old(self)@, mdl_name@, net_cfg@, overwrite),
            r is Err ==> *final(self) == *old(self),
    {
        proof {
            lemma_map_of_dom(self.mdls@, mdl_name@);
        }
        match self.find(&mdl_name) {
            None => {
                self.insert_sorted(ModelEntry { name: mdl_name, definition: net_cfg, worker: None });
                Ok(())
            },
            Some(i) => {
                if !overwrite {
                    Err(NnioError::AlreadyExists)
                } else {
                    let entry = ModelEntry { name: mdl_name, definition: net_cfg, worker: None };
                    proof {
                        lemma_map_of_update(self.mdls@, i as int, entry);
                    }
                    self.mdls[i] = entry;
                    proof {
                        let s = self.mdls@;
                        assert(forall|x: int|
                            0 <= x < s.len() ==> #[trigger] s[x].name@ == old(
                                self,
                            ).mdls@[x].name@);
                        assert(names_unique(s));
                        assert(sorted_names(s));
                    }
                    Ok(())
                }
            },
        }
    }

    /// The decision that precedes loading: fails `NotFound` for an unknown
    /// name and `AlreadyLoaded` for a name with a live worker — the state
    /// is then unchanged (the registry itself is not touched).  On success
    /// it hands back the persisted definition; the caller constructs the
    /// model from it on the worker's own execution context and then calls
    /// [`ModelStorage::install_worker`], all under the registry lock.
    pub fn load_model(&self, mdl_name: &String) -> (r: Result<String, NnioError>)
        requires
            self.wf(),
        ensures
            match load_result(self@, mdl_name@) {
                Ok(()) => (r matches Ok(d) && d@ == self@[mdl_name@].definition),
                Err(e) => r == Err::<String, NnioError>(e),
            },
    {
        proof {
            lemma_map_of_dom(self.mdls@, mdl_name@);
        }
        match self.find(mdl_name) {
            None => Err(NnioError::NotFound),
            Some(i) => {
                proof {
                    lemma_map_of_at(self.mdls@, i as int);
                }
                if self.mdls[i].worker.is_some() {
                    Err(NnioError::AlreadyLoaded)
                } else {
                    Ok(self.mdls[i].definition.clone())
                }
            },
        }
    }

    /// Installs the worker a construction attempt produced: the readiness
    /// announcement carries the layer sizes the runtime built from the
    /// definition, or `None` if construction failed irrecoverably, which
    /// surfaces as `RuntimeFailure` with no handle installed.  A handle is
    /// only ever installed on an existing, unloaded entry.
    pub fn install_worker(&mut self, mdl_name: &String, built: Option<Vec<usize>>) -> (r: Result<
        (),
        NnioError,
    >)
        requires
            old(self).wf(),
        ensures
            final(self).wf(),
            r == install_result(old(self)@, mdl_name@, built.deep_view()),
            final(self)@ == install_next(old(self)@, mdl_name@, built.deep_view()),
            r is Err ==> *final(self) == *old(self),
    {
        proof {
            lemma_map_of_dom(self.mdls@, mdl_name@);
        }
        match self.find(mdl_name) {
            None => Err(NnioError::NotFound),
            Some(i) => {
                proof {
                    lemma_map_of_at(self.mdls@, i as int);
                }
                if self.mdls[i].worker.is_some() {
                    Err(NnioError::AlreadyLoaded)
                } else {
                    match built {
                        None => Err(NnioError::RuntimeFailure),
                        Some(layer_sizes) => {
                            proof {
                                assert(layer_sizes.deep_view() =~= layer_sizes@);
                            }
                            let entry = ModelEntry {
                                name: mdl_name.clone(),
                                definition: self.mdls[i].definition.clone(),
                                worker: Some(
                                    WorkerModel { name: mdl_name.clone(), layer_sizes },
                                ),
                            };
                            proof {
                                lemma_map_of_update(self.mdls@, i as int, entry);
                            }
                            self.mdls[i] = entry;
                            proof {
                                let s = self.mdls@;
                                assert(forall|x: int|
                                    0 <= x < s.len() ==> #[trigger] s[x].name@ == old(
                                        self,
                                    ).mdls@[x].name@);
                                assert(names_unique(s));
                                assert(sorted_names(s));
                            }
                            Ok(())
                        },
                    }
                }
            },
        }
    }

    /// Downgrades a model to unloaded.  Fails `NotFound` for an unknown
    /// name; unloading an unloaded model is a no-op.  A deployment sends
    /// `Stop` to the displaced worker and joins its execution context.
    pub fn unload_model(&mut self, mdl_name: &String) -> (r: Result<(), NnioError>)
        requires
            old(self).wf(),
        ensures
            final(self).wf(),
            r == unload_result(old(self)@, mdl_name@),
            final(self)@ == unload_next(old(self)@, mdl_name@),
            r is Err ==> *final(self) == *old(self),
    {
        proof {
            lemma_map_of_dom(self.mdls@, mdl_name@);
        }
        match self.find(mdl_name) {
            None => Err(NnioError::NotFound),
            Some(i) => {
                proof {
                    lemma_map_of_at(self.mdls@, i as int);
                }
                let entry = ModelEntry {
                    name: mdl_name.clone(),
                    definition: self.mdls[i].definition.clone(),
                    worker: None,
                };
                proof {
                    lemma_map_of_update(self.mdls@, i as int, entry);
                }
                self.mdls[i] = entry;
                proof {
                    let s = self.mdls@;
                    assert(forall|x: int|
                        0 <= x < s.len() ==> #[trigger] s[x].name@ == old(self).mdls@[x].name@);
                    assert(names_unique(s));
                    assert(sorted_names(s));
                }
                Ok(())
            },
        }
    }

    /// Is the model present with a live worker — that is, does a describe
    /// or save round trip have a worker to address?
    pub fn is_loaded(&self, mdl_name: &String) -> (r: bool)
        requires
            self.wf(),
        ensures
            r == (self@.dom().contains(mdl_name@) && self@[mdl_name@].worker is Some),
    {
        proof {
            lemma_map_of_dom(self.mdls@, mdl_name@);
        }
        match self.find(mdl_name) {
            None => false,
            Some(i) => {
                proof {
                    lemma_map_of_at(self.mdls@, i as int);
                }
                self.mdls[i].worker.is_some()
            },
        }
    }

    /// The model's structural summary: the answer of a `DescribeInfo` round
    /// trip with its worker, `None` if the model is absent or unloaded.
    /// The summary is what [`crate::worker::worker_step`] replies to `Info`.
    pub fn get_model_info(&self, mdl_name: &String) -> (r: Option<String>)
        requires
            self.wf(),
        ensures
            match describe_spec(self@, mdl_name@) {
                Some(s) => (r matches Some(info) && info@ == s),
                None => r is None,
            },
    {
        proof {
            lemma_map_of_dom(self.mdls@, mdl_name@);
        }
        match self.find(mdl_name) {
            None => None,
            Some(i) => {
                proof {
                    lemma_map_of_at(self.mdls@, i as int);
                }
                match &self.mdls[i].worker {
                    None => None,
                    Some(w) => Some(w.info()),
                }
            },
        }
    }

    /// The decision that precedes a `SaveConfig` round trip: `NotFound` for
    /// an unknown name, `NotLoaded` without a live worker; `Ok` says the
    /// round trip with the worker may proceed.  Its reply is judged by
    /// [`save_model_cfg_complete`].
    pub fn save_model_cfg(&self, mdl_name: &String) -> (r: Result<(), NnioError>)
        requires
            self.wf(),
        ensures
            r == save_result(self@, mdl_name@),
    {
        proof {
            lemma_map_of_dom(self.mdls@, mdl_name@);
        }
        match self.find(mdl_name) {
            None => Err(NnioError::NotFound),
            Some(i) => {
                proof {
                    lemma_map_of_at(self.mdls@, i as int);
                }
                if self.mdls[i].worker.is_some() {
                    Ok(())
                } else {
                    Err(NnioError::NotLoaded)
                }
            },
        }
    }
}

/// Judges the reply of a `DescribeInfo` round trip: the worker's summary,
/// or nothing for any reply that is no `InfoResult` — a dead conduit or an
/// unexpected reply yields an explicit empty answer, never a hang.
pub fn get_model_info_complete(reply: &ModelMessage) -> (r: Option<String>)
    ensures
        (match reply {
            ModelMessage::RespInfo(s) => (r matches Some(info) && info@ == s@),
            _ => r is None,
        }),
{
    match reply {
        ModelMessage::RespInfo(s) => Some(s.clone()),
        _ => None,
    }
}

/// Judges the reply of a `SaveConfig`/`SaveState` round trip: the worker's
/// success flag, or `CommunicationFailure` for any reply that is not a
/// `RespSave` — every outcome is a defined result, nothing hangs or is
/// dropped silently.
pub fn save_model_cfg_complete(reply: &ModelMessage) -> (r: Result<bool, NnioError>)
    ensures
        match reply {
            ModelMessage::RespSave(b) => r == Ok::<bool, NnioError>(*b),
            _ => r == Err::<bool, NnioError>(NnioError::CommunicationFailure),
        },
{
    match reply {
        ModelMessage::RespSave(b) => Ok(*b),
        _ => Err(NnioError::CommunicationFailure),
    }
}

/// The names of the loaded entries, in registry order.
pub open spec fn loaded_names_seq(s: Seq<ModelEntry>) -> Seq<Seq<char>>
    decreases s.len(),
{
    if s.len() == 0 {
        Seq::empty()
    } else {
        let pre = loaded_names_seq(s.drop_last());
        if s.last().worker is Some {
            pre.push(s.last().name@)
        } else {
            pre
        }
    }
}

/// Every element of the loaded-names listing names an entry that is loaded.
pub proof fn lemma_loaded_names_seq_elem(s: Seq<ModelEntry>, k: int)
    requires
        0 <= k < loaded_names_seq(s).len(),
    ensures
        exists|i: int|
            0 <= i < s.len() && #[trigger] s[i].name@ == loaded_names_seq(s)[k]
                && s[i].worker is Some,
    decreases s.len(),
{
    let pre = loaded_names_seq(s.drop_last());
    if s.last().worker is Some && k == pre.len() {
        assert(s[s.len() - 1].name@ == loaded_names_seq(s)[k] && s[s.len() - 1].worker is Some);
    } else {
        lemma_loaded_names_seq_elem(s.drop_last(), k);
        let i = choose|i: int|
            0 <= i < s.drop_last().len() && #[trigger] s.drop_last()[i].name@ == pre[k]
                && s.drop_last()[i].worker is Some;
        assert(s[i].name@ == loaded_names_seq(s)[k] && s[i].worker is Some);
    }
}

/// The loaded-names listing of a sorted registry ascends too.
pub proof fn lemma_loaded_names_seq_sorted(s: Seq<ModelEntry>)
    requires
        sorted_names(s),
    ensures
        forall|k1: int, k2: int|
            0 <= k1 < k2 < loaded_names_seq(s).len() ==> name_lt(
                #[trigger] loaded_names_seq(s)[k1],
                #[trigger] loaded_names_seq(s)[k2],
            ),
    decreases s.len(),
{
    if s.len() > 0 {
        let pre = s.drop_last();
        assert(sorted_names(pre)) by {
            assert(forall|x: int|
                0 <= x < pre.len() ==> #[trigger] pre[x].name@ == s[x].name@);
        }
        lemma_loaded_names_seq_sorted(pre);
        let lpre = loaded_names_seq(pre);
        if s.last().worker is Some {
            assert forall|k1: int, k2: int|
                0 <= k1 < k2 < loaded_names_seq(s).len() implies name_lt(
                loaded_names_seq(s)[k1],
                loaded_names_seq(s)[k2],
            ) by {
                if k2 == lpre.len() {
                    lemma_loaded_names_seq_elem(pre, k1);
                    let i = choose|i: int|
                        0 <= i < pre.len() && #[trigger] pre[i].name@ == lpre[k1]
                            && pre[i].worker is Some;
                    assert(s[i].name@ == lpre[k1]);
                    assert(name_lt(s[i].name@, s[s.len() - 1].name@));
                }
            }
        }
    }
}

} // verus!
