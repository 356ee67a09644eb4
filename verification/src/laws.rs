//! The registry's governing properties, stated and proved once for every
//! reachable state rather than for chosen values.

use vstd::prelude::*;

use crate::errors::NnioError;
use crate::mdl_storage::{
    create_next, create_result, describe_spec, install_next, install_result,
    lemma_loaded_names_seq_elem, lemma_map_of_dom, load_result, loaded_names_seq, ModelSnap,
    ModelStorage,
};
use crate::worker::layer_info;

verus! {

/// At most one live worker per model name: entries are keyed by name, each
/// holds at most one worker handle, and two entries carrying the same name
/// are the same entry.
pub proof fn lemma_one_worker_per_name(s: ModelStorage, i: int, j: int)
    requires
        s.wf(),
        0 <= i < s.mdls@.len(),
        0 <= j < s.mdls@.len(),
        s.mdls@[i].name@ == s.mdls@[j].name@,
    ensures
        i == j,
{
    if i < j {
        assert(s.mdls@[i].name@ != s.mdls@[j].name@);
    }
    if j < i {
        assert(s.mdls@[j].name@ != s.mdls@[i].name@);
    }
}

/// The loaded names are always a subset of the available names.
pub proof fn lemma_loaded_subset_available(s: ModelStorage)
    ensures
        s.loaded_names().subset_of(s.names()),
{
    assert forall|n: Seq<char>| s.loaded_names().contains(n) implies s.names().contains(n) by {};
}

/// The listing the registry hands out as "loaded" only names models the
/// listing of "available" also contains.
pub proof fn lemma_list_loaded_subset_available(s: ModelStorage)
    requires
        s.wf(),
    ensures
        forall|k: int|
            0 <= k < loaded_names_seq(s.mdls@).len() ==> s.names().contains(
                #[trigger] loaded_names_seq(s.mdls@)[k],
            ),
{
    assert forall|k: int| 0 <= k < loaded_names_seq(s.mdls@).len() implies s.names().contains(
        loaded_names_seq(s.mdls@)[k],
    ) by {
        lemma_loaded_names_seq_elem(s.mdls@, k);
        lemma_map_of_dom(s.mdls@, loaded_names_seq(s.mdls@)[k]);
    }
}

/// The create/load/describe round trip: creating a fresh model with some
/// definition, then installing the worker the runtime built from that
/// definition, makes describing it yield exactly the summary of the built
/// layers — a function of those layers alone, independent of the name and
/// of the rest of the registry, and non-empty whenever the model has at
/// least one layer — while the persisted definition stays what was
/// created.
pub proof fn lemma_create_load_describe(
    m: Map<Seq<char>, ModelSnap>,
    name: Seq<char>,
    definition: Seq<char>,
    layers: Seq<usize>,
)
    requires
        !m.dom().contains(name),
    ensures
        ({
            let created = create_next(m, name, definition, false);
            let loaded = install_next(created, name, Some(layers));
            &&& create_result(m, name, false) is Ok
            &&& load_result(created, name) is Ok
            &&& install_result(created, name, Some(layers)) is Ok
            &&& describe_spec(loaded, name) == Some(layer_info(layers))
            &&& (layers.len() > 0 ==> layer_info(layers).len() > 0)
            &&& loaded[name].definition == definition
        }),
{
    if layers.len() > 0 {
        crate::worker::lemma_layer_info_nonempty(layers);
    }
}

/// Creating the same name twice without `overwrite` fails the second time
/// with `AlreadyExists`, and the persisted definition stays the first one.
pub proof fn lemma_create_twice_fails(
    m: Map<Seq<char>, ModelSnap>,
    name: Seq<char>,
    first_def: Seq<char>,
    second_def: Seq<char>,
)
    requires
        !m.dom().contains(name),
    ensures
        ({
            let once = create_next(m, name, first_def, false);
            &&& create_result(m, name, false) is Ok
            &&& create_result(once, name, false) == Err::<(), NnioError>(NnioError::AlreadyExists)
            &&& create_next(once, name, second_def, false) == once
            &&& once[name].definition == first_def
        }),
{
}

} // verus!
