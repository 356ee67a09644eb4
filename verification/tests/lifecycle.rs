use nnio::errors::NnioError;
use nnio::mdl_storage::{save_model_cfg_complete, ModelStorage};
use nnio::worker::ModelMessage;

fn s(x: &str) -> String {
    String::from(x)
}

#[test]
fn create_then_lists() {
    let mut st = ModelStorage::new();
    assert_eq!(st.create_model(s("layers: [2, 10, 1]"), s("net1"), false), Ok(()));
    assert_eq!(st.get_availabel_models(), vec![s("net1")]);
    assert!(st.get_loaded_models().is_empty());
}

#[test]
fn create_twice_fails_and_keeps_definition() {
    let mut st = ModelStorage::new();
    assert_eq!(st.create_model(s("first definition"), s("net1"), false), Ok(()));
    assert_eq!(
        st.create_model(s("second definition"), s("net1"), false),
        Err(NnioError::AlreadyExists)
    );
    // The persisted definition is unchanged: loading hands back the first.
    assert_eq!(st.load_model(&s("net1")), Ok(s("first definition")));
}

#[test]
fn create_with_overwrite_replaces_definition() {
    let mut st = ModelStorage::new();
    assert_eq!(st.create_model(s("old"), s("net1"), false), Ok(()));
    assert_eq!(st.create_model(s("new"), s("net1"), true), Ok(()));
    assert_eq!(st.load_model(&s("net1")), Ok(s("new")));
    assert_eq!(st.get_availabel_models(), vec![s("net1")]);
}

#[test]
fn load_install_describe_round_trip() {
    let mut st = ModelStorage::new();
    let definition = s("layers: [2, 10, 1]");
    assert_eq!(st.create_model(definition.clone(), s("net1"), false), Ok(()));
    // The load decision hands back exactly the persisted definition ...
    assert_eq!(st.load_model(&s("net1")), Ok(definition));
    // ... the runtime builds the layers from it, and once the worker is
    // installed the summary is derived from those layers alone.
    assert_eq!(st.install_worker(&s("net1"), Some(vec![2, 10, 1])), Ok(()));
    assert_eq!(st.get_loaded_models(), vec![s("net1")]);
    let info = st.get_model_info(&s("net1")).expect("loaded model must describe itself");
    assert_eq!(info, "2-10-1");
    assert!(!info.is_empty());
}

#[test]
fn load_missing_fails_not_found() {
    let st = ModelStorage::new();
    assert_eq!(st.load_model(&s("net1")), Err(NnioError::NotFound));
}

#[test]
fn second_load_fails_already_loaded_and_state_unchanged() {
    let mut st = ModelStorage::new();
    assert_eq!(st.create_model(s("cfg"), s("net1"), false), Ok(()));
    assert_eq!(st.load_model(&s("net1")), Ok(s("cfg")));
    assert_eq!(st.install_worker(&s("net1"), Some(vec![4, 4])), Ok(()));
    assert_eq!(st.load_model(&s("net1")), Err(NnioError::AlreadyLoaded));
    assert_eq!(st.install_worker(&s("net1"), Some(vec![9])), Err(NnioError::AlreadyLoaded));
    // State unchanged: still loaded, same summary.
    assert_eq!(st.get_loaded_models(), vec![s("net1")]);
    assert_eq!(st.get_model_info(&s("net1")), Some(s("4-4")));
}

#[test]
fn failed_construction_installs_no_handle() {
    let mut st = ModelStorage::new();
    assert_eq!(st.create_model(s("cfg"), s("net1"), false), Ok(()));
    assert_eq!(st.load_model(&s("net1")), Ok(s("cfg")));
    assert_eq!(st.install_worker(&s("net1"), None), Err(NnioError::RuntimeFailure));
    assert!(st.get_loaded_models().is_empty());
    assert_eq!(st.get_model_info(&s("net1")), None);
}

#[test]
fn unload_downgrades_and_describe_goes_dark() {
    let mut st = ModelStorage::new();
    assert_eq!(st.create_model(s("cfg"), s("net1"), false), Ok(()));
    assert_eq!(st.load_model(&s("net1")), Ok(s("cfg")));
    assert_eq!(st.install_worker(&s("net1"), Some(vec![3, 1])), Ok(()));
    assert_eq!(st.unload_model(&s("net1")), Ok(()));
    assert!(st.get_loaded_models().is_empty());
    assert_eq!(st.get_model_info(&s("net1")), None);
    // Still available, and unloading again is a no-op.
    assert_eq!(st.get_availabel_models(), vec![s("net1")]);
    assert_eq!(st.unload_model(&s("net1")), Ok(()));
    assert_eq!(st.unload_model(&s("ghost")), Err(NnioError::NotFound));
}

#[test]
fn save_config_on_never_created_name_fails_not_found() {
    let st = ModelStorage::new();
    assert_eq!(st.save_model_cfg(&s("ghost")), Err(NnioError::NotFound));
}

#[test]
fn save_config_decisions_and_round_trip() {
    let mut st = ModelStorage::new();
    assert_eq!(st.create_model(s("cfg"), s("net1"), false), Ok(()));
    assert_eq!(st.save_model_cfg(&s("net1")), Err(NnioError::NotLoaded));
    assert_eq!(st.load_model(&s("net1")), Ok(s("cfg")));
    assert_eq!(st.install_worker(&s("net1"), Some(vec![2, 2])), Ok(()));
    assert_eq!(st.save_model_cfg(&s("net1")), Ok(()));
    // Both of two back-to-back round trips get a defined boolean result.
    assert_eq!(save_model_cfg_complete(&ModelMessage::RespSave(true)), Ok(true));
    assert_eq!(save_model_cfg_complete(&ModelMessage::RespSave(false)), Ok(false));
    // A reply that is no save reply is a communication failure, not a hang.
    assert_eq!(
        save_model_cfg_complete(&ModelMessage::TrainResult),
        Err(NnioError::CommunicationFailure)
    );
}

#[test]
fn from_models_first_occurrence_wins_and_skips_invalid() {
    let st = ModelStorage::from_models(vec![
        (s("net1"), s("one")),
        (s("bad name"), s("ignored")),
        (s(""), s("ignored")),
        (s("net2"), s("two")),
        (s("net1"), s("shadowed")),
    ]);
    assert_eq!(st.get_availabel_models(), vec![s("net1"), s("net2")]);
    assert!(st.get_loaded_models().is_empty());
    assert_eq!(st.load_model(&s("net1")), Ok(s("one")));
    assert_eq!(st.load_model(&s("net2")), Ok(s("two")));
}

#[test]
fn register_model_rejects_duplicates_and_invalid_names() {
    let mut st = ModelStorage::new();
    assert!(st.register_model(s("net1"), s("cfg")));
    assert!(!st.register_model(s("net1"), s("other")));
    assert!(!st.register_model(s("wrong/name"), s("cfg")));
    assert!(!st.register_model(s(""), s("cfg")));
    assert_eq!(st.get_availabel_models(), vec![s("net1")]);
}

#[test]
fn listings_are_in_ascending_name_order() {
    let mut st = ModelStorage::new();
    for name in ["zeta", "alpha", "mid"] {
        assert_eq!(st.create_model(s("cfg"), s(name), false), Ok(()));
    }
    assert_eq!(st.get_availabel_models(), vec![s("alpha"), s("mid"), s("zeta")]);
    for name in ["zeta", "alpha"] {
        assert_eq!(st.load_model(&s(name)), Ok(s("cfg")));
        assert_eq!(st.install_worker(&s(name), Some(vec![1])), Ok(()));
    }
    assert_eq!(st.get_loaded_models(), vec![s("alpha"), s("zeta")]);
    let st = ModelStorage::from_models(vec![(s("bb"), s("2")), (s("aa"), s("1"))]);
    assert_eq!(st.get_availabel_models(), vec![s("aa"), s("bb")]);
}

#[test]
fn loaded_is_always_subset_of_available() {
    let mut st = ModelStorage::new();
    for name in ["a1", "b2", "c3"] {
        assert_eq!(st.create_model(s("cfg"), s(name), false), Ok(()));
    }
    assert_eq!(st.load_model(&s("b2")), Ok(s("cfg")));
    assert_eq!(st.install_worker(&s("b2"), Some(vec![1])), Ok(()));
    let available = st.get_availabel_models();
    let loaded = st.get_loaded_models();
    assert!(loaded.iter().all(|n| available.contains(n)));
    assert_eq!(loaded, vec![s("b2")]);
}
