use nnio::decimal::usize_to_decimal;
use nnio::dispatch::{
    describe_response, handle_request, load_response, save_response, DispatchOutcome,
};
use nnio::errors::NnioError;
use nnio::mdl_storage::{get_model_info_complete, ModelStorage};
use nnio::names::{is_valid_model_name, str_name_lt};
use nnio::wire::{decode_request, encode_response, WireResponse};
use nnio::worker::{worker_step, ModelMessage, WorkerAction, WorkerModel};

fn s(x: &str) -> String {
    String::from(x)
}

fn model() -> WorkerModel {
    WorkerModel { name: s("net1"), layer_sizes: vec![2, 10, 1] }
}

#[test]
fn decimal_renderings() {
    assert_eq!(usize_to_decimal(0), "0");
    assert_eq!(usize_to_decimal(7), "7");
    assert_eq!(usize_to_decimal(10), "10");
    assert_eq!(usize_to_decimal(905), "905");
    assert_eq!(usize_to_decimal(18446744073709551615), "18446744073709551615");
}

#[test]
fn model_name_validity() {
    assert!(is_valid_model_name("net1"));
    assert!(is_valid_model_name("Net_1-a"));
    assert!(is_valid_model_name("net.v1.2"));
    assert!(!is_valid_model_name(""));
    assert!(!is_valid_model_name("a b"));
    assert!(!is_valid_model_name("a/b"));
    assert!(!is_valid_model_name("a\"b"));
    assert!(!is_valid_model_name("père"));
    // The two reserved directory names are refused.
    assert!(!is_valid_model_name("."));
    assert!(!is_valid_model_name(".."));
    assert!(is_valid_model_name("..."));
}

#[test]
fn name_order_is_lexicographic() {
    assert!(str_name_lt("alpha", "beta"));
    assert!(!str_name_lt("beta", "alpha"));
    assert!(!str_name_lt("alpha", "alpha"));
    assert!(str_name_lt("alp", "alpha"));
    assert!(str_name_lt("Net", "net"));
    assert!(str_name_lt("net1", "net2"));
}

#[test]
fn worker_summary_joins_layer_sizes() {
    assert_eq!(model().info(), "2-10-1");
    let one = WorkerModel { name: s("n"), layer_sizes: vec![42] };
    assert_eq!(one.info(), "42");
    let none = WorkerModel { name: s("n"), layer_sizes: vec![] };
    assert_eq!(none.info(), "");
}

#[test]
fn worker_step_routes_every_request_to_one_action() {
    let m = model();
    assert!(matches!(
        worker_step(&m, &ModelMessage::Info),
        WorkerAction::Reply(ModelMessage::RespInfo(i)) if i == "2-10-1"
    ));
    assert!(matches!(worker_step(&m, &ModelMessage::Train),
        WorkerAction::Reply(ModelMessage::TrainResult)));
    assert!(matches!(worker_step(&m, &ModelMessage::Eval),
        WorkerAction::Reply(ModelMessage::EvalResult)));
    assert!(matches!(worker_step(&m, &ModelMessage::SetBatchSize(16)),
        WorkerAction::Reply(ModelMessage::RespSave(true))));
    assert!(matches!(worker_step(&m, &ModelMessage::SaveCfg), WorkerAction::PersistConfig));
    assert!(matches!(
        worker_step(&m, &ModelMessage::SaveState(s("v1"))),
        WorkerAction::PersistState(p) if p == "v1"
    ));
}

#[test]
fn worker_step_stops_and_ignores() {
    let m = model();
    assert!(matches!(worker_step(&m, &ModelMessage::Stop), WorkerAction::Quit));
    assert!(matches!(worker_step(&m, &ModelMessage::RespSave(true)), WorkerAction::Ignore));
    assert!(matches!(worker_step(&m, &ModelMessage::ModelName(s("x"))), WorkerAction::Ignore));
    assert!(matches!(worker_step(&m, &ModelMessage::RespInfo(s("x"))), WorkerAction::Ignore));
}

#[test]
fn dispatch_whole_connection_exchange() {
    let mut st = ModelStorage::new();

    // Create.
    let req = decode_request(br#"{"type":3,"name":"net1","net_cfg":"layers: [2, 10, 1]"}"#)
        .expect("decodes");
    let out = handle_request(&mut st, req);
    let resp = match out {
        DispatchOutcome::Respond(r) => r,
        _ => panic!("create answers directly"),
    };
    assert_eq!(encode_response(&resp), r#"{"type":12}"#);

    // Creating it again fails explicitly.
    let req = decode_request(br#"{"type":3,"name":"net1","net_cfg":"other"}"#).expect("decodes");
    let out = handle_request(&mut st, req);
    assert!(matches!(out, DispatchOutcome::Respond(WireResponse::CreateFailure)));

    // Listings.
    let req = decode_request(br#"{"type":0}"#).expect("decodes");
    let out = handle_request(&mut st, req);
    let resp = match out {
        DispatchOutcome::Respond(r) => r,
        _ => panic!("listing answers directly"),
    };
    assert_eq!(encode_response(&resp), r#"{"available_mdls":["net1"],"type":16}"#);
    let req = decode_request(br#"{"type":1}"#).expect("decodes");
    let out = handle_request(&mut st, req);
    let resp = match out {
        DispatchOutcome::Respond(r) => r,
        _ => panic!("listing answers directly"),
    };
    assert_eq!(encode_response(&resp), r#"{"loaded_mdls":[],"type":19}"#);

    // Describe before loading fails explicitly.
    let req = decode_request(br#"{"type":2,"mdl_name":"net1"}"#).expect("decodes");
    let out = handle_request(&mut st, req);
    assert!(matches!(out, DispatchOutcome::Respond(WireResponse::ModelInfoFailure)));

    // Load: the decision hands the definition to the worker's context.
    let req = decode_request(br#"{"type":5,"mdl_name":"net1"}"#).expect("decodes");
    let out = handle_request(&mut st, req);
    let definition = match out {
        DispatchOutcome::LoadConstruct(d) => d,
        _ => panic!("load of an unloaded model constructs"),
    };
    assert_eq!(definition, "layers: [2, 10, 1]");
    let installed = st.install_worker(&s("net1"), Some(vec![2, 10, 1]));
    assert_eq!(encode_response(&load_response(&installed)), r#"{"status":1,"type":20}"#);

    // Describe now passes its decision; the worker itself answers the
    // round trip, and its reply is judged before it is encoded.
    let req = decode_request(br#"{"type":2,"mdl_name":"net1"}"#).expect("decodes");
    let out = handle_request(&mut st, req);
    assert!(matches!(out, DispatchOutcome::DescribeRoundTrip));
    let worker = WorkerModel { name: s("net1"), layer_sizes: vec![2, 10, 1] };
    let reply = match worker_step(&worker, &ModelMessage::Info) {
        WorkerAction::Reply(r) => r,
        _ => panic!("describe yields a direct reply"),
    };
    let resp = describe_response(get_model_info_complete(&reply));
    assert_eq!(encode_response(&resp), r#"{"mdl_info":"2-10-1","type":14}"#);

    // A round trip that yields no summary answers the failure discriminant.
    assert!(get_model_info_complete(&ModelMessage::TrainResult).is_none());
    let resp = describe_response(None);
    assert_eq!(encode_response(&resp), r#"{"type":15}"#);

    // A second load fails with status 0.
    let req = decode_request(br#"{"type":5,"mdl_name":"net1"}"#).expect("decodes");
    let out = handle_request(&mut st, req);
    let resp = match out {
        DispatchOutcome::Respond(r) => r,
        _ => panic!("loading a loaded model answers directly"),
    };
    assert_eq!(encode_response(&resp), r#"{"status":0,"type":20}"#);

    // Save: the decision passes, the worker's round trip reply decides.
    let req = decode_request(br#"{"type":7,"mdl_name":"net1"}"#).expect("decodes");
    let out = handle_request(&mut st, req);
    assert!(matches!(out, DispatchOutcome::SaveRoundTrip));
    let resp = save_response(&Ok(true));
    assert_eq!(encode_response(&resp), r#"{"status":1,"type":18}"#);
    let resp = save_response(&Err(NnioError::CommunicationFailure));
    assert_eq!(encode_response(&resp), r#"{"status":0,"type":18}"#);

    // Save against an absent name answers status 0 directly.
    let req = decode_request(br#"{"type":7,"mdl_name":"ghost"}"#).expect("decodes");
    let out = handle_request(&mut st, req);
    let resp = match out {
        DispatchOutcome::Respond(r) => r,
        _ => panic!("save of an absent model answers directly"),
    };
    assert_eq!(encode_response(&resp), r#"{"status":0,"type":18}"#);

    // Unload is fire-and-forget on the wire.
    let req = decode_request(br#"{"type":6,"mdl_name":"net1"}"#).expect("decodes");
    let out = handle_request(&mut st, req);
    assert!(matches!(out, DispatchOutcome::NoResponse));
    assert!(st.get_loaded_models().is_empty());
}
