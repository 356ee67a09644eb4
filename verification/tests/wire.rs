use nnio::message::MessageType;
use nnio::wire::{decode_request, encode_response, WireRequest, WireResponse};

fn s(x: &str) -> String {
    String::from(x)
}

#[test]
fn message_type_codes() {
    assert_eq!(MessageType::GetAvailableModels.code(), 0);
    assert_eq!(MessageType::GetLoadedModels.code(), 1);
    assert_eq!(MessageType::ModelInfo.code(), 2);
    assert_eq!(MessageType::CreateModel.code(), 3);
    assert_eq!(MessageType::LoadModel.code(), 5);
    assert_eq!(MessageType::UnloadModel.code(), 6);
    assert_eq!(MessageType::SaveModelCfg.code(), 7);
    assert_eq!(MessageType::Exit.code(), 11);
    assert_eq!(MessageType::RespModelCreateSuccess.code(), 12);
    assert_eq!(MessageType::RespModelCreateFailure.code(), 13);
    assert_eq!(MessageType::RespModelInfoSuccess.code(), 14);
    assert_eq!(MessageType::RespAvailableModels.code(), 16);
    assert_eq!(MessageType::RespModelSaveCfg.code(), 18);
    assert_eq!(MessageType::RespLoadedModels.code(), 19);
    assert_eq!(MessageType::RespLoadModel.code(), 20);
}

#[test]
fn message_type_from_u64_round_trips_requests_only() {
    for v in 0u64..=10 {
        let t = MessageType::from_u64(v).expect("request codes decode");
        assert_eq!(t.code(), v);
    }
    // Exit and the responses are not requests.
    for v in 11u64..=20 {
        assert!(MessageType::from_u64(v).is_none());
    }
    assert!(MessageType::from_u64(999).is_none());
}

#[test]
fn from_parts_assembles_served_requests() {
    let r = WireRequest::from_parts(3, Some(s("net1")), Some(s("cfg")), None);
    assert!(matches!(r, Some(WireRequest::CreateModel { name, net_cfg })
        if name == "net1" && net_cfg == "cfg"));
    assert!(matches!(WireRequest::from_parts(0, None, None, None),
        Some(WireRequest::GetAvailableModels)));
    assert!(matches!(WireRequest::from_parts(1, None, None, None),
        Some(WireRequest::GetLoadedModels)));
    assert!(matches!(WireRequest::from_parts(2, None, None, Some(s("m"))),
        Some(WireRequest::ModelInfo { mdl_name }) if mdl_name == "m"));
    assert!(matches!(WireRequest::from_parts(5, None, None, Some(s("m"))),
        Some(WireRequest::LoadModel { .. })));
    assert!(matches!(WireRequest::from_parts(6, None, None, Some(s("m"))),
        Some(WireRequest::UnloadModel { .. })));
    assert!(matches!(WireRequest::from_parts(7, None, None, Some(s("m"))),
        Some(WireRequest::SaveModelCfg { .. })));
}

#[test]
fn from_parts_drops_malformed_and_unserved() {
    // Missing required fields.
    assert!(WireRequest::from_parts(3, None, Some(s("cfg")), None).is_none());
    assert!(WireRequest::from_parts(3, Some(s("net1")), None, None).is_none());
    assert!(WireRequest::from_parts(2, None, None, None).is_none());
    // A creation under a malformed name is dropped.
    assert!(WireRequest::from_parts(3, Some(s("")), Some(s("cfg")), None).is_none());
    assert!(WireRequest::from_parts(3, Some(s("a b")), Some(s("cfg")), None).is_none());
    // Recognized but unserved discriminants are dropped.
    for v in [4u64, 8, 9, 10] {
        assert!(WireRequest::from_parts(v, None, None, Some(s("m"))).is_none());
    }
    // Unknown discriminants are dropped.
    assert!(WireRequest::from_parts(11, None, None, None).is_none());
    assert!(WireRequest::from_parts(77, None, None, None).is_none());
}

#[test]
fn decode_request_reads_documents() {
    let r = decode_request(br#"{"type":3,"name":"net1","net_cfg":"layers"}"#);
    assert!(matches!(r, Some(WireRequest::CreateModel { name, net_cfg })
        if name == "net1" && net_cfg == "layers"));
    let r = decode_request(br#"{"type":0}"#);
    assert!(matches!(r, Some(WireRequest::GetAvailableModels)));
    let r = decode_request(br#"{"mdl_name":"net1","type":2}"#);
    assert!(matches!(r, Some(WireRequest::ModelInfo { mdl_name }) if mdl_name == "net1"));
}

#[test]
fn decode_request_accepts_pretty_printed_documents() {
    let doc = b"{\n  \"type\": 3,\n  \"name\": \"net1\",\n  \"net_cfg\": \"layers\"\n}";
    let r = decode_request(doc);
    assert!(matches!(r, Some(WireRequest::CreateModel { name, net_cfg })
        if name == "net1" && net_cfg == "layers"));
}

#[test]
fn decode_request_drops_junk() {
    assert!(decode_request(b"not json at all").is_none());
    assert!(decode_request(br#"[1,2,3]"#).is_none());
    assert!(decode_request(br#"{"no_type":1}"#).is_none());
    assert!(decode_request(br#"{"type":"three"}"#).is_none());
    assert!(decode_request(br#"{"type":3,"name":7,"net_cfg":"x"}"#).is_none());
    assert!(decode_request(br#"{"type":999}"#).is_none());
}

#[test]
fn encode_fixed_responses() {
    assert_eq!(encode_response(&WireResponse::CreateSuccess), r#"{"type":12}"#);
    assert_eq!(encode_response(&WireResponse::CreateFailure), r#"{"type":13}"#);
    assert_eq!(encode_response(&WireResponse::ModelInfoFailure), r#"{"type":15}"#);
    assert_eq!(encode_response(&WireResponse::SaveCfgStatus(true)), r#"{"status":1,"type":18}"#);
    assert_eq!(encode_response(&WireResponse::SaveCfgStatus(false)), r#"{"status":0,"type":18}"#);
    assert_eq!(encode_response(&WireResponse::LoadStatus(true)), r#"{"status":1,"type":20}"#);
    assert_eq!(encode_response(&WireResponse::LoadStatus(false)), r#"{"status":0,"type":20}"#);
}

#[test]
fn encode_lists_and_info() {
    assert_eq!(
        encode_response(&WireResponse::AvailableModels(vec![s("net1"), s("net2")])),
        r#"{"available_mdls":["net1","net2"],"type":16}"#
    );
    assert_eq!(
        encode_response(&WireResponse::AvailableModels(vec![])),
        r#"{"available_mdls":[],"type":16}"#
    );
    assert_eq!(
        encode_response(&WireResponse::LoadedModels(vec![s("net1")])),
        r#"{"loaded_mdls":["net1"],"type":19}"#
    );
    assert_eq!(
        encode_response(&WireResponse::ModelInfoSuccess(s("2-10-1"))),
        r#"{"mdl_info":"2-10-1","type":14}"#
    );
}

#[test]
fn encoded_documents_parse_back_with_a_real_json_parser() {
    let text = encode_response(&WireResponse::AvailableModels(vec![s("net1"), s("net2")]));
    let v: serde_json::Value = serde_json::from_str(&text).expect("well-formed JSON");
    assert_eq!(v.get("type").and_then(|t| t.as_u64()), Some(16));
    let list = v.get("available_mdls").and_then(|l| l.as_array()).expect("an array");
    assert_eq!(list.len(), 2);
    assert_eq!(list[0].as_str(), Some("net1"));
    assert_eq!(list[1].as_str(), Some("net2"));

    let text = encode_response(&WireResponse::ModelInfoSuccess(s("4-4")));
    let v: serde_json::Value = serde_json::from_str(&text).expect("well-formed JSON");
    assert_eq!(v.get("type").and_then(|t| t.as_u64()), Some(14));
    assert_eq!(v.get("mdl_info").and_then(|i| i.as_str()), Some("4-4"));

    let text = encode_response(&WireResponse::SaveCfgStatus(true));
    let v: serde_json::Value = serde_json::from_str(&text).expect("well-formed JSON");
    assert_eq!(v.get("status").and_then(|x| x.as_u64()), Some(1));
}
