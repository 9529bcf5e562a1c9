use dsh_tui::cordis::{advertised_by_agent, PROTOCOL, THEME_UPDATE};
use dsh_tui::json::{Json, JsonNumber};

fn conv(v: &serde_json::Value) -> Json {
    match v {
        serde_json::Value::Null => Json::Null,
        serde_json::Value::Bool(b) => Json::Bool(*b),
        serde_json::Value::Number(n) => Json::Number(JsonNumber { as_u64: n.as_u64(), as_i64: n.as_i64(), text: n.to_string() }),
        serde_json::Value::String(s) => Json::String(s.clone()),
        serde_json::Value::Array(a) => Json::Array(a.iter().map(conv).collect()),
        serde_json::Value::Object(o) => Json::Object(o.iter().map(|(k, v)| (k.clone(), conv(v))).collect()),
    }
}

fn json(text: &str) -> Json {
    conv(&serde_json::from_str(text).unwrap())
}

#[test]
fn cordis_is_negotiated_only_for_the_spoken_protocol() {
    assert_eq!(PROTOCOL, 0);
    assert!(THEME_UPDATE.starts_with("_dsh/cordis/"));
    assert!(advertised_by_agent(&json(
        r#"{"agentCapabilities": {"_meta": {"dsh": {"cordis": {"protocol": 0}}}}}"#
    )));
    assert!(!advertised_by_agent(&json(
        r#"{"agentCapabilities": {"_meta": {"dsh": {"cordis": {"protocol": 1}}}}}"#
    )));
    assert!(!advertised_by_agent(&json(
        r#"{"agentCapabilities": {"_meta": {"dsh": {"cordis": {"protocol": "0"}}}}}"#
    )));
    assert!(!advertised_by_agent(&json(r#"{"agentCapabilities": {}}"#)));
}
