use dsh_tui::acp_auth::{
    authenticate_meta_from_method, client_capability_meta, declared_auth_methods, is_auth_failure_message,
    is_auth_required_error, needs_auth_snapshot, parse_auth_methods, select_auth_method, snapshot_from_methods,
    unsupported_auth_method_types, values_from_auth_arg, AcpErrorInfo, AuthSnapshot, AuthStatus, NoticeLevel,
};
use dsh_tui::json::{Json, JsonNumber};
use dsh_tui::strmap::StringMap;

fn conv(v: &serde_json::Value) -> Json {
    match v {
        serde_json::Value::Null => Json::Null,
        serde_json::Value::Bool(b) => Json::Bool(*b),
        serde_json::Value::Number(n) => Json::Number(JsonNumber { as_u64: n.as_u64(), as_i64: n.as_i64(), text: n.to_string() }),
        serde_json::Value::String(s) => Json::String(s.clone()),
        serde_json::Value::Array(a) => Json::Array(a.iter().map(conv).collect()),
        serde_json::Value::Object(o) => Json::Object(o.iter().map(|(k, v)| (k.clone(), conv(v))).collect()),
    }
}

fn back(v: &Json) -> serde_json::Value {
    match v {
        Json::Null => serde_json::Value::Null,
        Json::Bool(b) => serde_json::Value::Bool(*b),
        Json::Number(n) => serde_json::from_str(&n.text).unwrap(),
        Json::String(s) => serde_json::Value::String(s.clone()),
        Json::Array(a) => serde_json::Value::Array(a.iter().map(back).collect()),
        Json::Object(o) => serde_json::Value::Object(o.iter().map(|(k, v)| (k.clone(), back(v))).collect()),
    }
}

fn json(text: &str) -> Json {
    conv(&serde_json::from_str(text).unwrap())
}

fn value(text: &str) -> serde_json::Value {
    serde_json::from_str(text).unwrap()
}

fn meta_value(meta: Vec<(String, Json)>) -> serde_json::Value {
    back(&Json::Object(meta))
}

fn dsh_acp_methods() -> Json {
    json(r#"[{
        "id": "terminal-login",
        "name": "Log in with a DeepSeek API key",
        "description": "Interactive terminal setup — saves the key to the harness credential store shared with the dsh Web UI",
        "_meta": { "terminal-auth": { "args": ["login"], "env": {} } }
    }]"#)
}

#[test]
fn dsh_acp_terminal_login_is_agent_with_terminal_launch() {
    let methods = parse_auth_methods(&dsh_acp_methods(), &["dsh-acp".into()], "/tmp/ws", &StringMap::new());
    assert_eq!(methods.len(), 1);
    assert_eq!(methods[0].id, "terminal-login");
    assert_eq!(methods[0].auth_type, "agent");
    assert!(!methods[0].form);
    let launch = methods[0].terminal_launch.as_ref().expect("terminal-auth");
    assert_eq!(launch.command, "dsh-acp");
    assert_eq!(launch.args, ["login"]);
    assert_eq!(launch.method_id, "terminal-login");
}

#[test]
fn terminal_auth_without_command_keeps_agent_args() {
    let methods = parse_auth_methods(
        &dsh_acp_methods(),
        &["dsh".into(), "--profile".into(), "acp".into()],
        "/tmp/ws",
        &StringMap::new(),
    );
    let launch = methods[0].terminal_launch.as_ref().unwrap();
    assert_eq!(launch.command, "dsh");
    assert_eq!(launch.args, ["--profile", "acp", "login"]);
}

#[test]
fn api_key_form_encodes_authenticate_meta() {
    let methods = parse_auth_methods(
        &json(r#"[{ "id": "api-key", "name": "API Key", "_meta": { "api-key": { "provider": "openai" } } }]"#),
        &["fake-agent".into()],
        "/tmp",
        &StringMap::new(),
    );
    assert!(methods[0].form);
    let mut values = StringMap::new();
    values.insert("api-key".into(), "sk-test".into());
    assert_eq!(
        meta_value(authenticate_meta_from_method(&methods[0], &values).unwrap()),
        value(r#"{ "api-key": { "apiKey": "sk-test" } }"#)
    );
}

#[test]
fn gateway_form_encodes_authenticate_meta() {
    let methods = parse_auth_methods(
        &json(r#"[{ "id": "gateway", "name": "Custom model gateway", "_meta": { "gateway": { "protocol": "openai" } } }]"#),
        &["fake-agent".into()],
        "/tmp",
        &StringMap::new(),
    );
    let values = values_from_auth_arg(&methods[0], "https://gw.example sk-test");
    assert_eq!(
        meta_value(authenticate_meta_from_method(&methods[0], &values).unwrap()),
        value(r#"{ "gateway": { "baseUrl": "https://gw.example", "headers": { "Authorization": "Bearer sk-test" } } }"#)
    );
}

#[test]
fn env_var_missing_is_needs_auth_without_authenticate() {
    let raw = json(r#"[{
        "id": "openai-key",
        "name": "OpenAI API key",
        "description": "Set the OPENAI_API_KEY environment variable.",
        "type": "env_var",
        "vars": [{ "name": "OPENAI_API_KEY", "label": "API key", "secret": true }]
    }]"#);
    let methods = parse_auth_methods(&raw, &["fake-agent".into()], "/tmp", &StringMap::new());
    let snap = snapshot_from_methods(methods, &declared_auth_methods(&raw), &StringMap::new());
    assert_eq!(snap.status, AuthStatus::NeedsAuth);
    assert_eq!(snap.message.as_deref(), Some("missing credential variable: OPENAI_API_KEY."));
}

#[test]
fn unsupported_type_is_unknown() {
    let raw = json(r#"[{ "id": "magic-card", "name": "Magic Card", "type": "card" }]"#);
    let methods = parse_auth_methods(&raw, &["fake-agent".into()], "/tmp", &StringMap::new());
    let snap = snapshot_from_methods(methods, &declared_auth_methods(&raw), &StringMap::new());
    assert_eq!(snap.status, AuthStatus::Unknown);
    assert!(snap.message.as_deref().unwrap().contains("unsupported methods: card"));
}

#[test]
fn empty_auth_methods_are_none() {
    let snap = snapshot_from_methods(vec![], &[], &StringMap::new());
    assert_eq!(snap.status, AuthStatus::NotRequired);
}

#[test]
fn auth_required_error_matches_code() {
    let err = AcpErrorInfo { code: -32000, auth_required_code: true, message: "Authentication required".into(), data: None };
    assert!(is_auth_required_error(&err));
    assert!(is_auth_failure_message("Authentication required"));
}

#[test]
fn needs_auth_notice_points_at_auth() {
    let methods = parse_auth_methods(&dsh_acp_methods(), &["dsh-acp".into()], "/tmp", &StringMap::new());
    let snap = needs_auth_snapshot(methods.clone(), methods.first(), None);
    let (_, text) = snap.notice().expect("notice");
    assert!(text.contains("/auth"));
    assert!(!text.contains("/login"), "/login is the agent's slash, not a TUI command: {text}");
    assert!(text.contains("Log in with a DeepSeek API key"));
}

#[test]
fn env_var_type_in_meta_and_inferred_vars() {
    let raw = json(r#"[{
        "id": "term",
        "type": "terminal",
        "description": "Export MY_API_KEY and OTHER_URL as environment variables; MY_API_KEY again.",
        "_meta": { "command": "login-tool", "args": ["x"], "env": { "A": "1" } },
        "env": { "A": "0", "B": "2" }
    }]"#);
    let methods = parse_auth_methods(&raw, &[], "/w", &StringMap::new());
    assert_eq!(methods.len(), 1);
    let m = &methods[0];
    assert_eq!(m.auth_type, "env_var");
    let names: Vec<&str> = m.vars.iter().map(|v| v.name.as_str()).collect();
    assert_eq!(names, ["MY_API_KEY", "OTHER_URL"]);
    assert_eq!(m.vars[0].secret, Some(true));
    assert_eq!(m.vars[1].secret, Some(false));
    assert!(m.terminal_launch.is_none());
    let mut env = StringMap::new();
    env.insert("MY_API_KEY".into(), "k".into());
    assert_eq!(m.missing_env(&env), ["OTHER_URL"]);
}

#[test]
fn terminal_type_uses_meta_command_and_merges_env() {
    let raw = json(r#"[{
        "id": "t",
        "name": "Sign in",
        "type": "terminal",
        "_meta": { "command": "login-tool", "args": ["x"], "env": { "A": "1" } },
        "env": { "A": "0", "B": "2" },
        "link": "https://example.com"
    }]"#);
    let mut env = StringMap::new();
    env.insert("HOME".into(), "/h".into());
    let methods = parse_auth_methods(&raw, &["agent".into()], "/w", &env);
    let launch = methods[0].terminal_launch.as_ref().unwrap();
    assert_eq!(launch.label, "Sign in");
    assert_eq!(launch.command, "login-tool");
    assert_eq!(launch.args, ["x"]);
    assert_eq!(launch.env.get("A").map(String::as_str), Some("1"));
    assert_eq!(launch.env.get("B").map(String::as_str), Some("2"));
    assert_eq!(launch.env.get("HOME").map(String::as_str), Some("/h"));
    assert_eq!(launch.cwd.as_deref(), Some("/w"));
    assert_eq!(methods[0].link.as_deref(), Some("https://example.com"));
}

#[test]
fn unsupported_types_are_listed_once_and_methods_without_id_are_ignored() {
    let raw = json(r#"[{ "id": "a", "type": "card" }, { "id": "", "type": "x" }, { "id": "b", "type": "card" }, { "id": "c", "_meta": { "type": "sso" } }, { "id": "d" }]"#);
    assert_eq!(unsupported_auth_method_types(&raw), ["card", "sso"]);
    assert_eq!(declared_auth_methods(&raw).len(), 4);
    let methods = parse_auth_methods(&raw, &[], "/", &StringMap::new());
    assert_eq!(methods.len(), 1);
    let snap = snapshot_from_methods(vec![], &declared_auth_methods(&raw), &StringMap::new());
    assert_eq!(
        snap.message.as_deref(),
        Some("no supported ACP auth method is available. unsupported methods: card, sso.")
    );
}

#[test]
fn select_and_snapshot_states() {
    let raw = json(r#"[{ "id": "one", "name": "One" }, { "id": "two" }]"#);
    let methods = parse_auth_methods(&raw, &[], "/", &StringMap::new());
    assert_eq!(select_auth_method(&methods, Some("two")).unwrap().id, "two");
    assert_eq!(select_auth_method(&methods, Some("")).unwrap().id, "one");
    assert_eq!(select_auth_method(&methods, None).unwrap().id, "one");
    assert!(select_auth_method(&methods, Some("three")).is_none());
    let snap = snapshot_from_methods(methods, &declared_auth_methods(&raw), &StringMap::new());
    assert_eq!(snap.status, AuthStatus::Configured);
    assert_eq!(snap.method_id.as_deref(), Some("one"));
    assert_eq!(snap.method_name.as_deref(), Some("One"));
    assert!(snap.notice().is_none());
    let unknown = AuthSnapshot { status: AuthStatus::Unknown, ..AuthSnapshot::none() };
    assert_eq!(
        unknown.notice(),
        Some((NoticeLevel::Warn, "no supported ACP auth method is available".to_string()))
    );
}

#[test]
fn auth_arg_values_for_gateway_and_key_forms() {
    let raw = json(r#"[{ "id": "g", "_meta": { "gateway": {} } }, { "id": "k", "_meta": { "api-key": {} } }]"#);
    let methods = parse_auth_methods(&raw, &[], "/", &StringMap::new());
    let v = values_from_auth_arg(&methods[0], "  https://x  ");
    assert_eq!(v.get("baseUrl").map(String::as_str), Some("https://x"));
    assert!(v.get("api-key").is_none());
    assert!(authenticate_meta_from_method(&methods[0], &v).is_some());
    let v = values_from_auth_arg(&methods[1], " sk 1 ");
    assert_eq!(v.get("api-key").map(String::as_str), Some("sk 1"));
    assert!(values_from_auth_arg(&methods[1], "   ").get("api-key").is_none());
    assert!(authenticate_meta_from_method(&methods[1], &StringMap::new()).is_none());
    assert_eq!(
        meta_value(authenticate_meta_from_method(&methods[0], &v).unwrap_or_default()),
        value("{}")
    );
}

#[test]
fn failure_messages_and_error_data() {
    assert!(is_auth_failure_message("Invalid API Key supplied"));
    assert!(is_auth_failure_message("the api key is INVALID"));
    assert!(!is_auth_failure_message("rate limited"));
    let err = AcpErrorInfo {
        code: -32603,
        auth_required_code: false,
        message: "internal".into(),
        data: Some(json(r#"{ "details": "Authentication fails: bad token" }"#)),
    };
    assert!(is_auth_required_error(&err));
    let plain = AcpErrorInfo { code: -32603, auth_required_code: false, message: "boom".into(), data: None };
    assert!(!is_auth_required_error(&plain));
}

#[test]
fn capability_meta_shape() {
    assert_eq!(
        meta_value(client_capability_meta("tui")),
        value(r#"{ "terminal-auth": true, "terminal_output": true, "subagent-transcript": true, "dsh": { "cordis": { "protocol": 0 }, "interaction": { "mode": "tui" } } }"#)
    );
}
