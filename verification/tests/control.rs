use dsh_tui::acp_auth::AcpErrorInfo;
use dsh_tui::bus::Cmd;
use dsh_tui::control::{control_outcome, plan_authenticate, plugin_call, AuthPlan, ControlError, ControlOutcome};
use dsh_tui::acp_auth::{AuthMethodInfo, AuthVar};
use dsh_tui::strmap::StringMap;
use dsh_tui::json::{Json, JsonNumber};

fn err(code: i32, message: &str) -> ControlError {
    ControlError {
        info: AcpErrorInfo { code, auth_required_code: false, message: message.into(), data: None },
        text: format!("{message} (code {code})"),
    }
}

fn members(j: &Json) -> Vec<String> {
    match j {
        Json::Object(es) => es.iter().map(|(k, _)| k.clone()).collect(),
        _ => panic!("expected an object"),
    }
}

#[test]
fn plugin_commands_become_extension_calls() {
    let c = plugin_call(Cmd::InvokePluginCommand { name: "hue".into(), args: "red".into() }).unwrap();
    assert_eq!(c.method, "_dsh/cordis/tui/commands/invoke");
    assert!(!c.notify);
    assert_eq!(members(&c.params), vec!["protocol", "name", "args"]);
    let change = plugin_call(Cmd::PluginOverlayEvent { id: "o".into(), event: "change".into(), value: Some(Json::Bool(true)) }).unwrap();
    assert!(change.notify);
    assert_eq!(members(&change.params), vec!["protocol", "id", "event", "value"]);
    let submit = plugin_call(Cmd::PluginOverlayEvent { id: "o".into(), event: "submit".into(), value: None }).unwrap();
    assert!(!submit.notify);
    assert_eq!(members(&submit.params), vec!["protocol", "id", "event"]);
    match &submit.params {
        Json::Object(es) => assert!(matches!(&es[0].1, Json::Number(JsonNumber { .. }))),
        _ => unreachable!(),
    }
    assert!(plugin_call(Cmd::FetchCatalog).is_none());
}

#[test]
fn replies_become_tips_or_the_sign_in_prompt() {
    let invoke = Cmd::InvokePluginCommand { name: "hue".into(), args: String::new() };
    assert!(matches!(control_outcome(&invoke, Ok(Json::Null)), ControlOutcome::Quiet));
    match control_outcome(&invoke, Err(err(-1, "boom"))) {
        ControlOutcome::Failed(m) => assert_eq!(m, "plugin command failed: boom (code -1)"),
        _ => panic!("expected a failure"),
    }
    let perm = Cmd::SetPermission { session_id: "s".into(), preset: "read-only".into() };
    assert!(matches!(control_outcome(&perm, Ok(Json::Null)), ControlOutcome::Done(m) if m == "permission → read-only"));
    match control_outcome(&perm, Err(err(-32601, "no modes"))) {
        ControlOutcome::PermissionFallback { preset, note } => {
            assert_eq!(preset, "read-only");
            assert_eq!(note, "permission → read-only (no modes (code -32601))");
        }
        _ => panic!("expected a fallback"),
    }
    assert!(matches!(control_outcome(&perm, Err(err(-32000, "Authentication required"))), ControlOutcome::NeedsAuth(m) if m == "Authentication required"));
    let preset = Cmd::SetPreset { session_id: "s".into(), preset: "code".into() };
    assert!(matches!(control_outcome(&preset, Ok(Json::Null)), ControlOutcome::PresetSet(p) if p == "code"));
    assert!(matches!(control_outcome(&preset, Err(err(-1, "x"))), ControlOutcome::Failed(m) if m == "composition switch failed: x (code -1)"));
    let cfg = Cmd::SetConfigOption { config_id: "mode".into(), value: "plan".into() };
    assert!(matches!(control_outcome(&cfg, Err(err(-1, "y"))), ControlOutcome::Failed(m) if m == "config option switch failed: y (code -1)"));
    assert!(matches!(control_outcome(&Cmd::Shutdown, Err(err(-1, "z"))), ControlOutcome::Quiet));
}

fn method(id: &str, kind: &str, vars: &[&str]) -> AuthMethodInfo {
    AuthMethodInfo {
        id: id.into(),
        name: None,
        description: None,
        auth_type: kind.into(),
        form: false,
        vars: vars.iter().map(|v| AuthVar { name: v.to_string(), label: None, secret: None, optional: None }).collect(),
        link: None,
        terminal_launch: None,
    }
}

#[test]
fn authenticate_picks_the_named_method_or_the_first() {
    let values = StringMap::new();
    assert!(matches!(plan_authenticate(&Vec::new(), "", &values), AuthPlan::Fail(m) if m == "no supported ACP auth method is available"));
    assert!(matches!(plan_authenticate(&Vec::new(), "x", &values),
        AuthPlan::Fail(m) if m == "ACP auth method is unavailable or not supported: x"));
    let methods = vec![method("login", "agent", &[]), method("key", "env_var", &["OPENAI_API_KEY", "OPENAI_BASE_URL"])];
    assert!(matches!(plan_authenticate(&methods, "", &values), AuthPlan::Send { index: 0, meta: None }));
    assert!(matches!(plan_authenticate(&methods, "nope", &values), AuthPlan::Send { index: 0, .. }));
    match plan_authenticate(&methods, "key", &values) {
        AuthPlan::Fail(m) => assert_eq!(
            m,
            "ACP auth method key requires credential variables (OPENAI_API_KEY, OPENAI_BASE_URL) and cannot be started as a sign-in flow."
        ),
        _ => panic!("expected a failure"),
    }
    let bare = vec![method("env", "env_var", &[])];
    assert!(matches!(plan_authenticate(&bare, "env", &values),
        AuthPlan::Fail(m) if m == "ACP auth method env requires credential variables and cannot be started as a sign-in flow."));
    let mut form = method("api-key", "agent", &["api-key"]);
    form.form = true;
    assert!(matches!(plan_authenticate(&vec![form], "api-key", &values),
        AuthPlan::Fail(m) if m == "sign-in needs values — /auth <api-key> (gateway: /auth <base-url> <api-key>)"));
}
