use dsh_tui::bus::{Cmd, CtlEvent, ImagePart, PromptBlock};
use dsh_tui::controller::{controller_step, ControllerAction, ControllerState};
use dsh_tui::controller::{
    demo_permission_events, demo_preset_event, describe_server, mode_failed_message, model_info_efforts, parse_catalog,
    parse_skills, permission_done_message, permission_failed_message, prompt_text, queued_message_id, stock_efforts,
    stock_presets, text_prompt_params,
};
use dsh_tui::json::{Json, JsonNumber};

fn conv(v: &serde_json::Value) -> Json {
    match v {
        serde_json::Value::Null => Json::Null,
        serde_json::Value::Bool(b) => Json::Bool(*b),
        serde_json::Value::Number(n) => Json::Number(JsonNumber { as_u64: n.as_u64(), as_i64: n.as_i64(), text: n.to_string() }),
        serde_json::Value::String(s) => Json::String(s.clone()),
        serde_json::Value::Array(a) => Json::Array(a.iter().map(conv).collect()),
        serde_json::Value::Object(o) => Json::Object(o.iter().map(|(k, v)| (k.clone(), conv(v))).collect()),
    }
}

fn json(text: &str) -> Json {
    conv(&serde_json::from_str(text).unwrap())
}

#[test]
fn parse_catalog_models_and_presets() {
    let value = json(
        r#"{
            "models": [
                {"provider": "deepseek-official", "id": "m1", "name": "M One", "vision": true},
                {"provider": "deepseek-official", "name": "no id → skipped"}
            ],
            "presets": [
                {"id": "standard", "name": "Standard mode", "description": "full agent"},
                {"id": "minimal"},
                {"id": "custom", "broken": true},
                {"name": "no id → skipped"}
            ]
        }"#,
    );
    let (models, presets) = parse_catalog(&value);
    assert_eq!(models.len(), 1);
    assert_eq!(models[0].id, "m1");
    assert!(models[0].vision);

    assert_eq!(presets.len(), 3);
    assert_eq!(presets[0].id, "standard");
    assert_eq!(presets[0].name, "Standard mode");
    assert_eq!(presets[0].description, "full agent");
    assert!(!presets[0].broken);
    // name falls back to the id; missing description is empty.
    assert_eq!(presets[1].name, "minimal");
    assert_eq!(presets[1].description, "");
    assert!(presets[2].broken);
}

#[test]
fn parse_catalog_without_presets_key() {
    let (models, presets) = parse_catalog(&json(r#"{"models": []}"#));
    assert!(models.is_empty());
    assert!(presets.is_empty());
}

#[test]
fn parse_skills_reads_names_and_skips_nameless() {
    let skills = parse_skills(&json(
        r#"{
            "skills": [
                {"name": "commit-helper", "description": "draft a commit"},
                {"name": "bare"},
                {"description": "no name → skipped"}
            ]
        }"#,
    ));
    assert_eq!(skills.len(), 2);
    assert_eq!(skills[0].name, "commit-helper");
    assert_eq!(skills[0].description, "draft a commit");
    assert_eq!(skills[1].name, "bare");
    assert_eq!(skills[1].description, "");
    assert!(parse_skills(&json("{}")).is_empty());
}

#[test]
fn stock_presets_cover_the_four_web_ui_modes() {
    let presets = stock_presets();
    let ids: Vec<&str> = presets.iter().map(|p| p.id.as_str()).collect();
    assert_eq!(ids, ["standard", "code", "minimal", "cordis"]);
    assert!(presets.iter().all(|p| !p.broken));
    assert_eq!(presets[3].name, "Creator mode");
}

#[test]
fn describe_server_reads_server_info_with_defaults() {
    assert_eq!(
        describe_server(&json(r#"{"serverInfo": {"name": "harness", "version": "1.2.0"}}"#)),
        "harness v1.2.0"
    );
    assert_eq!(describe_server(&json(r#"{"serverInfo": {"version": 3}}"#)), "deepseek-harness v?");
    assert_eq!(describe_server(&json("[]")), "deepseek-harness v?");
}

fn back(j: &Json) -> serde_json::Value {
    match j {
        Json::Null => serde_json::Value::Null,
        Json::Bool(b) => serde_json::Value::Bool(*b),
        Json::Number(n) => serde_json::from_str(&n.text).unwrap(),
        Json::String(s) => serde_json::Value::String(s.clone()),
        Json::Array(a) => serde_json::Value::Array(a.iter().map(back).collect()),
        Json::Object(es) => serde_json::Value::Object(es.iter().map(|(k, v)| (k.clone(), back(v))).collect()),
    }
}

#[test]
fn model_info_reads_efforts_and_default() {
    let (efforts, default) = model_info_efforts(&json(
        r#"{"reasoning": {"efforts": [{"id": "low"}, {"name": "x"}, {"id": "high"}], "defaultEffort": "high"}}"#,
    ));
    assert_eq!(efforts, vec!["low".to_string(), "high".to_string()]);
    assert_eq!(default.as_deref(), Some("high"));
    let (none, no_default) = model_info_efforts(&json(r#"{"reasoning": {"efforts": "nope"}}"#));
    assert!(none.is_empty());
    assert!(no_default.is_none());
    assert_eq!(stock_efforts(), vec!["off".to_string(), "high".to_string(), "max".to_string()]);
}

#[test]
fn demo_permission_switch_synthesizes_three_facts() {
    let events = demo_permission_events("s1", "danger-full-access");
    assert_eq!(events.len(), 3);
    assert_eq!(
        back(&events[0]),
        serde_json::from_str::<serde_json::Value>(
            r#"{"sessionId": "s1", "event": {"type": "permission/preset", "data": {"preset": "danger-full-access"}}}"#
        )
        .unwrap()
    );
    assert_eq!(back(&events[1])["event"]["data"]["mode"], "danger-full-access");
    assert_eq!(back(&events[2])["event"]["data"]["policy"], "never");
    assert_eq!(back(&demo_permission_events("s1", "read-only")[2])["event"]["data"]["policy"], "ask");
    let preset = back(&demo_preset_event("s1", "code"));
    assert_eq!(preset["event"]["type"], "agent-preset/selected");
    assert_eq!(preset["event"]["data"]["agentPreset"], "code");
}

#[test]
fn permission_and_mode_messages() {
    assert_eq!(
        permission_done_message("read-only", &json(r#"{"applied": "on-first-prompt"}"#)),
        "permission → read-only · staged, applies from the first prompt"
    );
    assert_eq!(permission_done_message("read-only", &json("{}")), "permission → read-only");
    assert_eq!(
        permission_failed_message("unknown preset: x"),
        "permission switch failed: unknown preset: x — /permission opens the preset picker"
    );
    assert_eq!(permission_failed_message("timeout"), "permission switch failed: timeout");
    assert_eq!(
        mode_failed_message("preset locked"),
        "mode switch failed: preset locked — /new starts a fresh session, then pick the mode"
    );
    assert_eq!(mode_failed_message("boom"), "mode switch failed: boom");
}

#[test]
fn prompt_params_and_text() {
    let blocks = vec![
        PromptBlock::Text("look ".into()),
        PromptBlock::Image(ImagePart { data: "x".into(), media_type: "image/png".into(), name: "a".into(), path: "clipboard".into() }),
        PromptBlock::Text("here".into()),
    ];
    assert_eq!(prompt_text(&blocks), "look here");
    assert_eq!(
        back(&text_prompt_params("s", "hi")),
        serde_json::from_str::<serde_json::Value>(r#"{"sessionId": "s", "contentBlocks": [{"type": "text", "text": "hi"}]}"#)
            .unwrap()
    );
    assert_eq!(queued_message_id(&json(r#"{"messageId": "m-1"}"#)), "m-1");
    assert_eq!(queued_message_id(&json("{}")), "");
}

fn state(demo: bool, attached: bool) -> ControllerState {
    ControllerState { model: "deepseek-v4".into(), provider: "deepseek-official".into(), demo, attached }
}

fn members_of(j: &Json) -> Vec<String> {
    match j {
        Json::Object(es) => es.iter().map(|(k, _)| k.clone()).collect(),
        _ => panic!("expected an object"),
    }
}

#[test]
fn prompts_follow_the_transport() {
    let p = || Cmd::Prompt { session_id: "s".into(), text: "hi".into() };
    assert!(matches!(controller_step(&mut state(true, false), p(), false, false), ControllerAction::DemoTurn { text, .. } if text == "hi"));
    assert!(matches!(controller_step(&mut state(false, true), p(), true, true), ControllerAction::PromptAttached { .. }));
    assert!(matches!(controller_step(&mut state(false, false), p(), true, true), ControllerAction::PromptLegacy { .. }));
    let imgs = || Cmd::PromptImages { session_id: "s".into(), blocks: vec![PromptBlock::Text("a".into()), PromptBlock::Text("b".into())] };
    assert!(matches!(controller_step(&mut state(true, false), imgs(), false, false), ControllerAction::DemoTurn { text, .. } if text == "ab"));
    assert!(matches!(controller_step(&mut state(false, false), imgs(), false, false),
        ControllerAction::Failed(f) if f == "image attachments are unavailable on the legacy demo transport"));
    assert!(matches!(controller_step(&mut state(false, false), Cmd::Interrupt { session_id: "s".into() }, true, true), ControllerAction::InterruptLegacy));
}

#[test]
fn a_model_pick_updates_the_state_and_switches_by_transport() {
    let pick = || Cmd::SelectModel { session_id: "s".into(), provider: Some("p".into()), model: Some("m2".into()), effort: Some("high".into()) };
    let mut demo = state(true, false);
    assert!(matches!(controller_step(&mut demo, pick(), false, false), ControllerAction::Done(d) if d == "model → m2 (demo)"));
    assert_eq!(demo.model, "m2");
    assert_eq!(demo.provider, "p");
    let mut live = state(false, true);
    match controller_step(&mut live, pick(), true, true) {
        ControllerAction::Request { method, params } => {
            assert_eq!(method, "tui/select-model");
            assert_eq!(members_of(&params), vec!["sessionId", "provider", "model", "reasoningEffort"]);
        }
        _ => panic!("expected a request"),
    }
    assert!(matches!(controller_step(&mut state(false, true), pick(), false, false), ControllerAction::Nothing));
    let mut legacy = state(false, false);
    let only_effort = Cmd::SelectModel { session_id: "s".into(), provider: None, model: None, effort: Some("max".into()) };
    assert!(matches!(controller_step(&mut legacy, only_effort, false, false),
        ControllerAction::RestartRuntime(d) if d == "model → deepseek-v4 (runtime restarts on next prompt)"));
}

#[test]
fn requests_go_to_a_running_attached_runtime() {
    assert!(matches!(controller_step(&mut state(false, true), Cmd::FetchCatalog, true, true), ControllerAction::Request { method: "tui/catalog", .. }));
    assert!(matches!(controller_step(&mut state(false, true), Cmd::FetchCatalog, true, false),
        ControllerAction::Failed(f) if f == "catalog is unavailable on the legacy demo transport"));
    match controller_step(&mut state(true, false), Cmd::FetchCatalog, false, false) {
        ControllerAction::Report(CtlEvent::Catalog { models, presets }) => {
            assert_eq!(models.len(), 2);
            assert_eq!(models[1].id, "deepseek-v4-pro");
            assert!(models[1].vision);
            assert_eq!(presets.len(), 4);
        }
        _ => panic!("expected the demo catalog"),
    }
    assert!(matches!(controller_step(&mut state(false, false), Cmd::FetchSkills, false, false),
        ControllerAction::Report(CtlEvent::Skills { skills }) if skills.is_empty()));
    match controller_step(&mut state(false, false), Cmd::FetchEfforts { provider: "p".into(), model: "m".into() }, false, false) {
        ControllerAction::Report(CtlEvent::Efforts { efforts, default }) => {
            assert_eq!(efforts, vec!["off", "high", "max"]);
            assert!(default.is_none());
        }
        _ => panic!("expected stock efforts"),
    }
    match controller_step(&mut state(true, false), Cmd::SetPermission { session_id: "s".into(), preset: "read-only".into() }, false, false) {
        ControllerAction::DemoEvents(es) => assert_eq!(es.len(), 3),
        _ => panic!("expected demo events"),
    }
    assert!(matches!(controller_step(&mut state(false, true), Cmd::SetPreset { session_id: "s".into(), preset: "code".into() }, true, true),
        ControllerAction::Request { method: "tui/preset", .. }));
    assert!(matches!(controller_step(&mut state(false, true), Cmd::NewSession, true, true),
        ControllerAction::Failed(f) if f == "session/new, session/list, and session/load need a live ACP connection"));
    assert!(matches!(controller_step(&mut state(false, true), Cmd::Shutdown, true, true), ControllerAction::Shutdown));
}
