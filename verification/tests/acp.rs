use dsh_tui::acp::{
    dynamic_plugins_from_value, is_clipboard_path, list_session_supported, load_session_supported,
    prompt_image_supported, resume_session_supported, static_plugins_from_value, unix_file_uri, Surface,
    parked_prompt, retarget_session, ParkedPrompt, ParkedPromptKind, PromptQueues,
};
use dsh_tui::acp::{plan_prompt, PromptRoute, PromptReply, PromptStart, StopKind, TurnUsage};
use dsh_tui::acp_auth::AcpErrorInfo;
use dsh_tui::control::ControlError;
use dsh_tui::events::UiEvent;
use dsh_tui::acp::{abs_fs_path, join_path, needs_spill, normalize_abs, prompt_content_blocks, resolve_image_uri, PromptContent};
use dsh_tui::bus::{Cmd, ImagePart, PromptBlock};
use dsh_tui::json::{Json, JsonNumber};

fn conv(v: &serde_json::Value) -> Json {
    match v {
        serde_json::Value::Null => Json::Null,
        serde_json::Value::Bool(b) => Json::Bool(*b),
        serde_json::Value::Number(n) => Json::Number(JsonNumber { as_u64: n.as_u64(), as_i64: n.as_i64(), text: n.to_string() }),
        serde_json::Value::String(s) => Json::String(s.clone()),
        serde_json::Value::Array(a) => Json::Array(a.iter().map(conv).collect()),
        serde_json::Value::Object(o) => Json::Object(o.iter().map(|(k, v)| (k.clone(), conv(v))).collect()),
    }
}

fn json(text: &str) -> Json {
    conv(&serde_json::from_str(text).unwrap())
}

#[test]
fn capabilities_accept_both_spellings() {
    let init = json(
        r#"{"agent_capabilities": {"load_session": true,
            "sessionCapabilities": {"resume": {}, "list": false},
            "prompt": {"image": true}}}"#,
    );
    assert!(load_session_supported(&init));
    assert!(resume_session_supported(&init));
    assert!(!list_session_supported(&init));
    assert!(prompt_image_supported(&init));
    let bare = json(r#"{"agentCapabilities": {"loadSession": "yes", "promptCapabilities": {"image": false}}}"#);
    assert!(!load_session_supported(&bare));
    assert!(!resume_session_supported(&bare));
    assert!(!prompt_image_supported(&bare));
}

#[test]
fn clipboard_paths_have_no_file() {
    assert!(is_clipboard_path(""));
    assert!(is_clipboard_path("clipboard"));
    assert!(!is_clipboard_path("/tmp/a.png"));
}

#[test]
fn file_uris_percent_encode_reserved_and_non_ascii_bytes() {
    assert_eq!(unix_file_uri("/tmp/a b#c?.png"), "file:///tmp/a%20b%23c%3F.png");
    assert_eq!(unix_file_uri("/home/u/图.png"), "file:///home/u/%E5%9B%BE.png");
    assert_eq!(unix_file_uri("/x/a-b_c~d!$&'()*+,;=@:.png"), "file:///x/a-b_c~d!$&'()*+,;=@:.png");
    assert_eq!(unix_file_uri("/100%"), "file:///100%25");
}

#[test]
fn dynamic_plugins_read_packages_runs_and_approvals() {
    let rows = dynamic_plugins_from_value(&json(
        r#"[
            {"pluginId": "p1", "packages": [{"packageId": "k1", "name": "First"}, {"packageId": "k2", "name": "Second"}],
             "currentPackageId": "k2", "latestRun": {"status": "waiting", "requiresApproval": true, "approvalRequestId": "ap-1"}},
            {"pluginId": "p2", "packages": [{"packageId": "k9"}], "activeRun": {"packageId": "k9"}},
            {"pluginId": "p3", "packages": [{"packageId": "k3", "name": "Third"}]}
        ]"#,
    ))
    .unwrap();
    assert_eq!(rows.len(), 3);
    assert_eq!((rows[0].name.as_str(), rows[0].package_id.as_str(), rows[0].status.as_str()), ("Second", "k2", "waiting"));
    assert_eq!(rows[0].approval_request_id.as_deref(), Some("ap-1"));
    assert_eq!((rows[1].name.as_str(), rows[1].status.as_str()), ("p2", "running"));
    assert_eq!((rows[2].name.as_str(), rows[2].package_id.as_str(), rows[2].status.as_str()), ("Third", "k3", "stopped"));
    assert_eq!(rows[2].approval_request_id, None);
}

#[test]
fn dynamic_plugin_errors_name_the_row() {
    assert_eq!(
        dynamic_plugins_from_value(&json("{}")).unwrap_err(),
        "Cordis plugins/list returned a non-array result"
    );
    assert_eq!(
        dynamic_plugins_from_value(&json(r#"[{"pluginId": "a", "packages": [{"packageId": "k"}]}, {"packages": []}]"#))
            .unwrap_err(),
        "plugins[1].pluginId is missing"
    );
    assert_eq!(
        dynamic_plugins_from_value(&json(r#"[{"pluginId": "a"}]"#)).unwrap_err(),
        "plugins[0].packages is missing"
    );
    assert_eq!(
        dynamic_plugins_from_value(&json(r#"[{"pluginId": "a", "packages": []}]"#)).unwrap_err(),
        "plugins[0] has no package"
    );
}

#[test]
fn static_plugins_read_entries_and_name_missing_members() {
    let rows = static_plugins_from_value(&json(
        r#"{"entries": [{"entryId": "e1", "moduleName": "m", "enabled": true, "fiberPhase": "ready"},
                        {"entryId": "e2", "moduleName": "n", "enabled": false}]}"#,
    ))
    .unwrap();
    assert_eq!(rows.len(), 2);
    assert!(rows[0].enabled && !rows[1].enabled);
    assert_eq!(rows[0].fiber_phase.as_deref(), Some("ready"));
    assert_eq!(rows[1].fiber_phase, None);
    assert_eq!(static_plugins_from_value(&json("[]")).unwrap_err(), "plugins/list returned no entries array");
    assert_eq!(
        static_plugins_from_value(&json(r#"{"entries": [{"entryId": "e1", "moduleName": "m"}]}"#)).unwrap_err(),
        "entries[0].enabled is missing"
    );
}

fn preset_ids(ps: &[dsh_tui::bus::CatalogPreset]) -> Vec<String> {
    ps.iter().map(|p| p.id.clone()).collect()
}

#[test]
fn config_options_fill_the_session_surface() {
    let mut surface = Surface::new();
    let options = json(
        r#"[
            {"id": "model", "type": "select", "currentValue": "ds/v3",
             "options": [{"value": "ds/v3", "name": "V3"}, {"value": "ds/r1", "name": "R1"}]},
            {"id": "effort", "options": [{"value": "off", "name": "Off"}, {"value": "max", "name": "Max"}]},
            {"id": "mode", "currentValue": "plan",
             "options": [{"value": "code", "name": "Code"}, {"value": "plan", "name": "Plan"}]}
        ]"#,
    );
    let update = surface.apply_config_options(&options, Some("s1"));
    let (modes, current) = update.session_modes.expect("modes announced");
    assert_eq!(preset_ids(&modes), vec!["code".to_string(), "plan".to_string()]);
    assert_eq!(current.as_deref(), Some("plan"));
    let s1 = surface.session("s1");
    assert_eq!(s1.efforts, vec!["off".to_string(), "max".to_string()]);
    assert_eq!(preset_ids(&s1.modes), vec!["code".to_string(), "plan".to_string()]);
    assert_eq!(s1.models.len(), update.models.len());
    // Other sessions still read the (blank) fallback surface.
    assert!(surface.session("s2").modes.is_empty());
    assert!(surface.session("s2").efforts.is_empty());
}

#[test]
fn empty_mode_select_keeps_known_modes() {
    let mut surface = Surface::new();
    let first = json(r#"[{"id": "mode", "options": [{"value": "code", "name": "Code"}]}]"#);
    surface.apply_config_options(&first, None);
    let second = json(r#"[{"id": "mode", "currentValue": "code", "options": []}]"#);
    let update = surface.apply_config_options(&second, None);
    assert_eq!(preset_ids(&surface.session("any").modes), vec!["code".to_string()]);
    let (modes, current) = update.session_modes.expect("known modes announced");
    assert_eq!(preset_ids(&modes), vec!["code".to_string()]);
    assert_eq!(current.as_deref(), Some("code"));
}

#[test]
fn no_mode_select_announces_no_modes() {
    let mut surface = Surface::new();
    let update = surface.apply_config_options(&json(r#"[{"id": "effort", "options": []}]"#), Some("s"));
    assert!(update.session_modes.is_none());
    assert!(surface.session("s").efforts.is_empty());
    let not_an_array = surface.apply_config_options(&json(r#"{"id": "mode"}"#), Some("s"));
    assert!(not_an_array.session_modes.is_none());
}

#[test]
fn session_modes_value_updates_and_announces() {
    let mut surface = Surface::new();
    let modes = json(
        r#"{"currentModeId": "ask", "availableModes": [{"id": "ask", "name": "Ask"}, {"id": "code", "name": "Code"}]}"#,
    );
    let (list, current) = surface.apply_session_modes(&modes, Some("s1")).expect("announced");
    assert_eq!(preset_ids(&list), vec!["ask".to_string(), "code".to_string()]);
    assert_eq!(current.as_deref(), Some("ask"));
    assert_eq!(preset_ids(&surface.session("s1").modes), vec!["ask".to_string(), "code".to_string()]);
    assert!(surface.apply_session_modes(&json(r#"{}"#), Some("s1")).is_none());
    assert_eq!(surface.session("s1").modes.len(), 2);
}

#[test]
fn session_mut_creates_a_blank_surface_once() {
    let mut surface = Surface::new();
    surface.session_mut(Some("a")).efforts.push("high".to_string());
    surface.session_mut(Some("a")).efforts.push("max".to_string());
    assert_eq!(surface.session("a").efforts, vec!["high".to_string(), "max".to_string()]);
    assert!(surface.session("b").efforts.is_empty());
    surface.session_mut(None).efforts.push("off".to_string());
    assert_eq!(surface.session("b").efforts, vec!["off".to_string()]);
}

#[test]
fn setup_response_resets_modes_then_folds_options_and_modes() {
    let mut surface = Surface::new();
    surface.apply_session_modes(&json(r#"{"availableModes": [{"id": "old"}]}"#), Some("s1"));
    let setup = json(
        r#"{"sessionId": "s1",
            "configOptions": [{"id": "mode", "currentValue": "code", "options": [{"value": "code", "name": "Code"}]},
                              {"id": "collaboration_mode", "currentValue": "plan",
                               "options": [{"value": "plan"}, {"value": "default"}]}],
            "modes": {"currentModeId": "code"}}"#,
    );
    let update = surface.apply_setup(&setup, None);
    let config = update.config.expect("options folded");
    assert!(config.session_modes.is_some());
    assert_eq!(preset_ids(&surface.session("s1").modes), vec!["code".to_string()]);
    let (list, current) = update.modes.expect("modes member").expect("current mode announced");
    assert!(list.is_empty());
    assert_eq!(current.as_deref(), Some("code"));
    assert!(!update.ui_events.is_empty());
}

#[test]
fn setup_without_a_session_uses_the_hint_or_the_fallback() {
    let mut surface = Surface::new();
    surface.apply_session_modes(&json(r#"{"availableModes": [{"id": "m"}]}"#), None);
    let update = surface.apply_setup(&json(r#"{"modes": {}}"#), None);
    assert!(update.config.is_none());
    assert_eq!(update.modes.map(|m| m.is_none()), Some(true));
    assert!(update.ui_events.is_empty());
    assert!(surface.session("any").modes.is_empty());
    let hinted = surface.apply_setup(&json(r#"{"config_options": []}"#), Some("h"));
    assert!(hinted.config.is_some());
    assert!(hinted.modes.is_none());
}

#[test]
fn config_response_folds_options_for_the_session() {
    let mut surface = Surface::new();
    let response = json(r#"{"configOptions": [{"id": "effort", "options": [{"value": "max"}]}]}"#);
    let (options, update, events) = surface.apply_config_response(&response, "s9").expect("options");
    assert!(options.as_array().is_some());
    assert!(update.session_modes.is_none());
    assert!(events.is_empty());
    assert_eq!(surface.session("s9").efforts, vec!["max".to_string()]);
    assert!(surface.apply_config_response(&json(r#"{"other": 1}"#), "s9").is_none());
}

fn prompt(session: &str, text: &str) -> Cmd {
    Cmd::Prompt { session_id: session.into(), text: text.into() }
}

fn queue_texts(q: &PromptQueues, id: &str) -> Vec<String> {
    let (_, h) = q.sessions.iter().find(|(k, _)| k == id).expect("session bound");
    h.queue
        .iter()
        .map(|c| match c {
            Cmd::Prompt { text, .. } => text.clone(),
            Cmd::PromptImages { .. } => "<images>".to_string(),
            _ => "<other>".to_string(),
        })
        .collect()
}

#[test]
fn commands_resolve_to_bound_sessions() {
    let mut q = PromptQueues::new();
    assert_eq!(q.resolve_cmd_session("", "prompt"), Ok(None));
    assert_eq!(q.resolve_cmd_session("local-1", "prompt"), Ok(None));
    q.bind_session("s1".into());
    assert_eq!(q.resolve_cmd_session("", "prompt"), Ok(Some("s1".to_string())));
    assert_eq!(q.resolve_cmd_session("s1", "prompt"), Ok(Some("s1".to_string())));
    assert_eq!(q.resolve_cmd_session("s9", "steer"), Err("steer: unknown session s9".to_string()));
}

#[test]
fn binding_adopts_prompts_sent_before_the_session() {
    let mut q = PromptQueues::new();
    q.pending.push_back(prompt("", "early"));
    q.bind_session("s1".into());
    assert!(q.pending.is_empty());
    assert_eq!(queue_texts(&q, "s1"), vec!["early"]);
    assert_eq!(q.current.as_deref(), Some("s1"));
    q.pending.push_back(prompt("", "later"));
    q.bind_session("s1".into());
    assert_eq!(queue_texts(&q, "s1"), vec!["early", "later"]);
    assert_eq!(q.sessions.len(), 1);
}

#[test]
fn retarget_and_park_prompt_like_commands() {
    let mut cmd = prompt("placeholder", "hi");
    retarget_session(&mut cmd, "s2");
    assert!(matches!(&cmd, Cmd::Prompt { session_id, text } if session_id == "s2" && text == "hi"));
    let mut other = Cmd::FetchCatalog;
    retarget_session(&mut other, "s2");
    assert!(matches!(other, Cmd::FetchCatalog));
    assert!(matches!(parked_prompt(&cmd), Some(ParkedPromptKind::Text(t)) if t == "hi"));
    let images = Cmd::SteerImages { session_id: "s".into(), message_id: 3, blocks: vec![PromptBlock::Text("x".into())] };
    assert!(matches!(parked_prompt(&images), Some(ParkedPromptKind::Images(b)) if b.len() == 1));
    assert!(parked_prompt(&Cmd::Shutdown).is_none());
}

#[test]
fn parked_prompts_return_to_their_sessions_or_wait() {
    let mut q = PromptQueues::new();
    q.parked.push_back(ParkedPrompt { session: None, kind: ParkedPromptKind::Text("pre".into()) });
    assert_eq!(q.requeue_parked_prompts(), 0);
    assert_eq!(q.parked.len(), 1);
    q.bind_session("s1".into());
    q.sessions[0].1.queue.push_back(prompt("s1", "queued"));
    q.parked.push_back(ParkedPrompt { session: Some("s1".into()), kind: ParkedPromptKind::Text("stalled".into()) });
    q.parked.push_back(ParkedPrompt { session: Some("gone".into()), kind: ParkedPromptKind::Text("closed".into()) });
    assert_eq!(q.requeue_parked_prompts(), 2);
    assert!(q.parked.is_empty());
    assert_eq!(queue_texts(&q, "s1"), vec!["stalled", "pre", "queued"]);
    assert!(q.sessions.iter().all(|(k, _)| k != "gone"));
}

#[test]
fn ready_sessions_start_one_prompt_each() {
    let mut q = PromptQueues::new();
    q.bind_session("a".into());
    q.bind_session("b".into());
    q.bind_session("c".into());
    for (i, id) in ["a", "b", "c"].iter().enumerate() {
        q.sessions[i].1.queue.push_back(prompt(id, "one"));
        q.sessions[i].1.queue.push_back(prompt(id, "two"));
    }
    q.set_inflight("b", Some(7));
    let started = q.take_ready_prompts(&vec!["c".to_string()]);
    let ids: Vec<&str> = started.iter().map(|(id, _)| id.as_str()).collect();
    assert_eq!(ids, vec!["a"]);
    assert_eq!(queue_texts(&q, "a"), vec!["two"]);
    assert_eq!(queue_texts(&q, "b"), vec!["one", "two"]);
    q.parked.push_back(ParkedPrompt { session: None, kind: ParkedPromptKind::Text("stall".into()) });
    assert!(q.take_ready_prompts(&Vec::new()).is_empty());
    assert_eq!(queue_texts(&q, "c"), vec!["one", "two"]);
}

#[test]
fn paths_resolve_dot_components() {
    assert_eq!(normalize_abs("/a/./b/../c"), "/a/c");
    assert_eq!(normalize_abs("/.."), "/");
    assert_eq!(normalize_abs("/a//b/"), "/a/b");
    assert_eq!(normalize_abs("a/../../b"), "b");
    assert_eq!(normalize_abs(""), "");
    assert_eq!(join_path("/ws", "img.png"), "/ws/img.png");
    assert_eq!(join_path("/ws/", "x"), "/ws/x");
    assert_eq!(join_path("", "x"), "x");
    assert_eq!(join_path("/ws", "/abs/y"), "/abs/y");
}

#[test]
fn staged_image_paths_become_absolute() {
    assert_eq!(abs_fs_path("clipboard", "/ws", Some("/home/u")), None);
    assert_eq!(abs_fs_path("", "/ws", Some("/home/u")), None);
    assert_eq!(abs_fs_path("shots/../a.png", "/ws", None), Some("/ws/a.png".to_string()));
    assert_eq!(abs_fs_path("../a.png", "rel", Some("/home/u")), Some("/home/u/a.png".to_string()));
    assert_eq!(abs_fs_path("a.png", "rel", None), None);
    assert_eq!(abs_fs_path("/tmp/./b.png", "/ws", None), Some("/tmp/b.png".to_string()));
    assert_eq!(resolve_image_uri("a b.png", "/ws", None), Some("file:///ws/a%20b.png".to_string()));
    assert_eq!(resolve_image_uri("clipboard", "/ws", None), None);
}

fn image(path: &str) -> PromptBlock {
    PromptBlock::Image(ImagePart {
        data: "aGk=".into(),
        media_type: "image/png".into(),
        name: "a.png".into(),
        path: path.into(),
    })
}

#[test]
fn inline_images_carry_their_file_uri() {
    let blocks = vec![PromptBlock::Text(String::new()), PromptBlock::Text("hi".into()), image("shots/a.png"), image("clipboard")];
    let out = prompt_content_blocks(&blocks, true, "/ws", None, &Vec::new()).unwrap();
    assert_eq!(out.len(), 3);
    assert!(matches!(&out[0], PromptContent::Text(t) if t == "hi"));
    match &out[1] {
        PromptContent::Image { data, media_type, uri } => {
            assert_eq!(data, "aGk=");
            assert_eq!(media_type, "image/png");
            assert_eq!(uri.as_deref(), Some("file:///ws/shots/a.png"));
        }
        _ => panic!("expected an inline image"),
    }
    assert!(matches!(&out[2], PromptContent::Image { uri: None, .. }));
}

#[test]
fn images_become_links_when_the_agent_takes_no_images() {
    let blocks = vec![image("/pics/a.png"), image("clipboard")];
    assert!(!needs_spill(&blocks[0], false, "/ws", None));
    assert!(needs_spill(&blocks[1], false, "/ws", None));
    assert!(!needs_spill(&blocks[1], true, "/ws", None));
    let spilled = vec![None, Some(Ok("/tmp/clip/1-a.png".to_string()))];
    let out = prompt_content_blocks(&blocks, false, "/ws", None, &spilled).unwrap();
    match (&out[0], &out[1]) {
        (
            PromptContent::ResourceLink { name, uri, mime_type },
            PromptContent::ResourceLink { uri: spilled_uri, .. },
        ) => {
            assert_eq!(name, "a.png");
            assert_eq!(uri, "file:///pics/a.png");
            assert_eq!(mime_type, "image/png");
            assert_eq!(spilled_uri, "file:///tmp/clip/1-a.png");
        }
        _ => panic!("expected two links"),
    }
}

#[test]
fn a_failed_spill_fails_the_prompt() {
    let blocks = vec![PromptBlock::Text("x".into()), image("clipboard")];
    let err = prompt_content_blocks(&blocks, false, "/ws", None, &vec![None, Some(Err("disk full".to_string()))]);
    assert_eq!(err.err(), Some("disk full".to_string()));
    let missing = prompt_content_blocks(&blocks, false, "/ws", None, &Vec::new());
    assert_eq!(missing.err(), Some("cannot form file uri for a.png".to_string()));
    let relative = prompt_content_blocks(&blocks, false, "/ws", None, &vec![None, Some(Ok("x.png".to_string()))]);
    assert_eq!(relative.err(), Some("cannot form file uri for a.png".to_string()));
}

#[test]
fn a_prompt_without_a_session_parks() {
    let cmd = Cmd::Prompt { session_id: String::new(), text: "hello".into() };
    match plan_prompt(&cmd, None, true, "/ws", None, &Vec::new()) {
        PromptStart::Park(ParkedPromptKind::Text(t)) => assert_eq!(t, "hello"),
        _ => panic!("expected a parked text"),
    }
    let images = Cmd::SteerImages { session_id: String::new(), message_id: 3, blocks: vec![image("clipboard")] };
    assert!(matches!(plan_prompt(&images, None, true, "/ws", None, &Vec::new()), PromptStart::Park(ParkedPromptKind::Images(b)) if b.len() == 1));
    assert!(matches!(plan_prompt(&Cmd::FetchCatalog, Some("s1"), true, "/ws", None, &Vec::new()), PromptStart::Ignore));
}

#[test]
fn a_prompt_with_a_session_is_sent_to_it() {
    let cmd = Cmd::Steer { session_id: "s1".into(), message_id: 1, text: String::new() };
    match plan_prompt(&cmd, Some("s1"), false, "/ws", None, &Vec::new()) {
        PromptStart::Send { session_id, content, payload } => {
            assert_eq!(session_id, "s1");
            assert_eq!(content.len(), 1);
            assert!(matches!(&content[0], PromptContent::Text(t) if t.is_empty()));
            assert!(matches!(payload, ParkedPromptKind::Text(_)));
        }
        _ => panic!("expected a send"),
    }
    let images = Cmd::PromptImages { session_id: "s1".into(), blocks: vec![PromptBlock::Text("look".into()), image("/p/a.png")] };
    match plan_prompt(&images, Some("s1"), false, "/ws", None, &Vec::new()) {
        PromptStart::Send { content, .. } => {
            assert_eq!(content.len(), 2);
            assert!(matches!(&content[1], PromptContent::ResourceLink { uri, .. } if uri == "file:///p/a.png"));
        }
        _ => panic!("expected a send"),
    }
}

#[test]
fn image_prompt_failures_go_to_the_session_that_asked() {
    let empty = Cmd::PromptImages { session_id: "s2".into(), blocks: vec![PromptBlock::Text(String::new())] };
    match plan_prompt(&empty, Some("s2"), true, "/ws", None, &Vec::new()) {
        PromptStart::Fail { session_id, message } => {
            assert_eq!(session_id, "s2");
            assert_eq!(message, "empty image prompt");
        }
        _ => panic!("expected a failure"),
    }
    let clip = Cmd::PromptImages { session_id: "s2".into(), blocks: vec![image("clipboard")] };
    match plan_prompt(&clip, Some("s2"), false, "/ws", None, &vec![Some(Err("disk full".into()))]) {
        PromptStart::Fail { message, .. } => assert_eq!(message, "disk full"),
        _ => panic!("expected a failure"),
    }
}

fn control_error(code: i32, message: &str) -> ControlError {
    ControlError {
        info: AcpErrorInfo { code, auth_required_code: false, message: message.into(), data: None },
        text: message.into(),
    }
}

#[test]
fn a_finished_prompt_ends_its_turn() {
    let mut q = PromptQueues::new();
    let reply = PromptReply {
        stop: StopKind::MaxTokens,
        usage: Some(TurnUsage { input: 10, output: 20, cached_read: Some(3), cached_write: Some(4), thought: None }),
    };
    let r = q.finish_prompt("s1".into(), Ok(reply), ParkedPromptKind::Text("hi".into()));
    assert!(r.needs_auth.is_none() && r.session_error.is_none());
    match &r.events[..] {
        [UiEvent::Usage { session, input, output, cached, reasoning }, UiEvent::TurnEnd { kind, .. }] => {
            assert_eq!((session.as_str(), *input, *output, *cached, *reasoning), ("s1", 10, 20, 7, 0));
            assert_eq!(kind, "max-tokens");
        }
        _ => panic!("expected usage then turn end"),
    }
    let r = q.finish_prompt("s1".into(), Ok(PromptReply { stop: StopKind::Refusal, usage: None }), ParkedPromptKind::Text("x".into()));
    assert!(matches!(&r.events[..], [UiEvent::TurnEnd { kind, .. }] if kind == "blocked"));
    assert!(q.parked.is_empty());
}

#[test]
fn a_sign_in_error_parks_the_prompt_with_its_session() {
    let mut q = PromptQueues::new();
    let r = q.finish_prompt("s2".into(), Err(control_error(-32000, "Authentication required")), ParkedPromptKind::Text("retry me".into()));
    assert_eq!(r.needs_auth.as_deref(), Some("Authentication required"));
    assert!(matches!(&r.events[..], [UiEvent::TurnEnd { kind, .. }] if kind == "interrupted"));
    assert_eq!(q.parked.len(), 1);
    assert_eq!(q.parked[0].session.as_deref(), Some("s2"));
    let r = q.finish_prompt("s2".into(), Err(control_error(-1, "overloaded")), ParkedPromptKind::Text("y".into()));
    assert_eq!(r.session_error.as_deref(), Some("prompt: overloaded"));
    assert!(matches!(&r.events[..], [UiEvent::TurnEnd { kind, .. }] if kind == "error"));
    assert_eq!(q.parked.len(), 1);
}

#[test]
fn prompts_wait_for_the_first_session_and_behind_a_turn() {
    let mut q = PromptQueues::new();
    assert!(matches!(q.route_prompt(prompt("", "a"), false), PromptRoute::Pending));
    assert_eq!(q.pending.len(), 1);
    assert!(matches!(q.route_prompt(Cmd::Steer { session_id: String::new(), message_id: 1, text: "s".into() }, false), PromptRoute::SteerDeferred));
    assert!(matches!(q.route_prompt(Cmd::Interrupt { session_id: String::new() }, false), PromptRoute::Nothing));
    q.bind_session("s1".into());
    match q.route_prompt(prompt("", "b"), false) {
        PromptRoute::Begin { session_id, cmd: Cmd::Prompt { text, .. } } => {
            assert_eq!(session_id, "s1");
            assert_eq!(text, "b");
        }
        _ => panic!("expected a start"),
    }
    assert!(matches!(q.route_prompt(prompt("s1", "c"), true), PromptRoute::Queued(s) if s == "s1"));
    q.set_inflight("s1", Some(7));
    assert!(matches!(q.route_prompt(prompt("s1", "d"), false), PromptRoute::Queued(_)));
    assert!(matches!(q.route_prompt(Cmd::Steer { session_id: "s1".into(), message_id: 2, text: "now".into() }, false),
        PromptRoute::SteerNow { session_id, .. } if session_id == "s1"));
    assert!(matches!(q.route_prompt(Cmd::Interrupt { session_id: "s1".into() }, false), PromptRoute::Abort(s) if s == "s1"));
    assert!(q.sessions[0].1.turn_aborted);
    match q.route_prompt(prompt("ghost", "e"), false) {
        PromptRoute::SessionError { session_id, message } => {
            assert_eq!(session_id, "ghost");
            assert_eq!(message, "prompt: unknown session ghost");
        }
        _ => panic!("expected a rejection"),
    }
    assert!(matches!(q.route_prompt(Cmd::FetchCatalog, false), PromptRoute::NotPrompt));
}
