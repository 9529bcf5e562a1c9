use dsh_tui::bus::CommandConfigAction;
use dsh_tui::events::{
    catalog_from_config_options, composition_option, config_option_events, decodable, flatten_select_options,
    parse_notification, session_modes_from_value, skills_from_available_commands, UiEvent,
};
use dsh_tui::json::{Json, JsonNumber};

fn conv(v: &serde_json::Value) -> Json {
    match v {
        serde_json::Value::Null => Json::Null,
        serde_json::Value::Bool(b) => Json::Bool(*b),
        serde_json::Value::Number(n) => Json::Number(JsonNumber { as_u64: n.as_u64(), as_i64: n.as_i64(), text: n.to_string() }),
        serde_json::Value::String(s) => Json::String(s.clone()),
        serde_json::Value::Array(a) => Json::Array(a.iter().map(conv).collect()),
        serde_json::Value::Object(o) => Json::Object(o.iter().map(|(k, v)| (k.clone(), conv(v))).collect()),
    }
}

fn json(text: &str) -> Json {
    conv(&serde_json::from_str(text).unwrap())
}

fn parse(method: &str, params: &str) -> Vec<UiEvent> {
    parse_notification(method, &json(params))
}

fn ev(t: &str, data: &str) -> String {
    format!(r#"{{"sessionId": "s", "event": {{"type": "{t}", "data": {data}}}}}"#)
}

#[test]
fn session_status_running_and_idle() {
    let ev = parse("session.status", r#"{"sessionId": "s1", "status": "running"}"#);
    assert_eq!(ev, vec![UiEvent::SessionStatus { session: "s1".into(), running: true }]);

    let ev = parse("session.status", r#"{"sessionId": "s1", "status": "idle"}"#);
    assert_eq!(ev, vec![UiEvent::SessionStatus { session: "s1".into(), running: false }]);
}

#[test]
fn subagent_started_and_finished() {
    let ev = parse("subagent.started", r#"{"parentSessionId": "p", "childSessionId": "c"}"#);
    assert_eq!(ev, vec![UiEvent::SubagentStarted { parent: "p".into(), child: "c".into() }]);

    let ev = parse("subagent.finished", r#"{"childSessionId": "c"}"#);
    assert_eq!(ev, vec![UiEvent::SubagentFinished { child: "c".into() }]);
}

#[test]
fn standard_acp_subagent_tool_calls_restore_the_lifecycle() {
    let started = parse(
        "session/update",
        r#"{
            "sessionId": "parent",
            "update": {
                "sessionUpdate": "tool_call",
                "toolCallId": "subagent:run-1",
                "title": "Start subagent child",
                "status": "in_progress",
                "_meta": {"dsh": {"subagent": {
                    "state": "started",
                    "childSessionId": "child"
                }}}
            }
        }"#,
    );
    assert_eq!(started, vec![UiEvent::SubagentStarted { parent: "parent".into(), child: "child".into() }]);

    let finished = parse(
        "session/update",
        r#"{
            "sessionId": "parent",
            "update": {
                "sessionUpdate": "tool_call_update",
                "toolCallId": "subagent:run-1",
                "status": "completed",
                "_meta": {"dsh": {"subagent": {
                    "state": "finished",
                    "childSessionId": "child"
                }}}
            }
        }"#,
    );
    assert_eq!(finished, vec![UiEvent::SubagentFinished { child: "child".into() }]);
}

#[test]
fn nested_acp_updates_are_attributed_to_the_child_session() {
    let events = parse(
        "session/update",
        r#"{
            "sessionId": "parent",
            "update": {
                "sessionUpdate": "agent_message_chunk",
                "content": {"type": "text", "text": "child says hi"},
                "_meta": {"dsh": {"subagent": {
                    "childSessionId": "child",
                    "parentToolCallId": "subagent:run-1"
                }}}
            }
        }"#,
    );
    assert_eq!(events, vec![UiEvent::TextDelta { session: "child".into(), text: "child says hi".into() }]);
}

#[test]
fn turn_start_and_end() {
    let ev = parse("session.event", r#"{"sessionId": "s", "event": {"type": "turn/start", "data": {"turn": 3}}}"#);
    assert_eq!(ev, vec![UiEvent::TurnStart { session: "s".into(), turn: 3 }]);

    let ev = parse(
        "session.event",
        r#"{"sessionId": "s", "event": {"type": "turn/end", "data": {"reason": {"kind": "completed"}}}}"#,
    );
    assert_eq!(ev, vec![UiEvent::TurnEnd { session: "s".into(), kind: "completed".into() }]);

    // Missing reason -> default kind "unknown"; missing turn -> 0.
    let ev = parse("session.event", r#"{"sessionId": "s", "event": {"type": "turn/end", "data": {}}}"#);
    assert_eq!(ev, vec![UiEvent::TurnEnd { session: "s".into(), kind: "unknown".into() }]);
    let ev = parse("session.event", r#"{"sessionId": "s", "event": {"type": "turn/start", "data": {}}}"#);
    assert_eq!(ev, vec![UiEvent::TurnStart { session: "s".into(), turn: 0 }]);
}

#[test]
fn text_and_reasoning_deltas() {
    let ev = parse(
        "session.event",
        r#"{"sessionId": "s", "event": {"type": "assistant/chunk",
            "data": {"chunk": {"type": "text-delta", "text": "hi"}}}}"#,
    );
    assert_eq!(ev, vec![UiEvent::TextDelta { session: "s".into(), text: "hi".into() }]);

    let ev = parse(
        "session.event",
        r#"{"sessionId": "s", "event": {"type": "assistant/chunk",
            "data": {"chunk": {"type": "reasoning-delta", "text": "hmm"}}}}"#,
    );
    assert_eq!(ev, vec![UiEvent::ReasoningDelta { session: "s".into(), text: "hmm".into() }]);
}

#[test]
fn silent_chunk_types_emit_nothing() {
    for t in ["block-start", "block-end", "tool-call-delta", "finish"] {
        let ev = parse(
            "session.event",
            &format!(
                r#"{{"sessionId": "s", "event": {{"type": "assistant/chunk",
                "data": {{"chunk": {{"type": "{t}"}}}}}}}}"#
            ),
        );
        assert!(ev.is_empty(), "chunk type {t} should emit nothing");
    }
}

#[test]
fn usage_with_cached_input_tokens() {
    let ev = parse(
        "session.event",
        r#"{"sessionId": "s", "event": {"type": "assistant/chunk",
            "data": {"chunk": {"type": "usage", "usage": {
                "inputTokens": 10, "outputTokens": 20,
                "cachedInputTokens": 5, "reasoningTokens": 7}}}}}"#,
    );
    assert_eq!(ev, vec![UiEvent::Usage { session: "s".into(), input: 10, output: 20, cached: 5, reasoning: 7 }]);
}

#[test]
fn usage_with_cache_read_alternate_key_and_defaults() {
    let ev = parse(
        "session.event",
        r#"{"sessionId": "s", "event": {"type": "assistant/chunk",
            "data": {"chunk": {"type": "usage", "usage": {
                "inputTokens": 1, "cacheReadInputTokens": 9}}}}}"#,
    );
    assert_eq!(ev, vec![UiEvent::Usage { session: "s".into(), input: 1, output: 0, cached: 9, reasoning: 0 }]);
}

#[test]
fn usage_with_harness_cache_read_tokens() {
    let ev = parse(
        "session.event",
        r#"{"sessionId": "s", "event": {"type": "assistant/chunk",
            "data": {"chunk": {"type": "usage", "usage": {
                "inputTokens": 1, "outputTokens": 2,
                "cacheReadTokens": 9, "reasoningTokens": 3}}}}}"#,
    );
    assert_eq!(ev, vec![UiEvent::Usage { session: "s".into(), input: 1, output: 2, cached: 9, reasoning: 3 }]);
}

#[test]
fn assistant_final_with_text_and_model() {
    let ev = parse(
        "session.event",
        r#"{"sessionId": "s", "event": {"type": "assistant/message",
            "data": {"message": {
                "content": [
                    {"type": "text", "text": "hello "},
                    {"type": "tool-call", "text": "ignored"},
                    {"type": "text", "text": "world"}
                ],
                "source": {"model": "deepseek-v3"}}}}}"#,
    );
    assert_eq!(
        ev,
        vec![UiEvent::AssistantFinal {
            session: "s".into(),
            text: "hello world".into(),
            model: Some("deepseek-v3".into()),
        }]
    );
}

#[test]
fn assistant_final_fallback_to_data_and_always_emits() {
    // No "message" key: use data itself; empty content still emits.
    let ev = parse(
        "session.event",
        r#"{"sessionId": "s", "event": {"type": "assistant/message",
            "data": {"content": [], "source": {"model": 42}}}}"#,
    );
    assert_eq!(ev, vec![UiEvent::AssistantFinal { session: "s".into(), text: String::new(), model: None }]);
}

#[test]
fn tool_call_fields_and_defaults() {
    let ev = parse(
        "session.event",
        r#"{"sessionId": "s", "event": {"type": "tool/call",
            "data": {"callId": "c1", "name": "bash", "arguments": "{\"command\":\"ls\"}"}}}"#,
    );
    assert_eq!(
        ev,
        vec![UiEvent::ToolCall {
            session: "s".into(),
            call_id: "c1".into(),
            name: "bash".into(),
            arguments: "{\"command\":\"ls\"}".into(),
        }]
    );

    let ev = parse("session.event", r#"{"sessionId": "s", "event": {"type": "tool/call", "data": {}}}"#);
    assert_eq!(
        ev,
        vec![UiEvent::ToolCall {
            session: "s".into(),
            call_id: String::new(),
            name: String::new(),
            arguments: String::new(),
        }]
    );
}

#[test]
fn tool_result_success_blocks() {
    let ev = parse(
        "session.event",
        r#"{"sessionId": "s", "event": {"type": "tool/result",
        "data": {"message": {"content": [
            {"type": "tool-result", "toolCallId": "c1", "content": [
                {"type": "text", "text": "line1"}]},
            {"type": "tool-result", "toolCallId": "c2", "isError": false, "content": [
                {"type": "text", "text": "line2"}]}
        ]}}}}"#,
    );
    assert_eq!(
        ev,
        vec![UiEvent::ToolResult {
            session: "s".into(),
            call_id: "c1".into(),
            is_error: false,
            text: "line1\nline2".into(),
            error: None,
        }]
    );
}

#[test]
fn tool_result_is_error_block_flag() {
    let ev = parse(
        "session.event",
        r#"{"sessionId": "s", "event": {"type": "tool/result",
        "data": {"message": {"content": [
            {"type": "tool-result", "toolCallId": "c1", "isError": true, "content": [
                {"type": "text", "text": "boom"}]}
        ]}}}}"#,
    );
    assert_eq!(
        ev,
        vec![UiEvent::ToolResult {
            session: "s".into(),
            call_id: "c1".into(),
            is_error: true,
            text: "boom".into(),
            error: None,
        }]
    );
}

#[test]
fn tool_result_error_field_forces_is_error() {
    let ev = parse(
        "session.event",
        r#"{"sessionId": "s", "event": {"type": "tool/result",
            "data": {
                "message": {"content": [
                    {"type": "tool-result", "toolCallId": "c9", "content": []}
                ]},
                "error": {"name": "ToolTimeout", "code": "E_TIMEOUT"}}}}"#,
    );
    assert_eq!(
        ev,
        vec![UiEvent::ToolResult {
            session: "s".into(),
            call_id: "c9".into(),
            is_error: true,
            text: String::new(),
            error: Some("ToolTimeout (E_TIMEOUT)".into()),
        }]
    );
}

#[test]
fn tool_result_numeric_error_code_prints_as_a_number() {
    let ev = parse(
        "session.event",
        r#"{"sessionId": "s", "event": {"type": "tool/result",
            "data": {"error": {"name": "Exit", "code": 137}}}}"#,
    );
    assert_eq!(
        ev,
        vec![UiEvent::ToolResult {
            session: "s".into(),
            call_id: String::new(),
            is_error: true,
            text: String::new(),
            error: Some("Exit (137)".into()),
        }]
    );
}

#[test]
fn user_message_user_kind_suppressed() {
    let ev = parse(
        "session.event",
        r#"{"sessionId": "s", "event": {"type": "user/message",
            "data": {"source": {"kind": "user"},
                     "content": [{"type": "text", "text": "typed by human"}]}}}"#,
    );
    assert!(ev.is_empty());

    // Missing kind also suppressed.
    let ev = parse(
        "session.event",
        r#"{"sessionId": "s", "event": {"type": "user/message",
            "data": {"content": [{"type": "text", "text": "x"}]}}}"#,
    );
    assert!(ev.is_empty());
}

#[test]
fn user_message_plugin_kind_preview_truncation() {
    // 200 multi-byte chars; preview must be first 160 chars, boundary-safe.
    let long: String = "é".repeat(200);
    let ev = parse(
        "session.event",
        &format!(
            r#"{{"sessionId": "s", "event": {{"type": "user/message",
            "data": {{"source": {{"kind": "plugin"}},
                     "content": [{{"type": "text", "text": "{long}"}}]}}}}}}"#
        ),
    );
    let expected: String = "é".repeat(160);
    assert_eq!(ev, vec![UiEvent::UserInjected { session: "s".into(), source: "plugin".into(), preview: expected }]);
}

#[test]
fn unknown_method_and_unknown_event_type_yield_nothing() {
    assert!(parse("nope.method", r#"{"sessionId": "s"}"#).is_empty());
    assert!(parse("session.event", r#"{"sessionId": "s", "event": {"type": "weird/thing", "data": {}}}"#).is_empty());
}

#[test]
fn session_update_maps_chunks_tools_and_agent_option() {
    let ev = parse(
        "session/update",
        r#"{
            "sessionId": "s",
            "update": {
                "sessionUpdate": "agent_message_chunk",
                "content": {"type": "text", "text": "hi"}
            }
        }"#,
    );
    assert_eq!(ev, vec![UiEvent::TextDelta { session: "s".into(), text: "hi".into() }]);

    let ev = parse(
        "session/update",
        r#"{
            "sessionId": "s",
            "update": {
                "sessionUpdate": "agent_message_chunk",
                "content": {"type": "text", "text": ""},
                "messageId": "2:3",
                "_meta": {
                    "dsh": {"event": "assistant_message", "model": "deepseek-v4"}
                }
            }
        }"#,
    );
    assert_eq!(
        ev,
        vec![UiEvent::AssistantFinal {
            session: "s".into(),
            text: String::new(),
            model: Some("deepseek-v4".into()),
        }]
    );

    let ev = parse(
        "session/update",
        r#"{
            "sessionId": "s",
            "sessionUpdate": "current_mode_update",
            "currentModeId": "read-only"
        }"#,
    );
    assert!(ev.iter().any(|e| matches!(e, UiEvent::PermissionPreset { preset, .. } if preset == "read-only")));

    let ev = parse(
        "session/update",
        r#"{
            "sessionId": "s",
            "update": {
                "sessionUpdate": "config_option_update",
                "configOptions": [
                    {"type": "select", "id": "mode", "category": "mode", "currentValue": "read-only", "options": []},
                    {"type": "select", "id": "agent", "currentValue": "cordis", "options": [{"value": "cordis", "name": "Cordis"}]}
                ]
            }
        }"#,
    );
    assert_eq!(ev, vec![UiEvent::AgentPreset { session: "s".into(), preset: "cordis".into() }]);
}

#[test]
fn context_usage_update_is_not_misread_as_token_breakdown() {
    let events = parse(
        "session/update",
        r#"{
            "sessionId": "s",
            "update": {
                "sessionUpdate": "usage_update",
                "used": 170,
                "size": 1000
            }
        }"#,
    );
    assert!(
        events.is_empty(),
        "ACP usage_update is context pressure; token breakdown comes from PromptResponse.usage"
    );
}

#[test]
fn dsh_injected_context_metadata_restores_the_existing_ui_event() {
    let events = parse(
        "session/update",
        r#"{
            "sessionId": "s",
            "update": {
                "sessionUpdate": "session_info_update",
                "_meta": {
                    "dsh": {
                        "event": "user/message",
                        "source": "compaction",
                        "preview": "summary context"
                    }
                }
            }
        }"#,
    );
    assert_eq!(
        events,
        vec![UiEvent::UserInjected {
            session: "s".into(),
            source: "compaction".into(),
            preview: "summary context".into(),
        }]
    );
}

#[test]
fn dsh_resume_usage_metadata_restores_one_token_snapshot() {
    let params = r#"{
        "sessionId": "s",
        "update": {
            "sessionUpdate": "session_info_update",
            "_meta": {
                "dsh": {
                    "event": "prompt/usage",
                    "usage": {
                        "inputTokens": 41,
                        "outputTokens": 9,
                        "thoughtTokens": 4,
                        "cachedReadTokens": 13,
                        "cachedWriteTokens": 2
                    }
                }
            }
        }
    }"#;
    assert!(decodable("session/update", &json(params)));
    let events = parse("session/update", params);
    assert_eq!(events, vec![UiEvent::Usage { session: "s".into(), input: 41, output: 9, cached: 15, reasoning: 4 }]);
}

#[test]
fn usage_snapshot_with_overflowing_cache_counts_is_not_decodable() {
    let params = json(
        r#"{"sessionId": "s", "update": {"sessionUpdate": "session_info_update",
            "_meta": {"dsh": {"event": "prompt/usage",
                "usage": {"cachedReadTokens": 18446744073709551615, "cachedWriteTokens": 1}}}}}"#,
    );
    assert!(!decodable("session/update", &params));
    assert!(decodable("session.event", &params));
}

#[test]
fn collaboration_config_update_restores_plan_mode_from_standard_acp() {
    let events = parse(
        "session/update",
        r#"{
            "sessionId": "s",
            "update": {
                "sessionUpdate": "config_option_update",
                "configOptions": [{
                    "type": "select",
                    "id": "collaboration_mode",
                    "currentValue": "plan",
                    "options": [
                        {"value": "default", "name": "Default"},
                        {"value": "plan", "name": "Plan"}
                    ]
                }]
            }
        }"#,
    );
    assert_eq!(events, vec![UiEvent::PlanMode { session: "s".into(), active: true }]);
}

#[test]
fn available_plan_command_keeps_its_standard_config_action() {
    let commands = skills_from_available_commands(&json(
        r#"[{
            "name": "plan",
            "description": "Enter or leave plan mode",
            "_meta": {
                "commandAction": {
                    "kind": "setConfigOption",
                    "configId": "collaboration_mode",
                    "value": "plan",
                    "resetValue": "default"
                }
            }
        }]"#,
    ));
    assert_eq!(
        commands[0].config_action,
        Some(CommandConfigAction {
            config_id: "collaboration_mode".into(),
            value: "plan".into(),
            reset_value: Some("default".into()),
        })
    );
}

#[test]
fn catalog_prefers_agent_id_and_flattens_groups() {
    let options = json(
        r#"[
            {"type": "select", "id": "model", "category": "model", "options": [{"value": "deepseek/m1", "name": "M1"}]},
            {"type": "select", "id": "agent", "options": [
                {"group": "system", "name": "System", "options": [
                    {"value": "cordis", "name": "Cordis", "description": "inspect"},
                    {"value": "broken", "name": "Broken", "description": "Broken: missing yaml"}
                ]}
            ]}
        ]"#,
    );
    let (models, presets, id) = catalog_from_config_options(&options);
    assert_eq!(id.as_deref(), Some("agent"));
    assert_eq!(models.len(), 1);
    assert_eq!(models[0].id, "m1");
    assert_eq!(presets.len(), 2);
    assert_eq!(presets[0].id, "cordis");
    assert!(presets[1].broken);
}

#[test]
fn session_modes_read_available_and_current() {
    let modes = json(
        r#"{
            "currentModeId": "workspace-write",
            "availableModes": [
                {"id": "read-only", "name": "Read only", "description": "no writes"},
                {"id": "workspace-write", "name": "Workspace write"}
            ]
        }"#,
    );
    let (list, current) = session_modes_from_value(&modes);
    assert_eq!(current.as_deref(), Some("workspace-write"));
    assert_eq!(list.len(), 2);
    assert_eq!(list[0].id, "read-only");
    assert_eq!(list[1].name, "Workspace write");
}

#[test]
fn malformed_payloads_yield_empty_vec() {
    // Non-object params.
    assert!(parse("session.event", r#""garbage""#).is_empty());
    assert!(parse("session.event", "null").is_empty());
    // Event missing type / wrong types.
    assert!(parse("session.event", r#"{"sessionId": "s", "event": {"data": {}}}"#).is_empty());
    assert!(parse("session.event", r#"{"sessionId": 12, "event": {"type": 7}}"#).is_empty());
    // session.status with non-string status.
    assert!(parse("session.status", r#"{"sessionId": "s", "status": 1}"#).is_empty());
    // assistant/chunk with missing chunk.
    assert!(parse("session.event", r#"{"sessionId": "s", "event": {"type": "assistant/chunk", "data": {}}}"#).is_empty());
}

#[test]
fn plan_sandbox_approval_permission_preset() {
    assert_eq!(
        parse("session.event", &ev("plan/mode", r#"{"active": true}"#)),
        vec![UiEvent::PlanMode { session: "s".into(), active: true }]
    );
    assert_eq!(
        parse("session.event", &ev("sandbox/mode", r#"{"mode": "workspace-write"}"#)),
        vec![UiEvent::SandboxMode { session: "s".into(), mode: "workspace-write".into() }]
    );
    assert_eq!(
        parse("session.event", &ev("approval/policy", r#"{"policy": "ask"}"#)),
        vec![UiEvent::ApprovalPolicy { session: "s".into(), policy: "ask".into() }]
    );
    assert_eq!(
        parse("session.event", &ev("permission/preset", r#"{"preset": "danger-full-access"}"#)),
        vec![UiEvent::PermissionPreset { session: "s".into(), preset: "danger-full-access".into() }]
    );
    assert_eq!(
        parse("session.event", &ev("agent-preset/selected", r#"{"agentPreset": "standard"}"#)),
        vec![UiEvent::AgentPreset { session: "s".into(), preset: "standard".into() }]
    );
}

#[test]
fn approval_asked_and_decided_shapes() {
    assert_eq!(
        parse("session.event", &ev("approval/asked", r#"{"id": "a1", "toolName": "bash", "reason": "rm -rf"}"#)),
        vec![UiEvent::ApprovalAsked { session: "s".into(), tool: "bash".into(), reason: Some("rm -rf".into()) }]
    );
    assert_eq!(
        parse("session.event", &ev("approval/decided", r#"{"id": "a1", "outcome": "allowed-once"}"#)),
        vec![UiEvent::ApprovalDecided { session: "s".into(), outcome: "allowed-once".into() }]
    );
    assert_eq!(
        parse("session.event", &ev("approval/decided", r#"{"id": "a1", "outcome": {"kind": "rejected"}}"#)),
        vec![UiEvent::ApprovalDecided { session: "s".into(), outcome: "rejected".into() }]
    );
    // malformed plan/mode stays silent
    assert!(parse("session.event", &ev("plan/mode", "{}")).is_empty());
}

#[test]
fn session_update_maps_user_title_plan_and_terminal_output() {
    let ev = parse(
        "session/update",
        r#"{
            "sessionId": "s",
            "update": {
                "sessionUpdate": "user_message_chunk",
                "content": {"type": "text", "text": "hello from load"}
            }
        }"#,
    );
    assert_eq!(ev, vec![UiEvent::UserMessage { session: "s".into(), text: "hello from load".into() }]);

    let ev = parse(
        "session/update",
        r#"{
            "sessionId": "s",
            "update": {
                "sessionUpdate": "session_info_update",
                "title": "fix the tests"
            }
        }"#,
    );
    assert_eq!(ev, vec![UiEvent::SessionTitle { session: "s".into(), title: "fix the tests".into() }]);
    assert!(parse(
        "session/update",
        r#"{
            "sessionId": "s",
            "update": {"sessionUpdate": "session_info_update", "title": null}
        }"#,
    )
    .is_empty());

    let ev = parse(
        "session/update",
        r#"{
            "sessionId": "s",
            "update": {
                "sessionUpdate": "plan",
                "entries": [
                    {"content": "locate fn main", "status": "completed"},
                    {"content": "read", "status": "in_progress"}
                ]
            }
        }"#,
    );
    assert_eq!(
        ev,
        vec![UiEvent::Plan { session: "s".into(), summary: "locate fn main [completed] · read [in_progress]".into() }]
    );

    let ev = parse(
        "session/update",
        r#"{
            "sessionId": "s",
            "update": {
                "sessionUpdate": "plan",
                "entries": []
            }
        }"#,
    );
    assert_eq!(
        ev,
        vec![UiEvent::Plan { session: "s".into(), summary: String::new() }],
        "an empty full snapshot must clear the previous plan"
    );

    let ev = parse(
        "session/update",
        r#"{
            "sessionId": "s",
            "update": {
                "sessionUpdate": "tool_call_update",
                "toolCallId": "c1",
                "status": "completed",
                "_meta": {"terminal_output": {"terminal_id": "c1", "data": "ls output"}}
            }
        }"#,
    );
    assert_eq!(
        ev,
        vec![UiEvent::ToolResult {
            session: "s".into(),
            call_id: "c1".into(),
            is_error: false,
            text: "ls output".into(),
            error: None,
        }]
    );
}

#[test]
fn tool_call_arguments_are_the_raw_input_as_compact_json() {
    let ev = parse(
        "session/update",
        r#"{"sessionId": "s", "update": {"sessionUpdate": "tool_call", "tool_call_id": "t1",
            "kind": "execute", "rawInput": {"command": "ls", "args": ["-l", 2]}}}"#,
    );
    assert_eq!(
        ev,
        vec![UiEvent::ToolCall {
            session: "s".into(),
            call_id: "t1".into(),
            name: "execute".into(),
            arguments: r#"{"args":["-l",2],"command":"ls"}"#.into(),
        }]
    );
}

#[test]
fn failed_tool_call_update_reads_raw_output() {
    let ev = parse(
        "session/update",
        r#"{"sessionId": "s", "update": {"sessionUpdate": "tool_call_update", "toolCallId": "t1",
            "status": "failed", "rawOutput": {"output": "denied"}}}"#,
    );
    assert_eq!(
        ev,
        vec![UiEvent::ToolResult {
            session: "s".into(),
            call_id: "t1".into(),
            is_error: true,
            text: "denied".into(),
            error: None,
        }]
    );
    let ev = parse(
        "session/update",
        r#"{"sessionId": "s", "update": {"sessionUpdate": "tool_call_update", "toolCallId": "t1",
            "status": "completed", "raw_output": {"exit": 0}}}"#,
    );
    assert_eq!(
        ev,
        vec![UiEvent::ToolResult {
            session: "s".into(),
            call_id: "t1".into(),
            is_error: false,
            text: r#"{"exit":0}"#.into(),
            error: None,
        }]
    );
    // A still-running update is not a result.
    assert!(parse(
        "session/update",
        r#"{"sessionId": "s", "update": {"sessionUpdate": "tool_call_update", "status": "in_progress"}}"#,
    )
    .is_empty());
}

#[test]
fn plan_summary_falls_back_to_plan_content_and_removal_clears() {
    let ev = parse(
        "session/update",
        r#"{"sessionId": "s", "update": {"sessionUpdate": "plan_update", "plan": {"content": "step one"}}}"#,
    );
    assert_eq!(ev, vec![UiEvent::Plan { session: "s".into(), summary: "step one".into() }]);
    let ev = parse(
        "session/update",
        r#"{"sessionId": "s", "update": {"sessionUpdate": "plan_update", "plan": {"entries": [{"content": "a"}, {"status": "x"}]}}}"#,
    );
    assert_eq!(ev, vec![UiEvent::Plan { session: "s".into(), summary: "a".into() }]);
    let ev = parse("session/update", r#"{"sessionId": "s", "update": {"sessionUpdate": "plan_removed"}}"#);
    assert_eq!(ev, vec![UiEvent::Plan { session: "s".into(), summary: String::new() }]);
}

#[test]
fn current_mode_update_sets_permission_and_sandbox() {
    let ev = parse(
        "session/update",
        r#"{"sessionId": "s", "update": {"sessionUpdate": "current_mode_update", "current_mode_id": "read-only"}}"#,
    );
    assert_eq!(
        ev,
        vec![
            UiEvent::PermissionPreset { session: "s".into(), preset: "read-only".into() },
            UiEvent::SandboxMode { session: "s".into(), mode: "read-only".into() },
        ]
    );
}

#[test]
fn flatten_select_options_defaults_and_nesting() {
    let flat = flatten_select_options(&json(
        r#"[{"value": "a"}, {"name": "no value"}, {"options": [{"value": "b", "name": "B", "description": "bee"},
            {"options": [{"value": "c"}]}]}]"#,
    ));
    assert_eq!(
        flat,
        vec![
            ("a".to_string(), "a".to_string(), String::new()),
            ("b".to_string(), "B".to_string(), "bee".to_string()),
            ("c".to_string(), "c".to_string(), String::new()),
        ]
    );
    assert!(flatten_select_options(&json(r#"{"value": "a"}"#)).is_empty());
}

#[test]
fn composition_option_falls_back_to_an_uncategorized_select() {
    let options = json(
        r#"[{"type": "select", "id": "mode"}, {"type": "select", "id": "style", "category": "look"},
            {"type": "select", "id": "crew"}, {"type": "select", "id": "other"}]"#,
    );
    let picked = composition_option(&options).expect("a composition select");
    assert!(matches!(picked.get("id"), Some(Json::String(s)) if s == "crew"));
    let none = json(r#"[{"type": "select", "id": "model"}, {"type": "toggle", "id": "x"}]"#);
    assert!(composition_option(&none).is_none());
}

#[test]
fn config_option_events_reads_current_value_spellings() {
    let ev = config_option_events(
        "s".into(),
        &json(
            r#"[{"id": "collaboration_mode", "current_value": "default"},
                {"id": "preset", "current_value": "code"}]"#,
        ),
    );
    assert_eq!(
        ev,
        vec![
            UiEvent::PlanMode { session: "s".into(), active: false },
            UiEvent::AgentPreset { session: "s".into(), preset: "code".into() },
        ]
    );
}

#[test]
fn commands_with_client_actions_and_broken_metadata() {
    let skills = skills_from_available_commands(&json(
        r#"[{"name": "theme", "metadata": {"commandAction": {"kind": "clientCommand"}}},
            {"name": "odd", "metadata": {"other": 1}, "_meta": {"commandAction": {"kind": "setConfigOption", "configId": "m", "value": "v"}}},
            {"description": "nameless"}]"#,
    ));
    assert_eq!(skills.len(), 2);
    assert!(skills[0].client_command);
    assert_eq!(skills[0].config_action, None);
    assert_eq!(skills[1].description, "");
    // A `metadata` carrier without a command action settles the answer.
    assert_eq!(skills[1].config_action, None);
    assert!(!skills[1].client_command);
}
