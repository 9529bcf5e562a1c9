use dsh_tui::demo::{demo_script, long_conclusion, split_pieces};
use dsh_tui::events::{parse_notification, UiEvent};

fn play(prompt: &str) -> Vec<UiEvent> {
    demo_script("s", prompt).iter().flat_map(|n| parse_notification(&n.method, &n.params)).collect()
}

#[test]
fn split_pieces_cuts_sixths_of_at_least_24_chars() {
    let short: String = "x".repeat(30);
    assert_eq!(split_pieces(&short), vec!["x".repeat(24), "x".repeat(6)]);
    let long: String = "é".repeat(300);
    let pieces = split_pieces(&long);
    assert_eq!(pieces.len(), 6);
    assert!(pieces.iter().all(|p| p.chars().count() == 50));
    assert!(split_pieces("").is_empty());
}

#[test]
fn long_conclusion_has_a_code_block() {
    let text = long_conclusion();
    assert!(text.starts_with("Here is the full walkthrough of the entrypoint.\n\n"));
    assert!(text.contains("```rust\nfn main() {\n"));
    assert!(text.ends_with("slipped back beneath the waves. 🐋\n"));
    assert!(text.lines().count() >= 25);
}

#[test]
fn plain_demo_turn_runs_and_settles() {
    let events = play("where is main?");
    assert_eq!(events.first(), Some(&UiEvent::SessionStatus { session: "s".into(), running: true }));
    assert_eq!(events.last(), Some(&UiEvent::SessionStatus { session: "s".into(), running: false }));
    assert!(events.contains(&UiEvent::TurnStart { session: "s".into(), turn: 1 }));
    assert!(events.contains(&UiEvent::TurnEnd { session: "s".into(), kind: "completed".into() }));
    assert!(events.contains(&UiEvent::ReasoningDelta { session: "s".into(), text: "User asks: \"where is main?\".".into() }));
    assert!(events.contains(&UiEvent::ToolCall {
        session: "s".into(),
        call_id: "demo-call-1".into(),
        name: "bash".into(),
        arguments: r#"{"command":"rg -n 'fn main' src/"}"#.into(),
    }));
    assert!(events.contains(&UiEvent::ToolCall {
        session: "s".into(),
        call_id: "demo-call-2".into(),
        name: "str_replace_editor".into(),
        arguments: r#"{"command":"view","path":"src/main.rs"}"#.into(),
    }));
    assert!(events.contains(&UiEvent::Usage { session: "s".into(), input: 1834, output: 412, cached: 1200, reasoning: 96 }));
    assert!(!events.iter().any(|e| matches!(e, UiEvent::SubagentStarted { .. } | UiEvent::PlanMode { .. })));
}

#[test]
fn demo_variations_follow_the_prompt() {
    let events = play("Show an ERROR with a sub agent, plan mode, approve, inject");
    assert!(events.contains(&UiEvent::TurnEnd { session: "s".into(), kind: "error".into() }));
    assert!(events.contains(&UiEvent::PlanMode { session: "s".into(), active: true }));
    assert!(events.contains(&UiEvent::SubagentStarted { parent: "s".into(), child: "s-child".into() }));
    assert!(events.contains(&UiEvent::SubagentFinished { child: "s-child".into() }));
    assert!(events.contains(&UiEvent::ApprovalDecided { session: "s".into(), outcome: "allowed-once".into() }));
    assert!(events.iter().any(|e| matches!(e, UiEvent::ToolResult { is_error: true, error: Some(msg), .. } if msg == "ToolFailed (EEXEC)")));
    assert!(events.iter().any(|e| matches!(e, UiEvent::UserInjected { source, .. } if source == "plugin")));
    let answer: String = events
        .iter()
        .filter_map(|e| match e {
            UiEvent::TextDelta { session, text } if session == "s" => Some(text.as_str()),
            _ => None,
        })
        .collect();
    assert!(answer.ends_with("dove back down. 🐋"));
}
