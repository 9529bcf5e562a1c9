use unicode_width::UnicodeWidthStr;
use dsh_tui::input::keymap::{classify, key_rows, keys_markdown, Action, KeyCtx, KeyGroup, CtxNote, KEY_ROW_COUNT};
use dsh_tui::input::keys::{rescue_with, KeyCode, KeyEvent, KeyModifiers, ModifierState};

fn key(code: KeyCode, m: KeyModifiers) -> KeyEvent {
    KeyEvent::new(code, m)
}

fn empty() -> KeyCtx {
    KeyCtx { input_empty: true }
}

fn typing() -> KeyCtx {
    KeyCtx { input_empty: false }
}

#[test]
fn cmd_arrows_are_line_and_transcript_motions() {
    let sup = KeyModifiers::super_key();
    assert_eq!(classify(&key(KeyCode::Left, sup), typing()), Some(Action::LineStart));
    assert_eq!(classify(&key(KeyCode::Right, sup), typing()), Some(Action::LineEnd));
    assert_eq!(classify(&key(KeyCode::Up, sup), typing()), Some(Action::JumpTop));
    assert_eq!(classify(&key(KeyCode::Down, sup), typing()), Some(Action::JumpTail));
    assert_eq!(classify(&key(KeyCode::Backspace, sup), typing()), Some(Action::KillToStart));
}

#[test]
fn word_hops_accept_both_conventions() {
    for m in [KeyModifiers::alt(), KeyModifiers::control()] {
        assert_eq!(classify(&key(KeyCode::Left, m), typing()), Some(Action::WordLeft));
        assert_eq!(classify(&key(KeyCode::Right, m), typing()), Some(Action::WordRight));
        assert_eq!(classify(&key(KeyCode::Backspace, m), typing()), Some(Action::DeleteWordBack));
    }
    assert_eq!(classify(&key(KeyCode::Char('b'), KeyModifiers::alt()), typing()), Some(Action::WordLeft));
    assert_eq!(classify(&key(KeyCode::Char('f'), KeyModifiers::alt()), typing()), Some(Action::WordRight));
}

#[test]
fn ctrl_a_moves_to_line_start_for_terminals_that_encode_cmd_left_as_readline() {
    let ctrl = KeyModifiers::control();
    assert_eq!(classify(&key(KeyCode::Char('a'), ctrl), typing()), Some(Action::LineStart));
    assert_eq!(classify(&key(KeyCode::Char('e'), ctrl), typing()), Some(Action::LineEnd));
    assert_eq!(classify(&key(KeyCode::Char('u'), ctrl), typing()), Some(Action::KillToStart));
}

#[test]
fn ctrl_shift_a_keeps_agent_cycling_off_the_readline_ctrl_a_chord() {
    let m = KeyModifiers::control().with(KeyModifiers::shift());
    assert_eq!(classify(&key(KeyCode::Char('a'), m), typing()), Some(Action::CycleAgent));
}

#[test]
fn option_a_cycles_the_agent_without_stealing_readline_ctrl_a() {
    assert_eq!(classify(&key(KeyCode::Char('a'), KeyModifiers::alt()), typing()), Some(Action::CycleAgent));
    assert_eq!(classify(&key(KeyCode::Char('a'), KeyModifiers::control()), typing()), Some(Action::LineStart));
}

#[test]
fn arrows_move_inside_a_draft_and_only_browse_history_when_it_is_empty() {
    let none = KeyModifiers::none();
    assert_eq!(classify(&key(KeyCode::Up, none), typing()), Some(Action::CursorUp));
    assert_eq!(classify(&key(KeyCode::Down, none), typing()), Some(Action::CursorDown));
    assert_eq!(classify(&key(KeyCode::Up, none), empty()), Some(Action::HistoryPrev));
    assert_eq!(classify(&key(KeyCode::Down, none), empty()), Some(Action::HistoryNext));
}

#[test]
fn expand_all_lives_on_ctrl_o_not_ctrl_e() {
    let ctrl = KeyModifiers::control();
    assert_eq!(classify(&key(KeyCode::Char('o'), ctrl), empty()), Some(Action::ToggleExpandAll));
    assert_eq!(classify(&key(KeyCode::Char('e'), ctrl), empty()), Some(Action::LineEnd));
}

#[test]
fn dual_use_keys_scroll_only_on_empty_draft() {
    let ctrl = KeyModifiers::control();
    let none = KeyModifiers::none();
    assert_eq!(classify(&key(KeyCode::Char('u'), ctrl), empty()), Some(Action::ScrollHalfUp));
    assert_eq!(classify(&key(KeyCode::Char('d'), ctrl), empty()), Some(Action::ScrollHalfDown));
    assert_eq!(classify(&key(KeyCode::Home, none), empty()), Some(Action::JumpTop));
    assert_eq!(classify(&key(KeyCode::Home, none), typing()), Some(Action::LineStart));
    assert_eq!(classify(&key(KeyCode::End, none), typing()), Some(Action::LineEnd));
}

#[test]
fn ctrl_dot_shows_the_shortcut_list() {
    assert_eq!(classify(&key(KeyCode::Char('.'), KeyModifiers::control()), empty()), Some(Action::ShowKeys));
    assert_eq!(classify(&key(KeyCode::Char('.'), KeyModifiers::none()), typing()), Some(Action::Insert('.')));
}

#[test]
fn unbound_chords_do_not_type_their_base_letter() {
    assert_eq!(classify(&key(KeyCode::Char('z'), KeyModifiers::alt()), typing()), None);
    assert_eq!(classify(&key(KeyCode::Char('c'), KeyModifiers::super_key()), typing()), None);
    assert_eq!(classify(&key(KeyCode::Char('g'), KeyModifiers::control()), typing()), None);
    assert_eq!(classify(&key(KeyCode::Char('z'), KeyModifiers::none()), typing()), Some(Action::Insert('z')));
}

#[test]
fn shift_enter_is_newline_and_shift_tab_cycles_permission() {
    assert_eq!(classify(&key(KeyCode::Enter, KeyModifiers::shift()), typing()), Some(Action::Newline));
    assert_eq!(classify(&key(KeyCode::BackTab, KeyModifiers::none()), empty()), Some(Action::CyclePermission));
    assert_eq!(classify(&key(KeyCode::Tab, KeyModifiers::shift()), empty()), Some(Action::CyclePermission));
}

#[test]
fn every_action_has_exactly_one_documented_row_except_typing_insert() {
    let all = [
        Action::Insert('x'), Action::Newline, Action::Enter, Action::Esc, Action::CtrlC, Action::Quit,
        Action::ClearScrollback, Action::ToggleTheme, Action::ToggleExpandAll, Action::SendNow,
        Action::AttachClipboard, Action::ModelPicker, Action::CycleAgent, Action::ShowKeys,
        Action::CyclePermission, Action::TabComplete, Action::HistoryPrev, Action::HistoryNext,
        Action::ScrollHalfUp, Action::ScrollHalfDown, Action::PageUp, Action::PageDown, Action::JumpTop,
        Action::JumpTail, Action::CursorLeft, Action::CursorRight, Action::CursorUp, Action::CursorDown,
        Action::WordLeft, Action::WordRight, Action::LineStart, Action::LineEnd, Action::Backspace,
        Action::DeleteForward, Action::DeleteWordBack, Action::KillToEnd, Action::KillToStart,
    ];
    let documented: Vec<Action> = key_rows().iter().map(|row| row.action).collect();
    assert_eq!(
        documented.len(),
        all.len() - 1,
        "exactly one row per action (Insert is plain typing and stays out)"
    );
    for action in all {
        if matches!(action, Action::Insert(_)) {
            continue;
        }
        assert!(
            documented.contains(&action),
            "{action:?} is missing from KEY_ROWS — /keys would not show it"
        );
    }
}

#[test]
fn displayed_chords_resolve_to_their_action() {
    for row in key_rows() {
        for (code, mods, empty) in &row.probes {
            let got = classify(&KeyEvent::new(*code, *mods), KeyCtx { input_empty: *empty });
            assert_eq!(
                got,
                Some(row.action),
                "KEY_ROWS drift: {:?} + {mods:?} must be {:?}, got {got:?}",
                code,
                row.action
            );
        }
    }
}

#[test]
fn keys_markdown_is_well_formed() {
    for zh in [false, true] {
        for mac in [false, true] {
            let md = keys_markdown(zh, mac);
            assert!(!md.is_empty());
            let mut saw_line = false;
            let mut in_group = false;
            for line in md.lines() {
                let trimmed = line.trim();
                if trimmed.starts_with("### ") {
                    in_group = true;
                    continue;
                }
                if !in_group || trimmed.is_empty() {
                    continue;
                }
                saw_line = true;
                assert!(
                    trimmed.contains(" · "),
                    "binding line must be `chords · description`: {line:?}\n{md}"
                );
                assert!(!trimmed.contains('|'), "no table cells: {line:?}");
            }
            assert!(saw_line, "no binding lines in:\n{md}");
        }
    }
}

#[test]
fn keys_markdown_uses_the_platform_spellings_and_groups_everything() {
    let mac = keys_markdown(false, true);
    assert!(mac.contains("⌘←"), "macOS chord missing:\n{mac}");
    assert!(mac.contains("option+a"), "macOS agent chord missing:\n{mac}");
    let linux = keys_markdown(false, false);
    assert!(linux.contains("ctrl+←"), "linux chord missing:\n{linux}");
    assert!(!linux.contains("⌘←"), "macOS chord leaked to linux:\n{linux}");
    assert!(linux.contains("ctrl+shift+a"), "linux agent chord missing:\n{linux}");
    for group in [KeyGroup::Send, KeyGroup::Navigate, KeyGroup::Edit, KeyGroup::App, KeyGroup::Mouse] {
        assert!(
            linux.contains(&group.title(false)),
            "group {:?} missing:\n{linux}",
            group
        );
    }
    let zh = keys_markdown(true, false);
    assert!(zh.contains("快捷键"), "zh title missing:\n{zh}");
    assert!(zh.contains("[空输入时]"), "zh context tag missing:\n{zh}");
    assert!(zh.contains("发送"), "zh send group missing:\n{zh}");
}

#[test]
fn keys_markdown_starts_with_the_header_and_first_group() {
    let md = keys_markdown(false, false);
    assert!(md.starts_with(
        "## keys — shortcut map\n\nDual-use keys: `[empty]` scrolls, `[typing]` edits.\n\n### send · interrupt\n\n- enter · send · follow-ups queue while a turn runs\n"
    ));
    assert!(md.contains("\n\n### scroll · navigate\n\n- ↑ [empty] · previous prompt\n"));
    assert!(md.ends_with("- shift+drag · terminal-native selection\n"));
    assert_eq!(key_rows().len(), KEY_ROW_COUNT);
    assert_eq!(CtxNote::Typing.tag(true), "[输入时]");
    assert_eq!(CtxNote::Always.tag(false), "");
}

#[test]
fn rescue_adds_held_modifiers_only_to_bare_navigation_keys() {
    let cmd = ModifierState { command: true, option: true };
    let opt = ModifierState { command: false, option: true };
    let out = rescue_with(key(KeyCode::Left, KeyModifiers::none()), cmd);
    assert_eq!(out.modifiers, KeyModifiers::super_key());
    let out = rescue_with(key(KeyCode::Backspace, KeyModifiers::none()), opt);
    assert_eq!(out.modifiers, KeyModifiers::alt());
    let typed = key(KeyCode::Char('a'), KeyModifiers::none());
    assert_eq!(rescue_with(typed, cmd), typed);
    let chord = key(KeyCode::Left, KeyModifiers::control());
    assert_eq!(rescue_with(chord, cmd), chord);
    let bare = key(KeyCode::Up, KeyModifiers::none());
    assert_eq!(rescue_with(bare, ModifierState::default()), bare);
}

#[test]
fn keys_markdown_renders_within_the_terminal_width() {
    for width in [80usize, 120] {
        for zh in [false, true] {
            for mac in [false, true] {
                let md = keys_markdown(zh, mac);
                let lines: Vec<&str> = md.lines().collect();
                assert!(!lines.is_empty());
                for line in lines {
                    let w = line.width();
                    assert!(w <= width, "rendered keys line is {w} wide at {width} ({zh}, mac={mac}): {line:?}");
                }
            }
        }
    }
}
