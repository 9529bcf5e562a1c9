use std::sync::Arc;

use dsh_tui::app::{
    agent_modes, byte_of, find_bytes, hex_seconds, media_type_for, model_presets, normalize_permission,
    permission_label, permission_picker_items, permission_presets, select_initial_index, shell_quote, short_id,
    slash_commands, slice_by_cells, split_draft_into_staged_blocks, timestamp, token_spans_in, trim_staged_blocks,
    ui_session, unique_session_list_match, word_span, SelPoint, Selection, SelectOption, SelectOverlay, StagedBlock,
};
use dsh_tui::attachments::Attachment;
use dsh_tui::bus::{CatalogPreset, SessionListItem};
use dsh_tui::events::UiEvent;
use dsh_tui::app::{effort_picker, mode_picker, model_picker, permission_picker, Modes, Picker, PickerKind};
use dsh_tui::app::{auth_picker, cordis_approval_picker, cordis_plugin_picker, static_plugin_picker, subagent_switcher, SubagentView};
use dsh_tui::acp_auth::{AuthMethodInfo, AuthSnapshot, AuthStatus};
use dsh_tui::app::{AppEffect, AppState, RunState};
use dsh_tui::app::{picker_choice, PickerChoice, PickerContext, PickerItem};
use dsh_tui::app::{overlay_update, OpenOverlay, OverlayRequest};
use dsh_tui::app::take_shell_cell;
use dsh_tui::bus::CtlEvent;
use dsh_tui::bus::{CordisPluginItem, StaticPluginItem};
use dsh_tui::app::{cordis_plugin_action, keys_view, CordisPluginAction, PickerStep, SelectStep, ViewNode, ViewOverlay, ViewStep};
use dsh_tui::bus::Cmd;
use dsh_tui::locale::Locale;
use dsh_tui::input::keys::{KeyCode, KeyEvent, KeyModifiers};

fn att(n: u32) -> Attachment {
    Attachment {
        id: n,
        token: format!("[image {n}]"),
        name: format!("{n}.png"),
        path: String::new(),
        media_type: "image/png".into(),
        data: Arc::new(vec![n as u8]),
    }
}

fn texts(blocks: &[StagedBlock]) -> Vec<String> {
    blocks
        .iter()
        .map(|b| match b {
            StagedBlock::Text(t) => format!("T:{t}"),
            StagedBlock::Image(a) => format!("I:{}", a.token),
        })
        .collect()
}

#[test]
fn command_tables_hold_the_builtin_menu() {
    let cmds = slash_commands();
    assert_eq!(cmds.len(), 21);
    assert_eq!(cmds[0].name, "help");
    assert_eq!(cmds[20].usage, "/quit");
    assert!(cmds.iter().any(|c| c.name == "permission" && c.desc.contains("shift+tab")));
    assert_eq!(model_presets()[0], "deepseek-v4-flash");
    assert_eq!(agent_modes()[3].0, "cordis");
    assert_eq!(permission_presets().len(), 3);
}

#[test]
fn permission_spellings_normalize_to_stock_ids() {
    assert_eq!(normalize_permission("  FULL "), Some("danger-full-access"));
    assert_eq!(normalize_permission("ws"), Some("workspace-write"));
    assert_eq!(normalize_permission("ReadOnly"), Some("read-only"));
    assert_eq!(normalize_permission("sandbox"), Some("workspace-write"));
    assert_eq!(normalize_permission("yolo"), Some("danger-full-access"));
    assert_eq!(normalize_permission("custom-preset"), None);
}

#[test]
fn permission_labels_title_case_kebab_keys() {
    assert_eq!(permission_label("danger-full-access"), "Full access");
    assert_eq!(permission_label("read-only"), "Read Only");
    assert_eq!(permission_label("workspace-write"), "Workspace Write");
    assert_eq!(permission_label("tier2-x"), "Tier2 X");
    assert_eq!(permission_label("Custom"), "Custom");
    assert_eq!(permission_label("a--b"), "a--b");
    assert_eq!(permission_label(""), "");
}

#[test]
fn permission_picker_marks_current_and_default() {
    let modes = vec![
        CatalogPreset { id: "read-only".into(), name: "RO".into(), description: "ro".into(), broken: false },
        CatalogPreset { id: "workspace-write".into(), name: "WS".into(), description: "ws".into(), broken: false },
    ];
    let reported = permission_picker_items(&modes, Some("workspace-write"), "read-only");
    assert_eq!(reported[0].meta, "ro");
    assert_eq!(reported[1].meta, "ws · current");
    assert_eq!(reported[1].label, "Workspace Write");
    let unreported = permission_picker_items(&modes, None, "read-only");
    assert_eq!(unreported[0].meta, "ro · default");
    assert_eq!(unreported[1].meta, "ws");
}

#[test]
fn media_types_follow_the_extension() {
    assert_eq!(media_type_for("/a/b.PNG"), Some("image/png"));
    assert_eq!(media_type_for("x.jpeg"), Some("image/jpeg"));
    assert_eq!(media_type_for("x.tar.gif"), Some("image/gif"));
    assert_eq!(media_type_for("webp"), Some("image/webp"));
    assert_eq!(media_type_for("x.bmp"), None);
}

#[test]
fn selection_orders_its_endpoints() {
    let a = SelPoint { line: 3, col: 5 };
    let b = SelPoint { line: 3, col: 2 };
    let s = Selection { anchor: a, head: b };
    assert_eq!(s.ordered(), (b, a));
    let s = Selection { anchor: b, head: SelPoint { line: 4, col: 0 } };
    assert_eq!(s.ordered(), (b, SelPoint { line: 4, col: 0 }));
    assert!(Selection { anchor: a, head: a }.is_caret());
    assert!(!s.is_caret());
}

#[test]
fn select_overlay_starts_on_its_value_when_well_formed() {
    let opt = |v: &str| SelectOption { value: v.into(), label: v.to_uppercase(), description: None };
    let mut s = SelectOverlay { id: "x".into(), title: "T".into(), value: "b".into(), options: vec![opt("a"), opt("b")], sel: 0 };
    assert_eq!(select_initial_index(&s), Some(1));
    s.value = "zz".into();
    assert_eq!(select_initial_index(&s), None);
    s.value = "a".into();
    s.options.push(opt("a"));
    assert_eq!(select_initial_index(&s), None, "duplicate values are malformed");
    s.options.pop();
    s.title = String::new();
    assert_eq!(select_initial_index(&s), None);
}

#[test]
fn short_ids_and_shell_quoting() {
    assert_eq!(short_id("0123456789abcdef"), "01234567");
    assert_eq!(short_id("abc"), "abc");
    assert_eq!(shell_quote("it's"), "'it'\\\"'\\\"'s'");
    assert_eq!(shell_quote("plain"), "'plain'");
}

#[test]
fn byte_search_and_offsets() {
    assert_eq!(find_bytes(b"hello world", b"o w"), Some(4));
    assert_eq!(find_bytes(b"aaa", b"aaaa"), None);
    assert_eq!(find_bytes(b"abab", b"ab"), Some(0));
    assert_eq!(byte_of("a中b", 0), 0);
    assert_eq!(byte_of("a中b", 2), 4);
    assert_eq!(byte_of("a中b", 9), 5);
}

#[test]
fn token_spans_are_char_positions_in_order() {
    let atts = vec![att(2), att(1)];
    let spans = token_spans_in("中 [image 1] x [image 2]", &atts);
    assert_eq!(spans, vec![(2, 11, 1), (14, 23, 0)]);
    assert!(token_spans_in("nothing here", &atts).is_empty());
}

#[test]
fn drafts_split_into_text_and_image_blocks() {
    let blocks = split_draft_into_staged_blocks("  see [image 1] and [image 2]  ", vec![att(1), att(2)]);
    assert_eq!(texts(&blocks), vec!["T:see", "I:[image 1]", "T: and ", "I:[image 2]"]);
    let blocks = split_draft_into_staged_blocks("[image 2]", vec![att(1), att(2)]);
    assert_eq!(texts(&blocks), vec!["I:[image 2]"]);
    let mut raw = vec![StagedBlock::Text("  ".into()), StagedBlock::Text(" hi ".into()), StagedBlock::Text(String::new())];
    trim_staged_blocks(&mut raw);
    assert_eq!(texts(&raw), vec!["T:hi"]);
}

#[test]
fn resume_prefixes_resolve_uniquely() {
    let list: Vec<SessionListItem> = ["abc123", "abd456", "abc"]
        .iter()
        .map(|id| SessionListItem { id: id.to_string(), title: None, updated_at: None })
        .collect();
    assert_eq!(unique_session_list_match(&list, "abd"), Ok("abd456".into()));
    assert_eq!(unique_session_list_match(&list, "abc"), Ok("abc".into()));
    assert_eq!(
        unique_session_list_match(&list, "ab"),
        Err("“ab” is ambiguous (3 matches) — /resume lists them".into())
    );
    assert_eq!(
        unique_session_list_match(&list, "zz"),
        Err("no session matches “zz” — /resume lists them".into())
    );
}

#[test]
fn timestamps_are_lower_hex_seconds() {
    assert_eq!(hex_seconds(0), "0");
    assert_eq!(hex_seconds(0x65a1b2c3), "65a1b2c3");
    let now = timestamp();
    assert!(!now.is_empty() && now.chars().all(|c| c.is_ascii_hexdigit() && !c.is_ascii_uppercase()));
}

#[test]
fn cell_slices_keep_straddling_wide_chars() {
    assert_eq!(slice_by_cells("hello world", 6, 11), "world");
    assert_eq!(slice_by_cells("a中b", 1, 2), "中");
    assert_eq!(slice_by_cells("a中b", 2, 4), "中b");
    assert_eq!(slice_by_cells("abc", 5, 9), "");
}

#[test]
fn word_spans_cover_the_clicked_word() {
    assert_eq!(word_span("hello brave world", 7), Some((6, 5, "brave".to_string())));
    assert_eq!(word_span("hello brave world", 5), None);
    assert_eq!(word_span("中文 ok", 1), Some((0, 4, "中文".to_string())));
    assert_eq!(word_span("short", 40), None);
}

#[test]
fn events_name_their_session() {
    let e = UiEvent::TurnStart { session: "s1".into(), turn: 1 };
    assert_eq!(ui_session(&e), Some("s1"));
    assert_eq!(ui_session(&UiEvent::SubagentFinished { child: "c".into() }), None);
}

#[test]
fn shell_output_is_lossy_and_clipped_at_a_char_boundary() {
    assert_eq!(dsh_tui::app::shell_output(b"ok\n".to_vec()), "ok\n");
    assert_eq!(dsh_tui::app::shell_output(vec![b'a', 0xff, b'b']), "a\u{fffd}b");
    let big = "中".repeat(6000).into_bytes();
    let out = dsh_tui::app::shell_output(big);
    assert!(out.ends_with("\n… (truncated)"));
    let kept = out.trim_end_matches("\n… (truncated)");
    assert_eq!(kept.chars().count(), 5461);
    assert!(kept.len() <= 16384);
}

fn preset(id: &str, name: &str) -> dsh_tui::bus::CatalogPreset {
    dsh_tui::bus::CatalogPreset { id: id.into(), name: name.into(), description: String::new(), broken: false }
}

#[test]
fn current_permission_defaults_to_workspace_write() {
    let mut modes = dsh_tui::app::Modes::default();
    assert_eq!(modes.current_permission(), "workspace-write");
    modes.permission = Some("read-only".into());
    assert_eq!(modes.current_permission(), "read-only");
}

#[test]
fn current_mode_prefers_the_choice_then_demo_then_catalog() {
    let mut modes = dsh_tui::app::Modes::default();
    let presets = vec![preset("p1", "One"), preset("p2", "Two")];
    assert_eq!(modes.current_mode(true, &presets), "standard");
    assert_eq!(modes.current_mode(false, &presets), "p1");
    assert_eq!(modes.current_mode(false, &Vec::new()), "");
    modes.agent_preset = Some("p2".into());
    assert_eq!(modes.current_mode(false, &presets), "p2");
}

#[test]
fn agent_labels_resolve_through_catalog_then_stock_modes() {
    let presets = vec![preset("p1", "One")];
    assert_eq!(dsh_tui::app::agent_label("p1", &presets, false), "One");
    assert_eq!(dsh_tui::app::agent_label("code", &presets, true), "Code mode");
    assert_eq!(dsh_tui::app::agent_label("code", &presets, false), "code");
    assert_eq!(dsh_tui::app::agent_label("zzz", &presets, true), "zzz");
}

#[test]
fn agent_cycle_wraps_and_starts_from_the_first() {
    let presets = vec![preset("a", "A"), preset("b", "B")];
    assert_eq!(dsh_tui::app::next_agent_preset("a", false, &presets).as_deref(), Some("b"));
    assert_eq!(dsh_tui::app::next_agent_preset("b", false, &presets).as_deref(), Some("a"));
    assert_eq!(dsh_tui::app::next_agent_preset("x", false, &presets).as_deref(), Some("a"));
    assert_eq!(dsh_tui::app::next_agent_preset("a", false, &Vec::new()), None);
    assert_eq!(dsh_tui::app::next_agent_preset("cordis", true, &presets).as_deref(), Some("standard"));
    assert_eq!(dsh_tui::app::next_agent_preset("standard", true, &presets).as_deref(), Some("code"));
}

#[test]
fn permission_cycle_uses_advertised_presets_when_two_or_more() {
    let choices = vec![preset("x", "X"), preset("y", "Y")];
    assert_eq!(dsh_tui::app::next_permission("x", &choices), "y");
    assert_eq!(dsh_tui::app::next_permission("y", &choices), "x");
    assert_eq!(dsh_tui::app::next_permission("nope", &choices), "y");
    let one = vec![preset("x", "X")];
    assert_eq!(dsh_tui::app::next_permission("read-only", &one), "workspace-write");
    assert_eq!(dsh_tui::app::next_permission("danger-full-access", &Vec::new()), "read-only");
    assert_eq!(dsh_tui::app::next_permission("other", &Vec::new()), "workspace-write");
}

fn picker_of(n: usize) -> dsh_tui::app::Picker {
    dsh_tui::app::Picker {
        kind: dsh_tui::app::PickerKind::Model,
        title: "t".into(),
        sel: 0,
        items: (0..n)
            .map(|i| dsh_tui::app::PickerItem { id: format!("id{i}"), label: format!("L{i}"), meta: String::new(), provider: None })
            .collect(),
    }
}

#[test]
fn picker_arrows_wrap_and_page_keys_clamp() {
    let mut p = picker_of(5);
    assert!(matches!(p.navigate(KeyCode::Up, 2), PickerStep::Stay));
    assert_eq!(p.sel, 4);
    p.navigate(KeyCode::Down, 2);
    assert_eq!(p.sel, 0);
    p.navigate(KeyCode::PageDown, 3);
    assert_eq!(p.sel, 3);
    p.navigate(KeyCode::PageDown, 3);
    assert_eq!(p.sel, 4);
    p.navigate(KeyCode::PageUp, 10);
    assert_eq!(p.sel, 0);
    p.navigate(KeyCode::End, 0);
    assert_eq!(p.sel, 4);
    p.navigate(KeyCode::Home, 0);
    assert_eq!(p.sel, 0);
    p.navigate(KeyCode::Char('x'), 1);
    assert_eq!(p.sel, 0);
    match p.navigate(KeyCode::Enter, 1) {
        PickerStep::Choose(item) => assert_eq!(item.id, "id0"),
        _ => panic!("expected a choice"),
    }
    assert!(matches!(p.navigate(KeyCode::Esc, 1), PickerStep::Close));
    let mut empty = picker_of(0);
    empty.navigate(KeyCode::Up, 1);
    assert_eq!(empty.sel, 0);
    assert!(matches!(empty.navigate(KeyCode::Enter, 1), PickerStep::Close));
}

#[test]
fn cordis_plugin_rows_choose_their_action() {
    let item = |id: &str, status: &str, approval: Option<&str>| dsh_tui::bus::CordisPluginItem {
        id: id.into(),
        name: id.into(),
        package_id: "k".into(),
        status: status.into(),
        approval_request_id: approval.map(str::to_string),
    };
    let plugins = vec![
        item("a", "waiting", Some("ap-1")),
        item("b", "starting-host", None),
        item("c", "running", None),
        item("d", "stopped", None),
    ];
    assert!(matches!(cordis_plugin_action(&plugins, "a"), CordisPluginAction::Approve(r) if r == "ap-1"));
    assert!(matches!(cordis_plugin_action(&plugins, "b"), CordisPluginAction::AlreadyStarting(p) if p == "b"));
    assert!(matches!(cordis_plugin_action(&plugins, "c"), CordisPluginAction::SetEnabled { enabled: false, .. }));
    assert!(matches!(cordis_plugin_action(&plugins, "d"), CordisPluginAction::SetEnabled { enabled: true, .. }));
    assert!(matches!(cordis_plugin_action(&plugins, "z"), CordisPluginAction::Unknown));
}

#[test]
fn select_overlay_keys_submit_cancel_and_change() {
    let opt = |v: &str| SelectOption { value: v.into(), label: v.to_uppercase(), description: None };
    let mut s = SelectOverlay { id: "s".into(), title: "T".into(), value: "a".into(), options: vec![opt("a"), opt("b")], sel: 0 };
    let k = |code| KeyEvent { code, modifiers: KeyModifiers::none() };
    assert!(matches!(s.handle_key(k(KeyCode::Up)), SelectStep::Nothing));
    assert!(matches!(s.handle_key(k(KeyCode::Down)), SelectStep::Change(v) if v == "b"));
    assert_eq!(s.value, "b");
    assert!(matches!(s.handle_key(k(KeyCode::Down)), SelectStep::Nothing));
    assert!(matches!(s.handle_key(KeyEvent { code: KeyCode::Home, modifiers: KeyModifiers::control() }), SelectStep::Nothing));
    assert_eq!(s.sel, 1);
    assert!(matches!(s.handle_key(k(KeyCode::Home)), SelectStep::Change(v) if v == "a"));
    assert!(matches!(s.handle_key(k(KeyCode::Enter)), SelectStep::Submit(v) if v == "a"));
    assert!(matches!(s.handle_key(k(KeyCode::Esc)), SelectStep::Cancel(v) if v == "a"));
}

fn plan_skill(action: Option<(&str, &str, Option<&str>)>) -> dsh_tui::bus::SkillInfo {
    dsh_tui::bus::SkillInfo {
        name: "plan".into(),
        description: "plan mode".into(),
        config_action: action.map(|(id, v, r)| dsh_tui::bus::CommandConfigAction {
            config_id: id.into(),
            value: v.into(),
            reset_value: r.map(str::to_string),
        }),
        client_command: false,
    }
}

#[test]
fn plan_switches_the_declared_option_or_sends_the_command() {
    use_plan_command(vec![plan_skill(Some(("collaboration_mode", "plan", Some("default"))))]);
}

fn use_plan_command(skills: Vec<dsh_tui::bus::SkillInfo>) {
    use_plan_case(&skills, false, "", Some(("collaboration_mode", "plan")), "");
    use_plan_case(&skills, true, "", Some(("collaboration_mode", "default")), "");
    use_plan_case(&skills, true, "on", Some(("collaboration_mode", "plan")), "");
    use_plan_case(&skills, false, "off", Some(("collaboration_mode", "default")), "");
    use_plan_case(&skills, false, "write tests", None, "/plan write tests");
    use_plan_case(&Vec::new(), false, "", None, "/plan");
    use_plan_case(&vec![plan_skill(None), plan_skill(Some(("x", "y", None)))], false, "", None, "/plan");
    use_plan_case(&vec![plan_skill(Some(("x", "y", None)))], true, "", None, "/plan");
}

fn use_plan_case(skills: &Vec<dsh_tui::bus::SkillInfo>, active: bool, arg: &str, set: Option<(&str, &str)>, text: &str) {
    match (dsh_tui::app::plan_command(skills, active, arg), set) {
        (dsh_tui::app::PlanCommand::SetConfigOption { config_id, value }, Some((id, v))) => {
            assert_eq!(config_id, id);
            assert_eq!(value, v);
        }
        (dsh_tui::app::PlanCommand::SendText(t), None) => assert_eq!(t, text),
        _ => panic!("unexpected /plan outcome for {arg:?}"),
    }
}

#[test]
fn liang_argument_shows_hides_or_toggles() {
    assert!(dsh_tui::app::liang_visible("on", false));
    assert!(dsh_tui::app::liang_visible("show", false));
    assert!(!dsh_tui::app::liang_visible("hide", true));
    assert!(!dsh_tui::app::liang_visible("", true));
    assert!(dsh_tui::app::liang_visible("x", false));
}

fn plugin_view() -> ViewOverlay {
    ViewOverlay { id: "weather".into(), title: "Weather".into(), nodes: Vec::new(), scroll: 3, notify_plugin: true }
}

#[test]
fn view_keys_scroll_with_any_modifiers() {
    let mut v = plugin_view();
    assert!(matches!(v.handle_key(KeyEvent { code: KeyCode::Down, modifiers: KeyModifiers::control() }), ViewStep::Stay));
    assert_eq!(v.scroll, 4);
    assert!(matches!(v.handle_key(KeyEvent { code: KeyCode::PageUp, modifiers: KeyModifiers::none() }), ViewStep::Stay));
    assert_eq!(v.scroll, 0);
    v.handle_key(KeyEvent { code: KeyCode::Up, modifiers: KeyModifiers::none() });
    assert_eq!(v.scroll, 0);
    v.handle_key(KeyEvent { code: KeyCode::PageDown, modifiers: KeyModifiers::none() });
    assert_eq!(v.scroll, 5);
    v.handle_key(KeyEvent { code: KeyCode::End, modifiers: KeyModifiers::none() });
    assert_eq!(v.scroll, usize::MAX);
    v.handle_key(KeyEvent { code: KeyCode::Down, modifiers: KeyModifiers::none() });
    assert_eq!(v.scroll, usize::MAX);
    v.handle_key(KeyEvent { code: KeyCode::Home, modifiers: KeyModifiers::none() });
    assert_eq!(v.scroll, 0);
}

#[test]
fn closing_a_plugin_view_tells_the_plugin() {
    let mut v = plugin_view();
    match v.handle_key(KeyEvent { code: KeyCode::Esc, modifiers: KeyModifiers::none() }) {
        ViewStep::Close(Some(Cmd::PluginOverlayEvent { id, event, value })) => {
            assert_eq!(id, "weather");
            assert_eq!(event, "cancel");
            assert!(value.is_none());
        }
        _ => panic!("expected a cancel event"),
    }
    match v.handle_key(KeyEvent { code: KeyCode::Enter, modifiers: KeyModifiers::none() }) {
        ViewStep::Close(Some(Cmd::PluginOverlayEvent { event, .. })) => assert_eq!(event, "submit"),
        _ => panic!("expected a submit event"),
    }
    assert!(matches!(v.handle_key(KeyEvent { code: KeyCode::Esc, modifiers: KeyModifiers::control() }), ViewStep::Stay));
    assert!(matches!(v.handle_key(KeyEvent { code: KeyCode::Char('q'), modifiers: KeyModifiers::none() }), ViewStep::Stay));
    assert_eq!(v.scroll, 3);
}

#[test]
fn the_keys_view_closes_quietly() {
    let mut v = keys_view(Locale::En, false);
    assert_eq!(v.id, "builtin.keys");
    assert_eq!(v.title, "Keyboard shortcuts");
    assert_eq!(v.nodes.len(), 1);
    match &v.nodes[0] {
        ViewNode::Markdown { id, text, streaming } => {
            assert_eq!(id, "keys");
            assert!(!streaming);
            assert_eq!(text, &dsh_tui::input::keymap::keys_markdown(false, false));
        }
        _ => panic!("expected markdown"),
    }
    assert!(matches!(v.handle_key(KeyEvent { code: KeyCode::Esc, modifiers: KeyModifiers::none() }), ViewStep::Close(None)));
    assert_eq!(keys_view(Locale::Zh, true).title, "快捷键");
}

fn ids(p: &Picker) -> Vec<String> {
    p.items.iter().map(|i| i.id.clone()).collect()
}

#[test]
fn model_picker_puts_a_missing_current_model_first() {
    let p = model_picker(None, "deepseek-v4", Locale::En);
    assert_eq!(p.kind, PickerKind::Model);
    assert_eq!(p.title, " model · enter select · esc close ");
    assert_eq!(ids(&p), vec!["deepseek-v4-flash", "deepseek-v4", "deepseek-v3.2", "deepseek-chat", "deepseek-reasoner"]);
    assert_eq!(p.sel, 1);
    assert_eq!(p.items[1].label, "deepseek-v4");
    let q = model_picker(Some(vec!["a".into(), "b".into()]), "c", Locale::Zh);
    assert_eq!(ids(&q), vec!["c", "a", "b"]);
    assert_eq!(q.sel, 0);
    assert_eq!(q.title, " 模型 · enter 选择 · esc 关闭 ");
}

#[test]
fn effort_picker_marks_the_default_or_offers_stock_efforts() {
    let p = effort_picker(vec!["low".into(), "high".into()], Some("high".into()), Locale::En);
    assert_eq!(ids(&p), vec!["low", "high"]);
    assert_eq!(p.items[0].meta, "");
    assert_eq!(p.items[1].meta, "default");
    assert_eq!(p.sel, 0);
    let q = effort_picker(Vec::new(), None, Locale::Zh);
    assert_eq!(ids(&q), vec!["off", "high", "max"]);
    assert_eq!(q.title, " 推理强度 · enter 选择 · esc 关闭 ");
    let z = effort_picker(vec!["max".into()], Some("max".into()), Locale::Zh);
    assert_eq!(z.items[0].meta, "默认");
}

#[test]
fn mode_picker_opens_on_the_preset_in_effect() {
    let mut modes = Modes::default();
    let demo = mode_picker(&modes, true, &Vec::new(), Locale::En);
    assert_eq!(ids(&demo), vec!["standard", "code", "minimal", "cordis"]);
    assert_eq!(demo.items[2].label, "Minimal mode");
    assert_eq!(demo.sel, 0);
    modes.agent_preset = Some("minimal".into());
    assert_eq!(mode_picker(&modes, true, &Vec::new(), Locale::En).sel, 2);
    let presets = vec![
        CatalogPreset { id: "a".into(), name: "A".into(), description: "first".into(), broken: true },
        CatalogPreset { id: "b".into(), name: "B".into(), description: "second".into(), broken: false },
    ];
    modes.agent_preset = Some("b".into());
    let live = mode_picker(&modes, false, &presets, Locale::Zh);
    assert_eq!(ids(&live), vec!["a", "b"]);
    assert_eq!(live.items[0].meta, "⚠ broken · first");
    assert_eq!(live.items[1].meta, "second");
    assert_eq!(live.sel, 1);
    assert_eq!(live.title, " Agent · enter 选择 · esc 关闭 ");
}

#[test]
fn permission_picker_marks_the_reported_or_default_preset() {
    let mut modes = Modes::default();
    let p = permission_picker(&modes, &Vec::new(), Locale::En);
    assert_eq!(p.kind, PickerKind::Permission);
    assert_eq!(ids(&p), vec!["read-only", "workspace-write", "danger-full-access"]);
    assert_eq!(p.sel, 1);
    assert!(p.items[1].meta.ends_with(" · default"));
    assert_eq!(p.items[1].label, "Workspace Write");
    assert_eq!(p.items[0].meta, "read only — no file writes");
    modes.permission = Some("read-only".into());
    let q = permission_picker(&modes, &Vec::new(), Locale::En);
    assert_eq!(q.sel, 0);
    assert_eq!(q.items[0].meta, "read only — no file writes · current");
    let choices = vec![CatalogPreset { id: "ask".into(), name: "Ask".into(), description: "asks".into(), broken: false }];
    let r = permission_picker(&modes, &choices, Locale::Zh);
    assert_eq!(ids(&r), vec!["ask"]);
    assert_eq!(r.sel, 0);
    assert_eq!(r.title, " 权限 · enter 应用 · esc 关闭 ");
}

fn method(id: &str, name: Option<&str>, kind: &str) -> AuthMethodInfo {
    AuthMethodInfo {
        id: id.into(),
        name: name.map(|n| n.to_string()),
        description: None,
        auth_type: kind.into(),
        form: false,
        vars: Vec::new(),
        link: None,
        terminal_launch: None,
    }
}

#[test]
fn auth_picker_lists_methods_and_opens_on_the_one_in_use() {
    assert!(auth_picker(&AuthSnapshot::none(), Locale::En).is_none());
    let mut snap = AuthSnapshot::none();
    snap.methods = vec![method("key", Some("API key"), "env_var"), method("login", None, "terminal")];
    let p = auth_picker(&snap, Locale::En).unwrap();
    assert_eq!(p.kind, PickerKind::Auth);
    assert_eq!(p.items[0].label, "API key");
    assert_eq!(p.items[1].label, "login");
    assert_eq!(p.items[1].meta, "terminal");
    assert_eq!(p.sel, 0);
    snap.method_id = Some("login".into());
    assert_eq!(auth_picker(&snap, Locale::Zh).unwrap().sel, 1);
    assert_eq!(auth_picker(&snap, Locale::Zh).unwrap().title, " 登录 · enter 选择 · esc 关闭 ");
}

#[test]
fn cordis_approval_picker_offers_three_decisions() {
    let p = cordis_approval_picker("req-7".into(), Locale::En);
    assert_eq!(ids(&p), vec!["allow-version", "allow-future", "reject"]);
    assert!(p.items.iter().all(|i| i.provider.as_deref() == Some("req-7")));
    assert_eq!(p.items[1].label, "Allow future versions");
    assert_eq!(cordis_approval_picker("r".into(), Locale::Zh).items[2].label, "拒绝");
}

#[test]
fn plugin_pickers_describe_each_plugin() {
    let statics = vec![
        StaticPluginItem { entry_id: "e1".into(), module_name: "clock".into(), enabled: true, fiber_phase: Some("running".into()) },
        StaticPluginItem { entry_id: "e2".into(), module_name: "mail".into(), enabled: false, fiber_phase: None },
    ];
    let p = static_plugin_picker(&statics, Locale::En);
    assert_eq!(p.items[0].meta, "static · enabled · running");
    assert_eq!(p.items[1].meta, "static · disabled · inactive");
    assert_eq!(p.items[1].label, "mail");
    let cordis = |status: &str| CordisPluginItem {
        id: status.into(),
        name: "p".into(),
        package_id: "pkg".into(),
        status: status.into(),
        approval_request_id: None,
    };
    let q = cordis_plugin_picker(
        &vec![cordis("awaiting-approval"), cordis("waiting"), cordis("client-pending"), cordis("failed"), cordis("stopped")],
        Locale::En,
    );
    let metas: Vec<&str> = q.items.iter().map(|i| i.meta.as_str()).collect();
    assert_eq!(
        metas,
        vec![
            "dynamic · awaiting approval · enter review",
            "dynamic · running · enter stop",
            "dynamic · starting",
            "dynamic · failed · enter retry",
            "dynamic · stopped · enter restore",
        ]
    );
}

#[test]
fn subagent_switcher_opens_on_the_next_agent() {
    let subs = vec![
        SubagentView { id: "c1".into(), parent: "s".into(), label: "research".into(), running: true },
        SubagentView { id: "c2".into(), parent: "s".into(), label: "tests".into(), running: false },
    ];
    let p = subagent_switcher("s", &subs, None, Locale::En);
    assert_eq!(ids(&p), vec!["s", "c1", "c2"]);
    assert_eq!(p.items[0].label, "main");
    assert_eq!(p.items[1].meta, "running");
    assert_eq!(p.items[2].meta, "finished");
    assert_eq!(p.sel, 1);
    assert_eq!(subagent_switcher("s", &subs, Some("c2"), Locale::En).sel, 0);
    assert_eq!(subagent_switcher("s", &Vec::new(), None, Locale::Zh).sel, 0);
    assert_eq!(subagent_switcher("s", &subs, Some("c1"), Locale::Zh).items[0].label, "主会话");
}

fn app_state() -> AppState {
    AppState {
        demo: false,
        state: RunState::Idle,
        prompt_pending: false,
        queued: 0,
        state_note: String::new(),
        server_info: None,
        session_id: "s0".into(),
        session_bound: false,
        load_session: false,
        skills: Vec::new(),
        last_models: Vec::new(),
        last_presets: Vec::new(),
        permission_choices: Vec::new(),
        effort_choices: Vec::new(),
        modes: Modes::default(),
        auth: AuthSnapshot::none(),
    }
}

#[test]
fn controller_events_move_the_run_state() {
    let mut a = app_state();
    assert!(a.on_ctl(CtlEvent::Starting { runtime: "rt".into() }).is_empty());
    assert_eq!(a.state, RunState::Starting);
    assert_eq!(a.state_note, "starting runtime");
    a.prompt_pending = true;
    a.queued = 2;
    assert!(a.on_ctl(CtlEvent::Ready { server: "dsh 1.0".into() }).is_empty());
    assert_eq!(a.state, RunState::Starting);
    assert_eq!(a.server_info.as_deref(), Some("dsh 1.0"));
    assert!(a.on_ctl(CtlEvent::PromptQueued { message_id: "m".into() }).is_empty());
    assert_eq!(a.state, RunState::Running);
    assert!(!a.prompt_pending);
    assert_eq!(a.queued, 2);
    let fx = a.on_ctl(CtlEvent::PromptQueued { message_id: "m2".into() });
    assert!(matches!(fx[..], [AppEffect::MarkQueuedDelivered]));
    assert_eq!(a.queued, 1);
    let fx = a.on_ctl(CtlEvent::Interrupted);
    assert!(matches!(&fx[..], [AppEffect::CancelOpenWork, AppEffect::Warn(w)] if w == "interrupted — turn cancelled"));
    assert_eq!(a.state, RunState::Idle);
}

#[test]
fn auth_and_session_events_update_what_the_app_knows() {
    let mut a = app_state();
    a.state = RunState::Running;
    let mut snap = AuthSnapshot::none();
    snap.status = AuthStatus::NeedsAuth;
    let expected = snap.notice().unwrap().1;
    let fx = a.on_ctl(CtlEvent::Auth(snap));
    assert!(matches!(&fx[..], [AppEffect::Warn(w)] if *w == expected && !w.is_empty()));
    let mut unknown = AuthSnapshot::none();
    unknown.status = AuthStatus::Unknown;
    let fx = app_state().on_ctl(CtlEvent::Auth(unknown));
    assert!(matches!(&fx[..], [AppEffect::Warn(w)] if w == "no supported ACP auth method is available"));
    assert!(a.prompt_pending);
    assert_eq!(a.state, RunState::Idle);
    let mut ok = AuthSnapshot::none();
    ok.status = AuthStatus::Configured;
    assert!(matches!(a.on_ctl(CtlEvent::Auth(ok))[..], [AppEffect::CloseAuthPicker]));
    let fx = a.on_ctl(CtlEvent::SessionBound { session_id: "s1".into(), notice: Some("hello".into()) });
    assert!(matches!(&fx[..], [AppEffect::ResetSubagents, AppEffect::Info(n), AppEffect::Send(Cmd::FetchSkills)] if n == "hello"));
    assert_eq!(a.session_id, "s1");
    assert!(a.session_bound);
    let fx = a.on_ctl(CtlEvent::SessionBound { session_id: "s1".into(), notice: None });
    assert!(matches!(fx[..], [AppEffect::Send(Cmd::FetchSkills)]));
    let fx = a.on_ctl(CtlEvent::PresetSet { preset: "code".into() });
    assert!(matches!(&fx[..], [AppEffect::Info(t)] if t == "⚙ agent → code · composes on this session's first prompt"));
    assert_eq!(a.modes.agent_preset.as_deref(), Some("code"));
    a.on_ctl(CtlEvent::SessionModes { modes: Vec::new(), current: Some("read-only".into()) });
    assert_eq!(a.modes.permission.as_deref(), Some("read-only"));
    let fx = a.on_ctl(CtlEvent::Efforts { efforts: vec!["low".into()], default: None });
    assert!(matches!(fx[..], [AppEffect::OpenEffortPicker { .. }]));
    assert_eq!(a.effort_choices, vec!["low"]);
}

fn row(id: &str, provider: Option<&str>) -> PickerItem {
    PickerItem { id: id.into(), label: id.into(), meta: String::new(), provider: provider.map(|p| p.to_string()) }
}

fn picker_ctx() -> PickerContext {
    PickerContext {
        session_id: "s".into(),
        model: "m1".into(),
        provider: "p1".into(),
        resume_via_acp: true,
        subagent_ids: vec!["c1".into()],
        cordis_plugins: vec![
            CordisPluginItem { id: "a".into(), name: "A".into(), package_id: "x".into(), status: "running".into(), approval_request_id: None },
            CordisPluginItem { id: "b".into(), name: "B".into(), package_id: "x".into(), status: "stopped".into(), approval_request_id: None },
            CordisPluginItem { id: "c".into(), name: "C".into(), package_id: "x".into(), status: "client-pending".into(), approval_request_id: None },
            CordisPluginItem { id: "d".into(), name: "D".into(), package_id: "x".into(), status: "awaiting-approval".into(), approval_request_id: Some("r9".into()) },
        ],
    }
}

#[test]
fn choosing_a_model_switches_only_when_it_differs() {
    let c = picker_ctx();
    match picker_choice(PickerKind::Model, row("m2", Some("p2")), &c) {
        PickerChoice::Model { switch: Some(Cmd::SelectModel { provider, model, effort, .. }), fetch: Cmd::FetchEfforts { provider: fp, model: fm }, .. } => {
            assert_eq!(provider.as_deref(), Some("p2"));
            assert_eq!(model.as_deref(), Some("m2"));
            assert!(effort.is_none());
            assert_eq!((fp.as_str(), fm.as_str()), ("p2", "m2"));
        }
        _ => panic!("expected a switch"),
    }
    match picker_choice(PickerKind::Model, row("m1", Some("p1")), &c) {
        PickerChoice::Model { switch: None, model, provider, .. } => assert_eq!((model.as_str(), provider.as_str()), ("m1", "p1")),
        _ => panic!("expected no switch"),
    }
    assert!(matches!(picker_choice(PickerKind::Model, row("m1", None), &c), PickerChoice::Model { switch: None, .. }));
}

#[test]
fn choosing_other_rows_picks_their_ids() {
    let mut c = picker_ctx();
    assert!(matches!(picker_choice(PickerKind::Mode, row("code", None), &c), PickerChoice::Mode(m) if m == "code"));
    assert!(matches!(picker_choice(PickerKind::Session, row("s9", None), &c), PickerChoice::LoadSession(x) if x == "s9"));
    c.resume_via_acp = false;
    assert!(matches!(picker_choice(PickerKind::Session, row("s9", None), &c), PickerChoice::ResumeLocal(x) if x == "s9"));
    assert!(matches!(picker_choice(PickerKind::Subagent, row("c1", None), &c), PickerChoice::ViewAgent(Some(x)) if x == "c1"));
    assert!(matches!(picker_choice(PickerKind::Subagent, row("s", None), &c), PickerChoice::ViewAgent(None)));
    assert!(matches!(picker_choice(PickerKind::Subagent, row("zz", None), &c), PickerChoice::ViewAgent(None)));
    match picker_choice(PickerKind::Effort, row("max", None), &c) {
        PickerChoice::Effort { effort, cmd: Cmd::SelectModel { effort: e, model: None, provider: None, .. }, notice } => {
            assert_eq!(effort, "max");
            assert_eq!(e.as_deref(), Some("max"));
            assert_eq!(notice, "reasoning effort → max");
        }
        _ => panic!("expected an effort"),
    }
    assert!(matches!(picker_choice(PickerKind::StaticPlugin, row("x", None), &c), PickerChoice::Nothing));
    assert!(matches!(picker_choice(PickerKind::CordisApproval, row("allow-version", Some("r1")), &c),
        PickerChoice::Decide { request_id, decision } if request_id == "r1" && decision == "allow-version"));
    assert!(matches!(picker_choice(PickerKind::CordisApproval, row("reject", None), &c), PickerChoice::Nothing));
}

#[test]
fn choosing_a_cordis_plugin_follows_its_status() {
    let c = picker_ctx();
    assert!(matches!(picker_choice(PickerKind::CordisPlugin, row("a", None), &c),
        PickerChoice::SetPlugin { cmd: Cmd::SetPluginEnabled { enabled: false, .. }, tip } if tip == "stopping plugin a…"));
    assert!(matches!(picker_choice(PickerKind::CordisPlugin, row("b", None), &c),
        PickerChoice::SetPlugin { cmd: Cmd::SetPluginEnabled { enabled: true, .. }, tip } if tip == "restoring plugin b…"));
    assert!(matches!(picker_choice(PickerKind::CordisPlugin, row("c", None), &c), PickerChoice::Tip(t) if t == "plugin c is already starting"));
    assert!(matches!(picker_choice(PickerKind::CordisPlugin, row("d", None), &c), PickerChoice::ReviewApproval(r) if r == "r9"));
    assert!(matches!(picker_choice(PickerKind::CordisPlugin, row("nope", None), &c), PickerChoice::Nothing));
}

fn overlay_select(value: &str) -> dsh_tui::app::SelectOverlay {
    dsh_tui::app::SelectOverlay {
        id: "pick".into(),
        title: "Pick".into(),
        value: value.into(),
        options: vec![
            dsh_tui::app::SelectOption { value: "a".into(), label: "A".into(), description: None },
            dsh_tui::app::SelectOption { value: "b".into(), label: "B".into(), description: None },
        ],
        sel: 0,
    }
}

#[test]
fn overlay_update_opens_a_select_on_its_value() {
    let u = overlay_update(0, Some(OverlayRequest::Select(overlay_select("b")))).expect("protocol 0 is read");
    assert!(u.tip.is_none());
    match u.open {
        OpenOverlay::Select(s) => {
            assert_eq!(s.sel, 1);
            assert_eq!(s.value, "b");
        }
        _ => panic!("expected the select"),
    }
}

#[test]
fn overlay_update_rejects_a_select_without_its_value() {
    let u = overlay_update(0, Some(OverlayRequest::Select(overlay_select("zz")))).unwrap();
    assert!(matches!(u.open, OpenOverlay::Nothing));
    assert_eq!(u.tip.as_deref(), Some("overlay ignored: invalid select"));
    let mut dup = overlay_select("a");
    dup.options[1].value = "a".into();
    let u = overlay_update(0, Some(OverlayRequest::Select(dup))).unwrap();
    assert_eq!(u.tip.as_deref(), Some("overlay ignored: invalid select"));
}

#[test]
fn overlay_update_slider_view_and_clear() {
    let u = overlay_update(0, Some(OverlayRequest::Slider { well_formed: true })).unwrap();
    assert!(matches!(u.open, OpenOverlay::Slider) && u.tip.is_none());
    let u = overlay_update(0, Some(OverlayRequest::Slider { well_formed: false })).unwrap();
    assert!(matches!(u.open, OpenOverlay::Nothing));
    assert_eq!(u.tip.as_deref(), Some("overlay ignored: invalid slider"));
    let mut view = plugin_view();
    view.notify_plugin = false;
    let u = overlay_update(0, Some(OverlayRequest::View { view, well_formed: true })).unwrap();
    match u.open {
        OpenOverlay::View(v) => {
            assert!(v.notify_plugin);
            assert_eq!(v.id, "weather");
            assert_eq!(v.scroll, 3);
        }
        _ => panic!("expected the view"),
    }
    let mut untitled = plugin_view();
    untitled.title = String::new();
    let u = overlay_update(0, Some(OverlayRequest::View { view: untitled, well_formed: true })).unwrap();
    assert!(matches!(u.open, OpenOverlay::Nothing));
    assert_eq!(u.tip.as_deref(), Some("overlay ignored: invalid view"));
    let u = overlay_update(0, None).unwrap();
    assert!(matches!(u.open, OpenOverlay::Nothing) && u.tip.is_none());
    assert!(overlay_update(1, None).is_none());
    assert!(overlay_update(2, Some(OverlayRequest::Slider { well_formed: true })).is_none());
}

#[test]
fn runtime_exit_idles_and_warns_on_failure() {
    let mut a = app_state();
    a.state = RunState::Running;
    a.prompt_pending = true;
    a.queued = 3;
    a.state_note = "cancelling".into();
    let fx = a.on_runtime_exited(Some(-2));
    assert_eq!(a.state, RunState::Idle);
    assert!(!a.prompt_pending);
    assert_eq!(a.queued, 0);
    assert_eq!(a.state_note, "cancelling");
    assert!(matches!(&fx[..], [AppEffect::DropQueuedCells, AppEffect::Warn(w)]
        if w == "runtime exited with code -2 — next prompt restarts it"));
    let fx = a.on_runtime_exited(Some(137));
    assert!(matches!(&fx[..], [AppEffect::DropQueuedCells, AppEffect::Warn(w)]
        if w == "runtime exited with code 137 — next prompt restarts it"));
    assert!(matches!(a.on_runtime_exited(Some(0))[..], [AppEffect::DropQueuedCells]));
    assert!(matches!(a.on_runtime_exited(None)[..], [AppEffect::DropQueuedCells]));
}

#[test]
fn finished_shell_takes_its_cell_once() {
    let mut pending: Vec<(u64, usize)> = vec![(4, 10), (7, 11), (7, 12)];
    assert_eq!(take_shell_cell(&mut pending, 7), Some(11));
    assert_eq!(pending, vec![(4, 10), (7, 12)]);
    assert_eq!(take_shell_cell(&mut pending, 9), None);
    assert_eq!(pending, vec![(4, 10), (7, 12)]);
    assert_eq!(take_shell_cell(&mut pending, 4), Some(10));
    assert_eq!(pending, vec![(7, 12)]);
}
