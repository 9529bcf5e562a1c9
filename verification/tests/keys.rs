use dsh_tui::input::keys::{decode_csi_u_key, decode_leaked_csi_u_keys, parse_u32, KeyCode, KeyEvent, KeyEventKind, KeyModifiers};

fn mods(shift: bool, alt: bool, control: bool) -> KeyModifiers {
    KeyModifiers { shift, alt, control, super_key: false, hyper: false, meta: false }
}

#[test]
fn csi_u_plain_character_is_a_press() {
    assert_eq!(
        decode_csi_u_key("97"),
        Some((KeyEvent { code: KeyCode::Char('a'), modifiers: KeyModifiers::none() }, KeyEventKind::Press))
    );
}

#[test]
fn csi_u_modifier_mask_is_sent_plus_one() {
    assert_eq!(
        decode_csi_u_key("97;5"),
        Some((KeyEvent { code: KeyCode::Char('a'), modifiers: mods(false, false, true) }, KeyEventKind::Press))
    );
    assert_eq!(
        decode_csi_u_key("97;8"),
        Some((KeyEvent { code: KeyCode::Char('a'), modifiers: mods(true, true, true) }, KeyEventKind::Press))
    );
    let all = decode_csi_u_key("97;64").unwrap().0.modifiers;
    assert!(all.shift && all.alt && all.control && all.super_key && all.hyper && all.meta);
    assert_eq!(decode_csi_u_key("97;0"), None);
}

#[test]
fn csi_u_special_code_points_and_kinds() {
    assert_eq!(
        decode_csi_u_key("9;2"),
        Some((KeyEvent { code: KeyCode::BackTab, modifiers: mods(true, false, false) }, KeyEventKind::Press))
    );
    assert_eq!(decode_csi_u_key("9").unwrap().0.code, KeyCode::Tab);
    assert_eq!(decode_csi_u_key("27").unwrap().0.code, KeyCode::Esc);
    assert_eq!(decode_csi_u_key("127").unwrap().0.code, KeyCode::Backspace);
    assert_eq!(
        decode_csi_u_key("13;1:3"),
        Some((KeyEvent { code: KeyCode::Enter, modifiers: KeyModifiers::none() }, KeyEventKind::Release))
    );
    assert_eq!(decode_csi_u_key("97;1:2").unwrap().1, KeyEventKind::Repeat);
    assert_eq!(decode_csi_u_key("97;1:1").unwrap().1, KeyEventKind::Press);
    assert_eq!(decode_csi_u_key("97:65").unwrap().0.code, KeyCode::Char('a'));
}

#[test]
fn csi_u_refuses_malformed_reports() {
    assert_eq!(decode_csi_u_key(""), None);
    assert_eq!(decode_csi_u_key("x"), None);
    assert_eq!(decode_csi_u_key("97;5:4"), None);
    assert_eq!(decode_csi_u_key("97;5:1:1"), None);
    assert_eq!(decode_csi_u_key("97;5;97"), None);
    assert_eq!(decode_csi_u_key("55296"), None);
    assert_eq!(decode_csi_u_key("1114112"), None);
    assert_eq!(decode_csi_u_key("4294967296"), None);
}

#[test]
fn parse_u32_matches_std() {
    for text in ["0", "42", "+7", "4294967295", "4294967296", "", "+", "-1", " 1", "1a", "007"] {
        let chars: Vec<char> = text.chars().collect();
        assert_eq!(parse_u32(&chars), text.parse::<u32>().ok(), "{text:?}");
    }
}

#[test]
fn leaked_csi_u_paste_recovers_every_key() {
    let keys = decode_leaked_csi_u_keys("\u{1b}[97;5u\u{1b}[13u").unwrap();
    assert_eq!(keys.len(), 2);
    assert_eq!(keys[0].0, KeyEvent { code: KeyCode::Char('a'), modifiers: mods(false, false, true) });
    assert_eq!(keys[1].0.code, KeyCode::Enter);
}

#[test]
fn leaked_csi_u_paste_needs_the_whole_text() {
    assert_eq!(decode_leaked_csi_u_keys(""), None);
    assert_eq!(decode_leaked_csi_u_keys("hello"), None);
    assert_eq!(decode_leaked_csi_u_keys("\u{1b}[97u x"), None);
    assert_eq!(decode_leaked_csi_u_keys("\u{1b}[97"), None);
    assert_eq!(decode_leaked_csi_u_keys("\u{1b}[97;5;1u"), None);
}
