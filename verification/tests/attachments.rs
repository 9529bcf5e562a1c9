use dsh_tui::attachments::{delete_token_at, preview_chip, Staged, KITTY_ID_BASE, MAX_STAGED};
use dsh_tui::editor::Input;

fn png() -> Vec<u8> {
    vec![0x89, b'P', b'N', b'G', b'\r', b'\n', 0x1a, b'\n', 0, 1]
}

#[test]
fn add_mints_sequential_tokens_and_ids() {
    let mut s = Staged::default();
    let a = s.add("a.png".into(), "/tmp/a.png".into(), "image/png".into(), png()).unwrap();
    assert_eq!(a.token, "[image 1]");
    assert_eq!(a.id, KITTY_ID_BASE + 1);
    assert!(a.is_png());
    let b = s.add("b.gif".into(), "/tmp/b.gif".into(), "image/gif".into(), b"GIF89a".to_vec()).unwrap();
    assert_eq!(b.token, "[image 2]");
    assert!(!b.is_png());
    assert_eq!(s.len(), 2);
    assert_eq!(s.iter().count(), 2);
    assert_eq!(s.get(1).unwrap().name, "b.gif");
    assert!(s.get(2).is_none());
}

#[test]
fn full_tray_refuses_another_image() {
    let mut s = Staged::new();
    for _ in 0..MAX_STAGED {
        assert!(s.add("x".into(), "p".into(), "image/png".into(), vec![]).is_ok());
    }
    let err = s.add("x".into(), "p".into(), "image/png".into(), vec![]).err().unwrap();
    assert_eq!(err, "attachment tray is full — send or remove an [image] chip first");
    assert_eq!(s.len(), MAX_STAGED);
}

#[test]
fn tokens_are_not_reindexed_after_remove() {
    let mut s = Staged::new();
    s.add("a".into(), "p".into(), "m".into(), vec![]).unwrap();
    s.add("b".into(), "p".into(), "m".into(), vec![]).unwrap();
    let gone = s.remove(0).unwrap();
    assert_eq!(gone.token, "[image 1]");
    assert!(s.remove(5).is_none());
    let c = s.add("c".into(), "p".into(), "m".into(), vec![]).unwrap();
    assert_eq!(c.token, "[image 3]");
}

#[test]
fn reconcile_drops_tokens_edited_out_of_the_draft() {
    let mut s = Staged::new();
    for n in ["a", "b", "c"] {
        s.add(n.into(), "p".into(), "m".into(), vec![]).unwrap();
    }
    let dropped = s.reconcile("look [image 3] and [image 1]");
    assert_eq!(dropped, 1);
    let names: Vec<&str> = s.iter().map(|a| a.name.as_str()).collect();
    assert_eq!(names, ["a", "c"]);
    let all = s.drain();
    assert_eq!(all.len(), 2);
    assert!(s.is_empty());
}

#[test]
fn tokens_past_nine_use_two_digits() {
    let mut s = Staged::new();
    for _ in 0..12 {
        s.add("x".into(), "p".into(), "m".into(), vec![]).unwrap();
        s.remove(0);
    }
    let t = s.add("y".into(), "p".into(), "m".into(), vec![]).unwrap();
    assert_eq!(t.token, "[image 13]");
}

fn two_images() -> Staged {
    let mut s = Staged::default();
    s.add("a.png".into(), "/tmp/a.png".into(), "image/png".into(), png()).unwrap();
    s.add("b.png".into(), "/tmp/b.png".into(), "image/png".into(), png()).unwrap();
    s
}

#[test]
fn chip_spans_follow_the_draft_order() {
    let s = two_images();
    assert_eq!(s.token_spans("see [image 1] and [image 2]"), vec![(4, 13, 0), (18, 27, 1)]);
    assert_eq!(s.token_spans("[image 2] then [image 1]"), vec![(0, 9, 1), (15, 24, 0)]);
    assert_eq!(s.token_spans("only [image 2]"), vec![(5, 14, 1)]);
    assert_eq!(s.token_spans("[image 1] [image 1]"), vec![(0, 9, 0)]);
    assert!(s.token_spans("no chips").is_empty());
}

#[test]
fn backspace_into_a_chip_cuts_the_whole_token() {
    let mut s = two_images();
    let mut input = Input::new();
    input.set("see [image 1] and [image 2]".to_string());
    let removed = delete_token_at(&mut input, &mut s, 13, true).unwrap();
    assert_eq!(removed.name, "a.png");
    assert_eq!(input.buf, "see  and [image 2]");
    assert_eq!(input.cursor, 4);
    assert_eq!(s.len(), 1);
    assert_eq!(s.get(0).unwrap().token, "[image 2]");
}

#[test]
fn delete_forward_cuts_the_chip_at_the_cursor() {
    let mut s = two_images();
    let mut input = Input::new();
    input.set("see [image 1] and [image 2]".to_string());
    assert!(delete_token_at(&mut input, &mut s, 13, false).is_none());
    assert_eq!(input.buf, "see [image 1] and [image 2]");
    let removed = delete_token_at(&mut input, &mut s, 18, false).unwrap();
    assert_eq!(removed.token, "[image 2]");
    assert_eq!(input.buf, "see [image 1] and ");
    assert_eq!(input.cursor, 18);
    assert_eq!(s.len(), 1);
}

#[test]
fn deletion_outside_chips_changes_nothing() {
    let mut s = two_images();
    let mut input = Input::new();
    input.set("[image 1]".to_string());
    assert!(delete_token_at(&mut input, &mut s, 0, true).is_none());
    assert!(delete_token_at(&mut input, &mut s, 9, false).is_none());
    assert_eq!(input.buf, "[image 1]");
    assert_eq!(input.cursor, 9);
    assert_eq!(s.len(), 2);
}

#[test]
fn preview_prefers_hover_then_the_chip_at_the_cursor() {
    let s = two_images();
    let text = "see [image 1] and [image 2]";
    assert_eq!(preview_chip(Some(1), text, &s, 0), Some(1));
    assert_eq!(preview_chip(None, text, &s, 13), Some(0));
    assert_eq!(preview_chip(None, text, &s, 18), Some(1));
    assert_eq!(preview_chip(None, text, &s, 15), None);
}
