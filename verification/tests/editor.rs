use dsh_tui::editor::Input;

fn editor(text: &str) -> Input {
    let mut i = Input::new();
    i.set(text.into());
    i
}

#[test]
fn word_motions_hop_whitespace_delimited_words() {
    let mut i = editor("hello brave world");
    assert_eq!(i.next_word(), 17, "already at end");
    i.cursor = 0;
    assert_eq!(i.next_word(), 5);
    i.cursor = 5;
    assert_eq!(i.next_word(), 11);
    i.cursor = 17;
    assert_eq!(i.prev_word(), 12);
    i.cursor = 12;
    assert_eq!(i.prev_word(), 6);
}

#[test]
fn kill_commands_split_at_cursor() {
    let mut i = editor("hello world");
    i.cursor = 6;
    i.kill_to_start();
    assert_eq!(i.buf, "world");
    assert_eq!(i.cursor, 0);

    let mut i = editor("hello world");
    i.cursor = 5;
    i.kill_to_end();
    assert_eq!(i.buf, "hello");
}

#[test]
fn delete_forward_and_multibyte_safety() {
    let mut i = editor("a中b");
    i.cursor = 1;
    i.delete_forward();
    assert_eq!(i.buf, "ab");
    assert_eq!(i.cursor, 1);
    i.delete_forward();
    assert_eq!(i.buf, "a");
    i.delete_forward();
    assert_eq!(i.buf, "a", "at end: no-op");
}

#[test]
fn delete_word_back_eats_trailing_whitespace_then_word() {
    let mut i = editor("one two   ");
    i.delete_word_back();
    assert_eq!(i.buf, "one ");
    assert_eq!(i.cursor, 4);
}

#[test]
fn insert_then_backspace_restores_the_draft() {
    let mut i = editor("héllo");
    i.cursor = 2;
    i.insert('中');
    assert_eq!(i.buf, "hé中llo");
    assert_eq!(i.cursor, 3);
    i.backspace();
    assert_eq!(i.buf, "héllo");
    assert_eq!(i.cursor, 2);
}

#[test]
fn insert_str_at_cursor_and_past_end() {
    let mut i = editor("ab");
    i.cursor = 1;
    i.insert_str("XY");
    assert_eq!(i.buf, "aXYb");
    assert_eq!(i.cursor, 3);
    let mut j = editor("ab");
    j.cursor = 9;
    j.insert('c');
    assert_eq!(j.buf, "abc");
    assert_eq!(j.cursor, 10);
}

#[test]
fn backspace_at_zero_is_a_no_op_and_clear_resets() {
    let mut i = editor("abc");
    i.cursor = 0;
    i.backspace();
    assert_eq!(i.buf, "abc");
    assert_eq!(i.cursor, 0);
    assert_eq!(i.len_chars(), 3);
    assert!(!i.is_empty());
    i.hist_pos = Some(1);
    i.clear();
    assert!(i.is_empty());
    assert_eq!(i.cursor, 0);
    assert_eq!(i.hist_pos, None);
}

#[test]
fn word_motions_treat_unicode_spaces_as_separators() {
    let mut i = editor("a\u{3000}bc");
    i.cursor = 0;
    assert_eq!(i.next_word(), 1);
    i.cursor = 4;
    assert_eq!(i.prev_word(), 2);
}

fn with_history(entries: &[&str]) -> Input {
    let mut input = Input::new();
    input.history = entries.iter().map(|e| e.to_string()).collect();
    input
}

#[test]
fn history_opens_from_an_empty_draft_and_walks_back() {
    let mut input = with_history(&["first", "second"]);
    input.history_prev();
    assert_eq!(input.buf, "second");
    assert_eq!(input.hist_pos, Some(1));
    assert_eq!(input.cursor, 6);
    input.history_prev();
    assert_eq!(input.buf, "first");
    input.history_prev();
    assert_eq!(input.buf, "first");
    assert_eq!(input.hist_pos, Some(0));
    input.history_next();
    assert_eq!(input.buf, "second");
    input.history_next();
    assert_eq!(input.buf, "");
    assert_eq!(input.hist_pos, None);
    input.history_next();
    assert_eq!(input.buf, "");
}

#[test]
fn history_leaves_a_typed_draft_alone() {
    let mut input = with_history(&["first"]);
    input.set("draft".to_string());
    input.history_prev();
    assert_eq!(input.buf, "draft");
    assert_eq!(input.hist_pos, None);
    let mut empty = with_history(&[]);
    empty.history_prev();
    assert_eq!(empty.hist_pos, None);
}

#[test]
fn history_returns_the_stashed_draft() {
    let mut input = with_history(&["old"]);
    input.stash = "left over".to_string();
    input.history_prev();
    assert_eq!(input.stash, "");
    input.history_next();
    assert_eq!(input.buf, "");
    assert_eq!(input.stash, "");
}

#[test]
fn backspace_undoes_insert_anywhere_in_the_buffer() {
    for at in 0..=3usize {
        let mut input = dsh_tui::editor::Input::new();
        input.set("abc".to_string());
        input.cursor = at;
        input.insert('中');
        input.backspace();
        assert_eq!(input.buf, "abc");
        assert_eq!(input.cursor, at);
    }
}
