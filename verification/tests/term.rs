use dsh_tui::term::append_output;

#[test]
fn output_within_the_limit_is_kept_whole() {
    let mut buf = "ab".to_string();
    assert!(!append_output(&mut buf, b"cd", 4));
    assert_eq!(buf, "abcd");
}

#[test]
fn the_oldest_characters_leave_an_overfull_buffer() {
    let mut buf = "ab".to_string();
    assert!(append_output(&mut buf, b"cd", 3));
    assert_eq!(buf, "bcd");
    let mut wide = "中文".to_string();
    assert!(append_output(&mut wide, b"x", 4));
    assert_eq!(wide, "文x");
    let mut none = "abc".to_string();
    assert!(append_output(&mut none, b"", 0));
    assert_eq!(none, "");
}

#[test]
fn invalid_bytes_arrive_as_replacement_characters() {
    let mut buf = String::new();
    assert!(!append_output(&mut buf, &[b'o', 0xff, b'k'], 64));
    assert_eq!(buf, "o\u{fffd}k");
}
