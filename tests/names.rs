use cli_daw::names::{contains_text, is_stop_line, name_matches, stop_word};

#[test]
fn query_matches_regardless_of_case() {
    assert!(name_matches("USB Audio CODEC", "usb audio"));
    assert!(name_matches("usb audio codec", "CODEC"));
    assert!(!name_matches("Built-in Output", "usb"));
    assert!(name_matches("anything", ""));
}

#[test]
fn containment() {
    assert!(contains_text("abcabd", "abd"));
    assert!(!contains_text("abcab", "abd"));
    assert!(!contains_text("ab", "abc"));
    assert!(contains_text("", ""));
}

#[test]
fn stop_line_is_q_in_either_case() {
    assert!(is_stop_line("q\n"));
    assert!(is_stop_line("  Q \r\n"));
    assert!(!is_stop_line("quit\n"));
    assert!(!is_stop_line("\n"));
    assert!(stop_word("q"));
    assert!(!stop_word(" q"));
}

#[test]
fn stop_line_trims_unicode_white_space() {
    assert!(is_stop_line("\u{3000}q\u{2028}"));
    assert!(is_stop_line("\tQ\u{a0}"));
    assert!(!is_stop_line("q\u{200b}"));
}
