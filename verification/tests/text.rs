use freegsm::addr::SocketV4;
use freegsm::text::{
    append_decimal, is_ascii_alphanumeric, is_white_space, join_with_spaces, to_chars, trimmed,
};

#[test]
fn white_space_is_that_of_the_standard_library() {
    for c in '\0'..=char::MAX {
        assert_eq!(is_white_space(c), c.is_whitespace());
        assert_eq!(is_ascii_alphanumeric(c), c.is_ascii_alphanumeric());
    }
}

#[test]
fn trimming_takes_all_outer_white_space() {
    for s in ["", " ", "a", "\t a b \r\n", "\u{3000}x\u{a0}", "  \u{e9} "] {
        assert_eq!(trimmed(s), s.trim());
    }
}

#[test]
fn decimal_numbers_are_written_without_leading_zeros() {
    for n in [0u16, 7, 10, 99, 100, 443, 40000, u16::MAX] {
        let mut out = String::from(":");
        append_decimal(&mut out, n);
        assert_eq!(out, format!(":{n}"));
    }
}

#[test]
fn arguments_are_joined_with_single_spaces() {
    let args: Vec<String> = vec![];
    assert_eq!(join_with_spaces(&args), "");
    assert_eq!(join_with_spaces(&vec!["-E".to_string()]), "-E");
    let args = vec!["-a".to_string(), "x".to_string(), "all".to_string()];
    assert_eq!(join_with_spaces(&args), "-a x all");
}

#[test]
fn texts_are_taken_apart_into_characters() {
    assert_eq!(to_chars("a\u{e9}\u{1f600}"), vec!['a', '\u{e9}', '\u{1f600}']);
}

#[test]
fn addresses_are_written_with_dots_and_a_colon() {
    let server = SocketV4 { ip: [93, 184, 0, 255], port: 443 };
    assert_eq!(server.to_text(), "93.184.0.255:443");
}
