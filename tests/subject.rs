use mail_todo::subject::{
    decode_subject, extract_info, is_decodable, join_header, message_title, q_escapes_complete,
    word_title, ExtractError, SUBJECT_PATTERN,
};

#[test]
fn plain_words_get_a_trailing_space() {
    assert_eq!(decode_subject("Buy  milk\ttoday"), "Buy milk today ");
    assert_eq!(decode_subject(""), "");
    assert_eq!(decode_subject("   "), "");
}

#[test]
fn encoded_words_are_decoded() {
    assert_eq!(decode_subject("=?ISO-8859-1?Q?Test=20text?="), "Test text ");
    assert_eq!(decode_subject("Re: =?utf-8?b?44GT44KT44Gr44Gh44Gv44CC?="), "Re: こんにちは。 ");
}

#[test]
fn undecodable_words_are_kept() {
    assert_eq!(decode_subject("=?utf-8?x?abc?="), "=?utf-8?x?abc?= ");
    assert_eq!(decode_subject("=?utf-8?q?abc=4?="), "=?utf-8?q?abc=4?= ");
    assert_eq!(decode_subject("=?nosuchcharset?q?abc?="), "=?nosuchcharset?q?abc?= ");
    assert_eq!(word_title("a?b"), "a?b");
}

#[test]
fn decodable_words() {
    assert!(is_decodable("=?utf-8?Q?a=20b?="));
    assert!(is_decodable("=?utf-8?B?YQ==?="));
    assert!(!is_decodable("=?utf-8?x?abc?="));
    assert!(!is_decodable("=?utf-8?q?abc=?="));
    assert!(!is_decodable("=?utf-8?qq?abc?="));
    assert!(!is_decodable("=?a?b?c?d?="));
    assert!(!is_decodable("plain"));
    assert!(q_escapes_complete("a=20b"));
    assert!(q_escapes_complete("a=\nb"));
    assert!(!q_escapes_complete("a=2"));
    assert!(!q_escapes_complete("="));
}

#[test]
fn extract_info_outcomes() {
    assert_eq!(extract_info("a(b+)c", "xxabbbcyy"), Ok("bbb".to_string()));
    assert_eq!(extract_info("(", "text"), Err(ExtractError::BadPattern));
    assert_eq!(extract_info("z(b)", "abc"), Err(ExtractError::NoMatch));
    assert_eq!(extract_info("a|(b)", "a"), Err(ExtractError::NoGroup));
}

#[test]
fn subject_line_is_found() {
    let h = "From: x@y\r\nSubject: Buy milk\r\nTo: z\r\n";
    assert_eq!(extract_info(SUBJECT_PATTERN, h), Ok("Buy milk".to_string()));
    let h = "From: x@y\r\nSubject:NoSpace\r\n";
    assert_eq!(extract_info(SUBJECT_PATTERN, h), Ok("NoSpace".to_string()));
}

#[test]
fn header_parts_are_joined() {
    let parts = vec![b"ab".to_vec(), "\u{e9}".as_bytes().to_vec()];
    assert_eq!(join_header(&parts), Some("ab\u{e9}".to_string()));
    assert_eq!(join_header(&vec![]), Some(String::new()));
    assert_eq!(join_header(&vec![b"ok".to_vec(), vec![0xff, 0xfe]]), None);
}

#[test]
fn message_title_from_header() {
    let parts = vec![b"From: x@y\r\nSubject: =?utf-8?q?Caf=C3=A9?= time\r\n\r\n".to_vec()];
    assert_eq!(message_title(&parts), Some("Caf\u{e9} time ".to_string()));
    let parts = vec![b"From: x@y\r\nTo: z\r\n\r\n".to_vec()];
    assert_eq!(message_title(&parts), None);
    let parts = vec![vec![0xc3, 0x28]];
    assert_eq!(message_title(&parts), None);
}
