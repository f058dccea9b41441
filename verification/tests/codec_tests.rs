use checkpoint_sessions::codec::{encode, decode};

#[test]
fn encode_example() {
    let s = encode("sess1", 3, "Fixed the bug in parser");
    assert_eq!(s, "[sess1] idx:3 Fixed the bug in parser");
}

#[test]
fn decode_example() {
    let (session, index, label) = decode("[sess1] idx:3 Fixed the bug in parser");
    assert_eq!(session.as_deref(), Some("sess1"));
    assert_eq!(index, Some(3));
    assert_eq!(label, "Fixed the bug in parser");
}

#[test]
fn decode_no_brackets() {
    let (session, index, label) = decode("no brackets here");
    assert_eq!(session, None);
    assert_eq!(index, None);
    assert_eq!(label, "");
}

#[test]
fn round_trip_session_and_index() {
    let cases: Vec<(&str, usize, &str)> = vec![
        ("a", 0, ""),
        ("session-42", 17, "hello world"),
        ("s p a c e s", 9999, "message with idx: inside"),
        ("", 1, "empty session id"),
        ("x", usize::MAX, "largest index"),
    ];
    for (sid, idx, msg) in cases {
        let encoded = encode(sid, idx, msg);
        let (session, index, _) = decode(&encoded);
        assert_eq!(session.as_deref(), Some(sid));
        assert_eq!(index, Some(idx));
    }
}

#[test]
fn truncation_long_message() {
    let msg: String = std::iter::repeat('a').take(150).collect();
    let encoded = encode("sess", 5, &msg);
    let (_, _, label) = decode(&encoded);
    let expected: String = std::iter::repeat('a').take(100).collect::<String>() + "...";
    assert_eq!(label.chars().count(), 103);
    assert_eq!(label, expected);
}

#[test]
fn truncation_message_at_cap_is_untouched() {
    let msg: String = std::iter::repeat('b').take(100).collect();
    let encoded = encode("sess", 1, &msg);
    let (_, _, label) = decode(&encoded);
    assert_eq!(label, msg);
}

#[test]
fn encode_empty_message() {
    let encoded = encode("s", 0, "");
    assert_eq!(encoded, "[s] idx:0 ");
    let (session, index, label) = decode(&encoded);
    assert_eq!(session.as_deref(), Some("s"));
    assert_eq!(index, Some(0));
    assert_eq!(label, "");
}

#[test]
fn decode_cuts_structured_payload() {
    let (session, index, label) = decode("[s] idx:2 fix stuff {\"files\":1}");
    assert_eq!(session.as_deref(), Some("s"));
    assert_eq!(index, Some(2));
    assert_eq!(label, "fix stuff");
}

#[test]
fn decode_leading_zero_index_keeps_raw_label() {
    // The digits parse as 7, but the prefix searched for is `] idx:7`,
    // which the text does not contain: the label falls back unchanged.
    let desc = "[s] idx:007 hello";
    let (session, index, label) = decode(desc);
    assert_eq!(session.as_deref(), Some("s"));
    assert_eq!(index, Some(7));
    assert_eq!(label, desc);
}

#[test]
fn decode_overflowing_index_is_none() {
    let desc = "[s] idx:99999999999999999999999999 x";
    let (session, index, label) = decode(desc);
    assert_eq!(session.as_deref(), Some("s"));
    assert_eq!(index, None);
    assert_eq!(label, desc);
}

#[test]
fn decode_without_marker() {
    let desc = "[s] hello";
    let (session, index, label) = decode(desc);
    assert_eq!(session.as_deref(), Some("s"));
    assert_eq!(index, None);
    assert_eq!(label, desc);
}

#[test]
fn decode_marker_without_digits() {
    let desc = "[s] idx:abc";
    let (session, index, label) = decode(desc);
    assert_eq!(session.as_deref(), Some("s"));
    assert_eq!(index, None);
    assert_eq!(label, desc);
}

#[test]
fn decode_bracket_at_start() {
    let desc = "]abc";
    let (session, index, label) = decode(desc);
    assert_eq!(session.as_deref(), Some(""));
    assert_eq!(index, None);
    assert_eq!(label, desc);
}

#[test]
fn decode_trims_whitespace_around_label() {
    let (_, _, label) = decode("[s] idx:4    padded label   ");
    assert_eq!(label, "padded label");
}
