use confab::encoding::{decode_latin1, latin1ify, CharEncoding};

#[test]
fn test_encode_latin1() {
    let s = "Snow\u{e9}mon: \u{2603}!";
    assert_eq!(CharEncoding::Latin1.encode(s), &b"Snow\xE9mon: ?!"[..]);
}

#[test]
fn test_decode_latin1() {
    let bs = b"Snow\xE9mon: \xE2\x98\x83!".to_vec();
    assert_eq!(
        CharEncoding::Latin1.decode(bs),
        "Snow\u{e9}mon: \u{e2}\u{98}\u{83}!"
    );
}

#[test]
fn test_decode_utf8() {
    let bs = b"Snow\xC3\xA9mon: \xE2\x98!".to_vec();
    assert_eq!(CharEncoding::Utf8.decode(bs), "Snow\u{e9}mon: \u{fffd}!");
}

#[test]
fn test_decode_utf8latin1_good() {
    let bs = b"Snow\xC3\xA9mon: \xE2\x98\x83!".to_vec();
    assert_eq!(CharEncoding::Utf8Latin1.decode(bs), "Snow\u{e9}mon: \u{2603}!");
}

#[test]
fn test_decode_utf8latin1_fallback() {
    let bs = b"Snow\xC3\xA9mon: \xE2\x98!".to_vec();
    assert_eq!(
        CharEncoding::Utf8Latin1.decode(bs),
        "Snow\u{c3}\u{a9}mon: \u{e2}\u{98}!"
    );
}

#[test]
fn test_latin1ify() {
    let s = String::from("Snow\u{e9}mon: \u{2603}!");
    assert_eq!(latin1ify(s), String::from("Snow\u{e9}mon: ?!"));
}

#[test]
fn encode_utf8_copies_bytes() {
    let s = "Snow\u{e9}mon: \u{2603}!";
    assert_eq!(CharEncoding::Utf8.encode(s), s.as_bytes());
    assert_eq!(CharEncoding::Utf8Latin1.encode(s), s.as_bytes());
}

#[test]
fn decode_latin1_maps_bytes_to_code_points() {
    assert_eq!(decode_latin1(vec![0x41, 0xFF, 0x00]), "A\u{ff}\u{0}");
    assert_eq!(decode_latin1(Vec::new()), "");
}

#[test]
fn utf8_latin1_fallback_never_gives_replacement_character() {
    let bs = b"General garbage: \x89\xAB\xCD\xEF".to_vec();
    let s = CharEncoding::Utf8Latin1.decode(bs);
    assert!(!s.contains('\u{FFFD}'));
    assert_eq!(s, "General garbage: \u{89}\u{AB}\u{CD}\u{EF}");
}

#[test]
fn latin1_decode_then_encode_round_trips() {
    let bs: Vec<u8> = (0..=255u8).collect();
    let s = CharEncoding::Latin1.decode(bs.clone());
    assert_eq!(CharEncoding::Latin1.encode(&s), bs);
}

#[test]
fn is_utf8_by_encoding() {
    assert!(CharEncoding::Utf8.is_utf8());
    assert!(CharEncoding::Utf8Latin1.is_utf8());
    assert!(!CharEncoding::Latin1.is_utf8());
}

#[test]
fn encoding_names_ignore_ascii_case() {
    assert_eq!("utf8".parse::<CharEncoding>(), Ok(CharEncoding::Utf8));
    assert_eq!("UTF8-Latin1".parse::<CharEncoding>(), Ok(CharEncoding::Utf8Latin1));
    assert_eq!(CharEncoding::from_name("LATIN1"), Ok(CharEncoding::Latin1));
    let err = CharEncoding::from_name("latin-1").unwrap_err();
    assert_eq!(err.message(), "invalid character encoding name");
    assert!(CharEncoding::from_name("").is_err());
}

#[test]
fn utf8_encode_then_decode_round_trips() {
    let s = "F\u{eb}anor is an \u{1F9DD}.  Frosty is a \u{2603}.";
    assert_eq!(CharEncoding::Utf8.decode(CharEncoding::Utf8.encode(s)), s);
    assert_eq!(CharEncoding::Utf8Latin1.decode(CharEncoding::Utf8Latin1.encode(s)), s);
}
