use confab::json::{write_json_str, JsonStrMap};

fn json_str(s: &str) -> String {
    let mut buf = String::new();
    write_json_str(s, &mut buf);
    buf
}

#[test]
fn test_write_json_str() {
    let cases = [
        ("foobar", r#""foobar""#),
        ("foo / bar", r#""foo / bar""#),
        ("foo\"bar", r#""foo\"bar""#),
        ("foo\\bar", r#""foo\\bar""#),
        ("foo\x08\x0C\n\r\tbar", r#""foo\b\f\n\r\tbar""#),
        ("foo\x0B\x1B\x7Fbar", r#""foo\u000b\u001b\u007fbar""#),
        ("foo\u{2014}bar", r#""foo\u2014bar""#),
        ("foo\u{1F410}bar", r#""foo\ud83d\udc10bar""#),
    ];
    for (s, json) in cases {
        assert_eq!(json_str(s), json);
    }
}

#[test]
fn write_json_str_appends() {
    let mut buf = String::from("x=");
    write_json_str("\u{e9}", &mut buf);
    assert_eq!(buf, "x=\"\\u00e9\"");
}

#[test]
fn json_test_json_str_map_empty() {
    let s = JsonStrMap::new().finish();
    assert_eq!(s, "{}");
}

#[test]
fn json_test_json_str_map_one_field() {
    let s = JsonStrMap::new().field("key", "value").finish();
    assert_eq!(s, r#"{"key": "value"}"#);
}

#[test]
fn json_test_json_str_map_two_fields() {
    let s = JsonStrMap::new()
        .field("key", "value")
        .field("apple", "banana")
        .finish();
    assert_eq!(s, r#"{"key": "value", "apple": "banana"}"#);
}

#[test]
fn util_test_json_str_map_empty() {
    let s = JsonStrMap::new().finish();
    assert_eq!(s, "{}");
}

#[test]
fn util_test_json_str_map_one_field() {
    let s = JsonStrMap::new().field("key", "value").finish();
    assert_eq!(s, r#"{"key": "value"}"#);
}

#[test]
fn util_test_json_str_map_two_fields() {
    let s = JsonStrMap::new()
        .field("key", "value")
        .field("apple", "banana")
        .finish();
    assert_eq!(s, r#"{"key": "value", "apple": "banana"}"#);
}

#[test]
fn json_str_map_raw_field() {
    let s = JsonStrMap::default()
        .field("event", "connection-start")
        .raw_field("port", "80")
        .finish();
    assert_eq!(s, r#"{"event": "connection-start", "port": 80}"#);
}

/// A plain reader of JSON string literals, to check that escaping reads back.
fn unescape(q: &str) -> Option<String> {
    let body = q.strip_prefix('"')?.strip_suffix('"')?;
    let mut units: Vec<u16> = Vec::new();
    let mut chars = body.chars();
    while let Some(c) = chars.next() {
        if c == '\\' {
            match chars.next()? {
                'u' => {
                    let hex: String = (0..4).filter_map(|_| chars.next()).collect();
                    units.push(u16::from_str_radix(&hex, 16).ok()?);
                }
                'n' => units.push(u16::from(b'\n')),
                'r' => units.push(u16::from(b'\r')),
                't' => units.push(u16::from(b'\t')),
                'b' => units.push(8),
                'f' => units.push(12),
                e => {
                    let mut b = [0u16; 2];
                    units.extend_from_slice(e.encode_utf16(&mut b));
                }
            }
        } else {
            let mut b = [0u16; 2];
            units.extend_from_slice(c.encode_utf16(&mut b));
        }
    }
    String::from_utf16(&units).ok()
}

#[test]
fn json_string_round_trips() {
    for s in [
        "",
        "plain",
        "quote \" backslash \\ slash /",
        "\u{0}\u{1}\u{1F}\u{7F}\u{80}",
        "caf\u{e9} \u{2603} \u{1F9DD} \u{10FFFF}",
        "line\r\n",
    ] {
        assert_eq!(unescape(&json_str(s)).as_deref(), Some(s));
    }
}
