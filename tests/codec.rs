use bytes::BytesMut;
use confab::codec::{find_final_char_boundary, ConfabCodec};
use confab::encoding::CharEncoding;

#[test]
fn test_decode_end_before_limit() {
    let mut codec = ConfabCodec::new_with_max_length(32);
    let mut buf = BytesMut::from("This is test text.\nAnd so is this.\n");
    assert_eq!(codec.decode(&mut buf).unwrap(), "This is test text.\n");
    assert_eq!(buf, "And so is this.\n");
}

#[test]
fn test_decode_end_at_limit() {
    let mut codec = ConfabCodec::new_with_max_length(32);
    let mut buf = BytesMut::from("123456789.abcdefghi.123456789.a\nbcdef");
    assert_eq!(
        codec.decode(&mut buf).unwrap(),
        "123456789.abcdefghi.123456789.a\n"
    );
    assert_eq!(buf, "bcdef");
}

#[test]
fn test_decode_end_right_after_limit() {
    let mut codec = ConfabCodec::new_with_max_length(32);
    let mut buf = BytesMut::from("123456789.abcdefghi.123456789.ab\ncdef");
    assert_eq!(
        codec.decode(&mut buf).unwrap(),
        "123456789.abcdefghi.123456789.ab"
    );
    assert_eq!(buf, "\ncdef");
}

#[test]
fn test_decode_end_after_limit() {
    let mut codec = ConfabCodec::new_with_max_length(32);
    let mut buf = BytesMut::from("123456789.abcdefghi.123456789.abcdef\n");
    assert_eq!(
        codec.decode(&mut buf).unwrap(),
        "123456789.abcdefghi.123456789.ab"
    );
    assert_eq!(buf, "cdef\n");
}

#[test]
fn test_decode_max_length_no_end() {
    let mut codec = ConfabCodec::new_with_max_length(32);
    let mut buf = BytesMut::from("123456789.abcdefghi.123456789.ab");
    assert_eq!(
        codec.decode(&mut buf).unwrap(),
        "123456789.abcdefghi.123456789.ab"
    );
    assert_eq!(buf, "");
}

#[test]
fn test_decode_max_length_plus_1_no_end() {
    let mut codec = ConfabCodec::new_with_max_length(32);
    let mut buf = BytesMut::from("123456789.abcdefghi.123456789.abc");
    assert_eq!(
        codec.decode(&mut buf).unwrap(),
        "123456789.abcdefghi.123456789.ab"
    );
    assert_eq!(buf, "c");
}

#[test]
fn test_decode_max_length_minus_1_no_end() {
    let mut codec = ConfabCodec::new_with_max_length(32);
    let mut buf = BytesMut::from("123456789.abcdefghi.123456789.a");
    assert_eq!(codec.decode(&mut buf), None);
    assert_eq!(buf, "123456789.abcdefghi.123456789.a");
    assert_eq!(codec.next_index(), 31);
}

#[test]
fn test_decode_over_max_length_straddling_utf8() {
    let mut codec = ConfabCodec::new_with_max_length(32);
    let mut buf = BytesMut::from(&b"123456789.abcdefghi.123456789.\xE2\x98\x83"[..]);
    assert_eq!(
        codec.decode(&mut buf).unwrap(),
        "123456789.abcdefghi.123456789."
    );
    assert_eq!(buf, &b"\xE2\x98\x83"[..]);
}

#[test]
fn test_decode_over_max_length_straddling_utf8_in_latin1() {
    let mut codec = ConfabCodec::new_with_max_length(32).encoding(CharEncoding::Latin1);
    let mut buf = BytesMut::from(&b"123456789.abcdefghi.123456789.\xE2\x98\x83"[..]);
    assert_eq!(
        codec.decode(&mut buf).unwrap(),
        "123456789.abcdefghi.123456789.\u{e2}\u{98}"
    );
    assert_eq!(buf, &b"\x83"[..]);
}

#[test]
fn final_char_boundary_cases() {
    let cases: [(&[u8], usize); 19] = [
        (b"", 0),
        (b"foo", 3),
        (b"foo\xE2\x98\x83", 6),
        (b"foo\xE2\x98", 3),
        (b"foo\xE2", 3),
        (b"foo\x98\x83", 5),
        (b"\x98\x83", 2),
        (b"\x80\x98\x83", 3),
        (b"\x80\x80\x98\x83", 4),
        (b"foo\xC0\x80", 5),
        (b"foo\xC0\x80\x80", 6),
        (b"foo\xC0", 3),
        (b"foo\xF0\x80\x80", 3),
        (b"foo\x80\x80\x80", 6),
        (b"foo\x80\x80\x80\x80", 7),
        (b"foo\xFF", 4),
        (b"foo\xFC", 4),
        (b"foo\xFC\x80\x80\x80", 7),
        (b"foo\xFC\x80\x80\x80\x80\x80", 9),
    ];
    for (buf, i) in cases {
        assert_eq!(find_final_char_boundary(buf), i, "{buf:?}");
    }
}

#[test]
fn decode_resumes_search_after_more_data() {
    let mut codec = ConfabCodec::new_with_max_length(32);
    let mut buf = BytesMut::from("abc");
    assert_eq!(codec.decode(&mut buf), None);
    assert_eq!(codec.next_index(), 3);
    buf.extend_from_slice(b"de\nfg");
    assert_eq!(codec.decode(&mut buf).unwrap(), "abcde\n");
    assert_eq!(buf, "fg");
    assert_eq!(codec.next_index(), 0);
}

#[test]
fn decode_unbounded_waits_for_newline() {
    let mut codec = ConfabCodec::new();
    let mut buf = BytesMut::from(&[b'x'; 1000][..]);
    assert_eq!(codec.decode(&mut buf), None);
    assert_eq!(buf.len(), 1000);
    buf.extend_from_slice(b"\n");
    let line = codec.decode(&mut buf).unwrap();
    assert_eq!(line.len(), 1001);
    assert!(buf.is_empty());
}

#[test]
fn decode_eof_flushes_remainder() {
    let mut codec = ConfabCodec::new_with_max_length(32);
    let mut buf = BytesMut::from("last words");
    assert_eq!(codec.decode_eof(&mut buf).unwrap(), "last words");
    assert!(buf.is_empty());
    assert_eq!(codec.decode_eof(&mut buf), None);
}

#[test]
fn decode_eof_prefers_a_complete_line() {
    let mut codec = ConfabCodec::new_with_max_length(32);
    let mut buf = BytesMut::from("one\ntwo");
    assert_eq!(codec.decode_eof(&mut buf).unwrap(), "one\n");
    assert_eq!(codec.decode_eof(&mut buf).unwrap(), "two");
    assert_eq!(codec.decode_eof(&mut buf), None);
}

#[test]
fn decode_invalid_utf8_is_replaced_not_rejected() {
    let mut codec = ConfabCodec::new_with_max_length(32);
    let mut buf = BytesMut::from(&b"bad \xFF byte\n"[..]);
    assert_eq!(codec.decode(&mut buf).unwrap(), "bad \u{FFFD} byte\n");
}

#[test]
fn decode_preserves_carriage_return() {
    let mut codec = ConfabCodec::new_with_max_length(32);
    let mut buf = BytesMut::from("CR LF:\r\n");
    assert_eq!(codec.decode(&mut buf).unwrap(), "CR LF:\r\n");
}

fn split_all(max: usize, data: &[u8]) -> Vec<Vec<u8>> {
    let mut codec = ConfabCodec::new_with_max_length(max).encoding(CharEncoding::Latin1);
    let mut buf = BytesMut::from(data);
    let mut pieces = Vec::new();
    while let Some(line) = codec.decode_eof(&mut buf) {
        pieces.push(CharEncoding::Latin1.encode(&line));
    }
    pieces
}

#[test]
fn long_unterminated_stream_splits_without_gaps() {
    let data: Vec<u8> = (0..25u8).map(|i| b'a' + i).collect();
    let pieces = split_all(10, &data);
    assert_eq!(pieces.len(), 3);
    assert_eq!(pieces[0].len(), 10);
    assert_eq!(pieces[1].len(), 10);
    assert_eq!(pieces[2].len(), 5);
    assert_eq!(pieces.concat(), data);
}

#[test]
fn long_unterminated_utf8_stream_splits_on_char_boundaries() {
    // 25 bytes: "ab" then seven three-byte snowmen, then "c" and "d".
    let text = "ab\u{2603}\u{2603}\u{2603}\u{2603}\u{2603}\u{2603}\u{2603}cd";
    assert_eq!(text.len(), 25);
    let mut codec = ConfabCodec::new_with_max_length(10);
    let mut buf = BytesMut::from(text.as_bytes());
    let mut lines = Vec::new();
    while let Some(line) = codec.decode_eof(&mut buf) {
        lines.push(line);
    }
    assert!(lines.len() == 3 || lines.len() == 4);
    assert!(lines.iter().all(|l| !l.contains('\u{FFFD}')));
    assert_eq!(lines.concat(), text);
    assert_eq!(lines[0], "ab\u{2603}\u{2603}");
}

#[test]
fn encode_appends_bytes() {
    let codec = ConfabCodec::new().encoding(CharEncoding::Latin1);
    let mut buf = BytesMut::from("x");
    codec.encode("caf\u{e9} \u{2603}\n", &mut buf);
    assert_eq!(buf, &b"xcaf\xE9 ?\n"[..]);
    let codec = ConfabCodec::new();
    let mut buf = BytesMut::new();
    codec.encode("caf\u{e9}\n", &mut buf);
    assert_eq!(buf, &b"caf\xC3\xA9\n"[..]);
}

#[test]
fn prepare_line_appends_terminator() {
    let codec = ConfabCodec::new();
    assert_eq!(codec.prepare_line(String::from("hi")), "hi\n");
    let codec = ConfabCodec::new().crlf(true);
    assert_eq!(codec.prepare_line(String::from("crlf")), "crlf\r\n");
    let codec = ConfabCodec::new().encoding(CharEncoding::Latin1);
    assert_eq!(
        codec.prepare_line(String::from("F\u{eb}anor is an \u{1F9DD}.")),
        "F\u{eb}anor is an ?.\n"
    );
}

#[test]
fn default_codec_is_unbounded_utf8() {
    let codec = ConfabCodec::default();
    assert_eq!(codec.max_length(), usize::MAX);
    assert_eq!(codec.char_encoding(), CharEncoding::Utf8);
    assert_eq!(codec.next_index(), 0);
}
