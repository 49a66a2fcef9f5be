use confab::vis::{chomp, display_vis, needs_vis, vis, VisChunk};

fn plain(s: &str) -> VisChunk {
    VisChunk {
        reverse: false,
        text: String::from(s),
    }
}

fn reversed(s: &str) -> VisChunk {
    VisChunk {
        reverse: true,
        text: String::from(s),
    }
}

#[test]
fn test_chomp() {
    let cases = [
        ("foo", "foo"),
        ("foo\n", "foo"),
        ("foo\r", "foo"),
        ("foo\r\n", "foo"),
        ("foo\n\r", "foo\n"),
        ("foo\n\n", "foo\n"),
        ("foo\nbar", "foo\nbar"),
        ("\nbar", "\nbar"),
        ("", ""),
    ];
    for (s1, s2) in cases {
        assert_eq!(chomp(s1), s2);
    }
}

#[test]
fn test_vis() {
    let cases = [
        ('\x00', "^@"),
        ('\x01', "^A"),
        ('\x1F', "^_"),
        ('\x7F', "^?"),
        ('\u{80}', "<U+0080>"),
        ('\u{ffff}', "<U+FFFF>"),
        ('\u{10ffff}', "<U+10FFFF>"),
    ];
    for (c, display) in cases {
        assert_eq!(vis(c), display);
    }
}

#[test]
fn test_display_vis() {
    let vised = display_vis(
        "\x01ACTION reflects in\x08\x08on all the private use characters, like \u{E011}.\x01",
    );
    assert_eq!(
        vised,
        [
            reversed("^A"),
            plain("ACTION reflects in"),
            reversed("^H^H"),
            plain("on all the private use characters, like "),
            reversed("<U+E011>"),
            plain("."),
            reversed("^A"),
        ]
    );
}

#[test]
fn needs_vis_by_category() {
    assert!(!needs_vis('\t'));
    assert!(!needs_vis('a'));
    assert!(!needs_vis(' '));
    assert!(needs_vis('\x1B'));
    assert!(needs_vis('\u{89}'));
    assert!(needs_vis('\u{E011}'));
    assert!(!needs_vis('\u{e9}'));
}

#[test]
fn display_vis_of_plain_and_empty_text() {
    assert_eq!(display_vis("Ping 1"), [plain("Ping 1")]);
    assert_eq!(display_vis("tab\there"), [plain("tab\there")]);
    assert!(display_vis("").is_empty());
}
