//! Character encodings: how received bytes become text and how text becomes
//! bytes to transmit.

use vstd::prelude::*;
use vstd::string::StrSliceExecFns;
use vstd::utf8::*;

verus! {

/// The text encoding policy of a session.
#[derive(Clone, Copy, Debug, PartialEq, Eq, Structural, Hash, PartialOrd, Ord)]
pub enum CharEncoding {
    /// UTF-8; invalid sequences decode to the replacement character.
    Utf8,
    /// UTF-8; a buffer that is not valid UTF-8 is decoded as Latin-1 instead.
    Utf8Latin1,
    /// Latin-1 (ISO 8859-1): one byte per code point.
    Latin1,
}

/// The Latin-1 reading of a byte sequence: byte `b` is code point `b`.
pub open spec fn latin1_decode(b: Seq<u8>) -> Seq<char> {
    Seq::new(b.len(), |i: int| b[i] as char)
}

/// The Latin-1 byte for a character: the character's code point when it is at
/// most 0xFF, else `?`.
pub open spec fn latin1_byte(c: char) -> u8 {
    if (c as u32) <= 0xFF {
        c as u32 as u8
    } else {
        0x3F
    }
}

/// The Latin-1 encoding of a text.
pub open spec fn latin1_encode(s: Seq<char>) -> Seq<u8> {
    Seq::new(s.len(), |i: int| latin1_byte(s[i]))
}

/// A text with every character above U+00FF replaced by `?`.
pub open spec fn latin1ify_chars(s: Seq<char>) -> Seq<char> {
    Seq::new(s.len(), |i: int| if (s[i] as u32) <= 0xFF { s[i] } else { '?' })
}

/// What lossy UTF-8 decoding makes of a byte sequence.
pub uninterp spec fn utf8_lossy(b: Seq<u8>) -> Seq<char>;

/// Relies on `String::from_utf8_lossy`: the result depends on the bytes alone,
/// and valid UTF-8 decodes to the text it encodes.
#[verifier::external_body]
fn lossy_utf8_string(bs: &[u8]) -> (r: String)
    ensures
        r@ == utf8_lossy(bs@),
        valid_utf8(bs@) ==> r@ == decode_utf8(bs@),
{
    String::from_utf8_lossy(bs).into_owned()
}

/// Relies on `String::from_utf8`: succeeds exactly on valid UTF-8, with the
/// text that the bytes encode; on failure the bytes come back unchanged
/// (`FromUtf8Error::into_bytes`).
#[verifier::external_body]
fn strict_utf8_string(bs: Vec<u8>) -> (r: Result<String, Vec<u8>>)
    ensures
        r is Ok <==> valid_utf8(bs@),
        r matches Ok(s) ==> s@ == decode_utf8(bs@),
        r matches Err(v) ==> v@ == bs@,
{
    String::from_utf8(bs).map_err(|e| e.into_bytes())
}

impl CharEncoding {
    /// Whether the encoding reads bytes as UTF-8 first.
    pub open spec fn spec_is_utf8(self) -> bool {
        self is Utf8 || self is Utf8Latin1
    }

    /// The bytes that `encode` produces for a text.
    pub open spec fn spec_encode(self, s: Seq<char>) -> Seq<u8> {
        match self {
            CharEncoding::Latin1 => latin1_encode(s),
            _ => encode_utf8(s),
        }
    }

    /// The text that `decode` produces for a byte sequence.
    pub open spec fn spec_decode(self, b: Seq<u8>) -> Seq<char> {
        match self {
            CharEncoding::Utf8 => if valid_utf8(b) {
                decode_utf8(b)
            } else {
                utf8_lossy(b)
            },
            CharEncoding::Utf8Latin1 => if valid_utf8(b) {
                decode_utf8(b)
            } else {
                latin1_decode(b)
            },
            CharEncoding::Latin1 => latin1_decode(b),
        }
    }

    pub fn is_utf8(&self) -> (r: bool)
        ensures
            r == self.spec_is_utf8(),
    {
        match self {
            CharEncoding::Utf8 | CharEncoding::Utf8Latin1 => true,
            CharEncoding::Latin1 => false,
        }
    }

    /// Converts a text to bytes. Latin-1 writes each character above U+00FF
    /// as `?`; the UTF-8 encodings copy the text's UTF-8 bytes.
    pub fn encode(&self, s: &str) -> (r: Vec<u8>)
        ensures
            r@ == self.spec_encode(s@),
    {
        match self {
            CharEncoding::Latin1 => encode_latin1(s),
            _ => vstd::slice::slice_to_vec(s.as_bytes()),
        }
    }

    /// Converts bytes to text. Never fails: malformed input is represented by
    /// substitution (UTF-8) or by reading the bytes as Latin-1.
    pub fn decode(&self, bs: Vec<u8>) -> (r: String)
        ensures
            r@ == self.spec_decode(bs@),
    {
        match self {
            CharEncoding::Utf8 => lossy_utf8_string(bs.as_slice()),
            CharEncoding::Utf8Latin1 => match strict_utf8_string(bs) {
                Ok(s) => s,
                Err(v) => decode_latin1(v),
            },
            CharEncoding::Latin1 => decode_latin1(bs),
        }
    }
}

/// Latin-1 encoding of a text.
fn encode_latin1(s: &str) -> (r: Vec<u8>)
    ensures
        r@ == latin1_encode(s@),
{
    let mut out: Vec<u8> = Vec::new();
    for c in it: s.chars()
        invariant
            it.seq() == s@,
            out@ == latin1_encode(it.seq().take(it.index() as int)),
    {
        let b: u8 = if (c as u32) <= 0xFF {
            c as u32 as u8
        } else {
            0x3F
        };
        out.push(b);
        assert(latin1_encode(it.seq().take(it.index() + 1)) =~= latin1_encode(
            it.seq().take(it.index() as int),
        ).push(b));
    }
    assert(s@.take(s@.len() as int) =~= s@);
    out
}

/// Reads each byte as the code point of the same value.
pub fn decode_latin1(bs: Vec<u8>) -> (r: String)
    ensures
        r@ == latin1_decode(bs@),
{
    let mut out = String::new();
    let mut i: usize = 0;
    while i < bs.len()
        invariant
            i <= bs@.len(),
            out@ == latin1_decode(bs@.take(i as int)),
        decreases bs@.len() - i,
    {
        let c = bs[i] as char;
        out.push(c);
        assert(latin1_decode(bs@.take(i + 1)) =~= latin1_decode(bs@.take(i as int)).push(c));
        i = i + 1;
    }
    assert(bs@.take(bs@.len() as int) =~= bs@);
    out
}

/// Replaces every character above U+00FF with `?`, so that the text is what
/// a Latin-1 transmission of it carries.
pub fn latin1ify(s: String) -> (r: String)
    ensures
        r@ == latin1ify_chars(s@),
{
    let mut out = String::new();
    for c in it: s.as_str().chars()
        invariant
            it.seq() == s@,
            out@ == latin1ify_chars(it.seq().take(it.index() as int)),
    {
        let d: char = if (c as u32) <= 0xFF {
            c
        } else {
            '?'
        };
        out.push(d);
        assert(latin1ify_chars(it.seq().take(it.index() + 1)) =~= latin1ify_chars(
            it.seq().take(it.index() as int),
        ).push(d));
    }
    assert(s@.take(s@.len() as int) =~= s@);
    out
}

/// A character with ASCII uppercase letters lowered.
pub open spec fn ascii_lower(c: char) -> char {
    if 'A' <= c <= 'Z' {
        ((c as u32) + 32) as char
    } else {
        c
    }
}

/// Two texts equal but for the case of ASCII letters.
pub open spec fn eq_ignore_ascii_case(a: Seq<char>, b: Seq<char>) -> bool {
    a.len() == b.len() && forall|i: int| 0 <= i < a.len() ==> ascii_lower(a[i]) == ascii_lower(b[i])
}

fn lower_char(c: char) -> (r: char)
    ensures
        r == ascii_lower(c),
{
    if 'A' <= c && c <= 'Z' {
        ((c as u8) + 32) as char
    } else {
        c
    }
}

/// Whether two texts are equal but for the case of ASCII letters.
fn same_ignoring_ascii_case(a: &str, b: &str) -> (r: bool)
    ensures
        r == eq_ignore_ascii_case(a@, b@),
{
    let n = a.unicode_len();
    if n != b.unicode_len() {
        return false;
    }
    let mut i: usize = 0;
    while i < n
        invariant
            n == a@.len() == b@.len(),
            i <= n,
            forall|j: int| 0 <= j < i ==> ascii_lower(a@[j]) == ascii_lower(b@[j]),
        decreases n - i,
    {
        if lower_char(a.get_char(i)) != lower_char(b.get_char(i)) {
            return false;
        }
        i = i + 1;
    }
    true
}

/// The encoding that a name denotes, ignoring ASCII case: `utf8`,
/// `utf8-latin1` or `latin1`.
pub open spec fn encoding_named(s: Seq<char>) -> Option<CharEncoding> {
    if eq_ignore_ascii_case(s, "utf8"@) {
        Some(CharEncoding::Utf8)
    } else if eq_ignore_ascii_case(s, "utf8-latin1"@) {
        Some(CharEncoding::Utf8Latin1)
    } else if eq_ignore_ascii_case(s, "latin1"@) {
        Some(CharEncoding::Latin1)
    } else {
        None
    }
}

/// The error for a name that denotes no encoding.
#[derive(Clone, Copy, Debug, PartialEq, Eq, Structural)]
pub struct CharEncodingLookupError;

impl CharEncodingLookupError {
    pub fn message(&self) -> &'static str {
        "invalid character encoding name"
    }
}

impl CharEncoding {
    /// The encoding that a name denotes, ignoring ASCII case.
    pub fn from_name(s: &str) -> (r: Result<CharEncoding, CharEncodingLookupError>)
        ensures
            match encoding_named(s@) {
                Some(e) => r == Ok::<CharEncoding, CharEncodingLookupError>(e),
                None => r is Err,
            },
    {
        if same_ignoring_ascii_case(s, "utf8") {
            Ok(CharEncoding::Utf8)
        } else if same_ignoring_ascii_case(s, "utf8-latin1") {
            Ok(CharEncoding::Utf8Latin1)
        } else if same_ignoring_ascii_case(s, "latin1") {
            Ok(CharEncoding::Latin1)
        } else {
            Err(CharEncodingLookupError)
        }
    }
}

impl std::str::FromStr for CharEncoding {
    type Err = CharEncodingLookupError;

    fn from_str(s: &str) -> Result<CharEncoding, CharEncodingLookupError> {
        CharEncoding::from_name(s)
    }
}

/// Latin-1 encoding writes `?` (0x3F) for each character above U+00FF and
/// each other character as the byte of its code point, one byte per
/// character.
pub proof fn lemma_latin1_encode(s: Seq<char>)
    ensures
        CharEncoding::Latin1.spec_encode(s).len() == s.len(),
        forall|i: int|
            0 <= i < s.len() ==> #[trigger] CharEncoding::Latin1.spec_encode(s)[i] == if (s[i] as u32)
                > 0xFF {
                0x3Fu8
            } else {
                s[i] as u32 as u8
            },
{
}

/// With the Latin-1 fallback, valid UTF-8 decodes as strict UTF-8 decoding
/// does; anything else decodes as Latin-1, one character per byte, and never
/// to the replacement character U+FFFD.
pub proof fn lemma_latin1_fallback(b: Seq<u8>)
    ensures
        valid_utf8(b) ==> CharEncoding::Utf8Latin1.spec_decode(b) == decode_utf8(b),
        !valid_utf8(b) ==> CharEncoding::Utf8Latin1.spec_decode(b) == latin1_decode(b),
        !valid_utf8(b) ==> forall|i: int|
            0 <= i < b.len() ==> #[trigger] CharEncoding::Utf8Latin1.spec_decode(b)[i] != '\u{FFFD}',
{
    if !valid_utf8(b) {
        assert forall|i: int| 0 <= i < b.len() implies #[trigger] CharEncoding::Utf8Latin1.spec_decode(
            b,
        )[i] != '\u{FFFD}' by {
            assert(latin1_decode(b)[i] == b[i] as char);
            assert((b[i] as char) as u32 <= 0xFF);
        }
    }
}

/// Under a UTF-8 encoding, decoding the bytes of an encoded text gives the
/// text back.
pub proof fn lemma_utf8_round_trip(e: CharEncoding, s: Seq<char>)
    requires
        e.spec_is_utf8(),
    ensures
        e.spec_decode(e.spec_encode(s)) == s,
{
    encode_utf8_valid_utf8(s);
    encode_utf8_decode_utf8(s);
}

} // verus!
