//! JSON text: strings escaped under strict JSON rules, and a builder for
//! one-line JSON objects.

use vstd::prelude::*;
use vstd::utf8::{char_is_scalar, char_u32_cast, is_scalar};

verus! {

/// The lowercase hexadecimal digit for `d < 16`.
pub open spec fn hex_digit(d: int) -> char {
    if d < 10 {
        (('0' as u32) + d) as char
    } else {
        (('a' as u32) + d - 10) as char
    }
}

/// Four lowercase hexadecimal digits for `u < 0x10000`.
pub open spec fn hex4(u: int) -> Seq<char> {
    seq![hex_digit(u / 4096), hex_digit((u / 256) % 16), hex_digit((u / 16) % 16), hex_digit(u % 16)]
}

/// The UTF-16 code units of a character.
pub open spec fn utf16_units(c: char) -> Seq<int> {
    let v = c as u32 as int;
    if v < 0x10000 {
        seq![v]
    } else {
        seq![0xD800 + (v - 0x10000) / 0x400, 0xDC00 + (v - 0x10000) % 0x400]
    }
}

/// `\u` escapes for a sequence of UTF-16 code units.
pub open spec fn unit_escapes(units: Seq<int>) -> Seq<char>
    decreases units.len(),
{
    if units.len() == 0 {
        Seq::empty()
    } else {
        seq!['\\', 'u'] + hex4(units[0]) + unit_escapes(units.skip(1))
    }
}

/// The JSON escape of one character: a two-character escape for the quote,
/// the backslash and five control characters, the character itself for the
/// rest of printable ASCII, and `\u` escapes of its UTF-16 code units for all
/// else.
pub open spec fn escape_char(c: char) -> Seq<char> {
    if c == '"' {
        seq!['\\', '"']
    } else if c == '\\' {
        seq!['\\', '\\']
    } else if c == '\x08' {
        seq!['\\', 'b']
    } else if c == '\x0C' {
        seq!['\\', 'f']
    } else if c == '\n' {
        seq!['\\', 'n']
    } else if c == '\r' {
        seq!['\\', 'r']
    } else if c == '\t' {
        seq!['\\', 't']
    } else if ' ' <= c <= '~' {
        seq![c]
    } else {
        unit_escapes(utf16_units(c))
    }
}

/// The escapes of a text's characters, in order.
pub open spec fn escape_chars(s: Seq<char>) -> Seq<char>
    decreases s.len(),
{
    if s.len() == 0 {
        Seq::empty()
    } else {
        escape_char(s[0]) + escape_chars(s.skip(1))
    }
}

/// A text as a JSON string literal.
pub open spec fn json_string(s: Seq<char>) -> Seq<char> {
    seq!['"'] + escape_chars(s) + seq!['"']
}

/// The value of a hexadecimal digit of either case.
pub open spec fn hex_value(c: char) -> Option<int> {
    if '0' <= c <= '9' {
        Some(c as u32 - '0' as u32)
    } else if 'a' <= c <= 'f' {
        Some(c as u32 - 'a' as u32 + 10)
    } else if 'A' <= c <= 'F' {
        Some(c as u32 - 'A' as u32 + 10)
    } else {
        None
    }
}

/// The value of four hexadecimal digits at `t[i..i + 4]`.
pub open spec fn hex4_value(t: Seq<char>, i: int) -> Option<int> {
    if i + 4 <= t.len() && hex_value(t[i]) is Some && hex_value(t[i + 1]) is Some && hex_value(
        t[i + 2],
    ) is Some && hex_value(t[i + 3]) is Some {
        Some(
            hex_value(t[i])->0 * 4096 + hex_value(t[i + 1])->0 * 256 + hex_value(t[i + 2])->0 * 16
                + hex_value(t[i + 3])->0,
        )
    } else {
        None
    }
}

/// `c` followed by the text of `rest`, if `rest` is a text.
pub open spec fn prepend(c: char, rest: Option<Seq<char>>) -> Option<Seq<char>> {
    match rest {
        Some(r) => Some(seq![c] + r),
        None => None,
    }
}

/// The character that a two-character escape `\e` stands for in JSON.
pub open spec fn short_escape(e: char) -> Option<char> {
    if e == '"' {
        Some('"')
    } else if e == '\\' {
        Some('\\')
    } else if e == '/' {
        Some('/')
    } else if e == 'b' {
        Some('\x08')
    } else if e == 'f' {
        Some('\x0C')
    } else if e == 'n' {
        Some('\n')
    } else if e == 'r' {
        Some('\r')
    } else if e == 't' {
        Some('\t')
    } else {
        None
    }
}

/// Standard JSON reading of the body of a string literal (the text between
/// the quotes): the text it denotes, or `None` where it is not well formed.
/// A `\u` escape of a high surrogate must be followed by one of a low
/// surrogate; the pair denotes one character.
pub open spec fn json_unescape(t: Seq<char>) -> Option<Seq<char>>
    decreases t.len(),
{
    if t.len() == 0 {
        Some(Seq::empty())
    } else if t[0] == '\\' {
        if t.len() < 2 {
            None
        } else if t[1] == 'u' {
            match hex4_value(t, 2) {
                Some(u) => if 0xD800 <= u < 0xDC00 {
                    if t.len() >= 8 && t[6] == '\\' && t[7] == 'u' {
                        match hex4_value(t, 8) {
                            Some(lo) => if 0xDC00 <= lo < 0xE000 {
                                prepend(
                                    (0x10000 + (u - 0xD800) * 0x400 + (lo - 0xDC00)) as u32 as char,
                                    json_unescape(t.skip(12)),
                                )
                            } else {
                                None
                            },
                            None => None,
                        }
                    } else {
                        None
                    }
                } else if 0xDC00 <= u < 0xE000 {
                    None
                } else {
                    prepend(u as u32 as char, json_unescape(t.skip(6)))
                },
                None => None,
            }
        } else {
            match short_escape(t[1]) {
                Some(c) => prepend(c, json_unescape(t.skip(2))),
                None => None,
            }
        }
    } else if t[0] == '"' || (t[0] as u32) < 0x20 {
        None
    } else {
        prepend(t[0], json_unescape(t.skip(1)))
    }
}

/// Standard JSON reading of a string literal.
pub open spec fn json_string_value(q: Seq<char>) -> Option<Seq<char>> {
    if q.len() >= 2 && q[0] == '"' && q[q.len() - 1] == '"' {
        json_unescape(q.subrange(1, q.len() - 1))
    } else {
        None
    }
}

proof fn lemma_hex_digit_value(d: int)
    requires
        0 <= d < 16,
    ensures
        hex_value(hex_digit(d)) == Some(d),
{
}

proof fn lemma_hex4_value(t: Seq<char>, i: int, u: int)
    requires
        0 <= u < 0x10000,
        0 <= i,
        i + 4 <= t.len(),
        t.subrange(i, i + 4) == hex4(u),
    ensures
        hex4_value(t, i) == Some(u),
{
    assert(t[i] == hex4(u)[0] && t[i + 1] == hex4(u)[1] && t[i + 2] == hex4(u)[2] && t[i + 3]
        == hex4(u)[3]) by {
        assert(t.subrange(i, i + 4)[0] == t[i]);
        assert(t.subrange(i, i + 4)[1] == t[i + 1]);
        assert(t.subrange(i, i + 4)[2] == t[i + 2]);
        assert(t.subrange(i, i + 4)[3] == t[i + 3]);
    }
    lemma_hex_digit_value(u / 4096);
    lemma_hex_digit_value((u / 256) % 16);
    lemma_hex_digit_value((u / 16) % 16);
    lemma_hex_digit_value(u % 16);
    assert((u / 4096) * 4096 + ((u / 256) % 16) * 256 + ((u / 16) % 16) * 16 + u % 16 == u)
        by (nonlinear_arith)
        requires
            0 <= u < 0x10000,
    ;
}

proof fn lemma_unit_escape_one(u: int)
    ensures
        unit_escapes(seq![u]) == seq!['\\', 'u'] + hex4(u),
{
    let us = seq![u];
    assert(us.skip(1) =~= Seq::<int>::empty());
    assert(unit_escapes(us.skip(1)) == Seq::<char>::empty());
    assert(seq!['\\', 'u'] + hex4(u) + Seq::<char>::empty() =~= seq!['\\', 'u'] + hex4(u));
}

proof fn lemma_unescape_bmp(c: char, r: Seq<char>)
    requires
        !(' ' <= c <= '~'),
        (c as u32) < 0x10000,
    ensures
        json_unescape(unit_escapes(utf16_units(c)) + r) == prepend(c, json_unescape(r)),
{
    let v = c as u32;
    char_is_scalar(c);
    char_u32_cast(c, v);
    assert(utf16_units(c) =~= seq![v as int]);
    lemma_unit_escape_one(v as int);
    let t = seq!['\\', 'u'] + hex4(v as int) + r;
    assert(t[0] == '\\' && t[1] == 'u');
    assert(t.subrange(2, 6) =~= hex4(v as int));
    lemma_hex4_value(t, 2, v as int);
    assert(t.skip(6) =~= r);
    assert(!(0xD800 <= v <= 0xDFFF));
}

proof fn lemma_surrogate_pair(v: int)
    requires
        0x10000 <= v <= 0x10FFFF,
    ensures
        0xD800 <= 0xD800 + (v - 0x10000) / 0x400 < 0xDC00,
        0xDC00 <= 0xDC00 + (v - 0x10000) % 0x400 < 0xE000,
        0x10000 + ((v - 0x10000) / 0x400) * 0x400 + (v - 0x10000) % 0x400 == v,
{
    assert(((v - 0x10000) / 0x400) * 0x400 + (v - 0x10000) % 0x400 == v - 0x10000)
        by (nonlinear_arith)
        requires
            v >= 0x10000,
    ;
    assert((v - 0x10000) / 0x400 < 0x400) by (nonlinear_arith)
        requires
            v - 0x10000 < 0x100000,
            v >= 0x10000,
    ;
}

/// Unfolds `json_unescape` on a surrogate pair escape.
proof fn lemma_unescape_pair(t: Seq<char>, hi: int, lo: int)
    requires
        t.len() >= 12,
        t[0] == '\\' && t[1] == 'u' && t[6] == '\\' && t[7] == 'u',
        hex4_value(t, 2) == Some(hi),
        hex4_value(t, 8) == Some(lo),
        0xD800 <= hi < 0xDC00,
        0xDC00 <= lo < 0xE000,
    ensures
        json_unescape(t) == prepend(
            (0x10000 + (hi - 0xD800) * 0x400 + (lo - 0xDC00)) as u32 as char,
            json_unescape(t.skip(12)),
        ),
{
}

proof fn lemma_unescape_supplementary(c: char, r: Seq<char>)
    requires
        (c as u32) >= 0x10000,
    ensures
        json_unescape(unit_escapes(utf16_units(c)) + r) == prepend(c, json_unescape(r)),
{
    let v = c as u32;
    char_is_scalar(c);
    char_u32_cast(c, v);
    lemma_surrogate_pair(v as int);
    let hi: int = 0xD800 + (v - 0x10000) / 0x400;
    let lo: int = 0xDC00 + (v - 0x10000) % 0x400;
    let units = utf16_units(c);
    assert(units =~= seq![hi, lo]);
    assert(units.skip(1) =~= seq![lo]);
    lemma_unit_escape_one(lo);
    let e = seq!['\\', 'u'] + hex4(hi) + (seq!['\\', 'u'] + hex4(lo));
    assert(unit_escapes(units) == e);
    let t = e + r;
    assert(t[0] == '\\' && t[1] == 'u' && t[6] == '\\' && t[7] == 'u');
    assert(t.subrange(2, 6) =~= hex4(hi));
    assert(t.subrange(8, 12) =~= hex4(lo));
    lemma_hex4_value(t, 2, hi);
    lemma_hex4_value(t, 8, lo);
    assert(t.skip(12) =~= r);
    lemma_unescape_pair(t, hi, lo);
    assert(0x10000 + (hi - 0xD800) * 0x400 + (lo - 0xDC00) == v);
}

/// Reading back the escape of one character yields that character.
proof fn lemma_unescape_escape_char(c: char, r: Seq<char>)
    ensures
        json_unescape(escape_char(c) + r) == prepend(c, json_unescape(r)),
{
    let t = escape_char(c) + r;
    if c == '"' || c == '\\' || c == '\x08' || c == '\x0C' || c == '\n' || c == '\r' || c == '\t' {
        assert(t[0] == '\\');
        assert(t.skip(2) =~= r);
    } else if ' ' <= c <= '~' {
        assert(t[0] == c);
        assert(t.skip(1) =~= r);
    } else if (c as u32) < 0x10000 {
        lemma_unescape_bmp(c, r);
    } else {
        lemma_unescape_supplementary(c, r);
    }
}

/// Reading back the escape of a text yields the text.
pub proof fn lemma_unescape_escape(s: Seq<char>)
    ensures
        json_unescape(escape_chars(s)) == Some(s),
    decreases s.len(),
{
    if s.len() == 0 {
        assert(escape_chars(s) =~= Seq::<char>::empty());
    } else {
        lemma_unescape_escape(s.skip(1));
        lemma_unescape_escape_char(s[0], escape_chars(s.skip(1)));
        assert(seq![s[0]] + s.skip(1) =~= s);
    }
}

/// Escaping a text as a JSON string, then reading that string as standard
/// JSON, gives back the text.
pub proof fn lemma_json_string_round_trip(s: Seq<char>)
    ensures
        json_string_value(json_string(s)) == Some(s),
{
    let q = json_string(s);
    assert(q.subrange(1, q.len() - 1) =~= escape_chars(s));
    lemma_unescape_escape(s);
}

proof fn lemma_escape_chars_append(a: Seq<char>, c: char)
    ensures
        escape_chars(a.push(c)) == escape_chars(a) + escape_char(c),
    decreases a.len(),
{
    if a.len() == 0 {
        let one = a.push(c);
        assert(one.skip(1) =~= Seq::<char>::empty());
        assert(one[0] == c);
        assert(escape_chars(one.skip(1)) == Seq::<char>::empty());
        assert(escape_chars(one) == escape_char(c) + escape_chars(one.skip(1)));
        assert(escape_chars(one) =~= escape_char(c));
        assert(escape_chars(a) + escape_char(c) =~= escape_char(c));
    } else {
        lemma_escape_chars_append(a.skip(1), c);
        assert(a.push(c).skip(1) =~= a.skip(1).push(c));
        assert(a.push(c)[0] == a[0]);
        assert(escape_chars(a.push(c)) =~= escape_char(a[0]) + (escape_chars(a.skip(1)) + escape_char(c)));
    }
}

/// The lowercase hexadecimal digit for `d`.
fn hex_digit_char(d: u32) -> (r: char)
    requires
        d < 16,
    ensures
        r == hex_digit(d as int),
{
    if d < 10 {
        (48u8 + d as u8) as char
    } else {
        (87u8 + d as u8) as char
    }
}

/// Appends the `\u` escape of one UTF-16 code unit.
fn push_unit_escape(out: &mut String, u: u32)
    requires
        u < 0x10000,
    ensures
        final(out)@ == old(out)@ + seq!['\\', 'u'] + hex4(u as int),
{
    out.push('\\');
    out.push('u');
    out.push(hex_digit_char(u / 4096));
    out.push(hex_digit_char((u / 256) % 16));
    out.push(hex_digit_char((u / 16) % 16));
    out.push(hex_digit_char(u % 16));
    assert(final(out)@ =~= old(out)@ + seq!['\\', 'u'] + hex4(u as int));
}

/// Appends the JSON escape of one character.
fn push_escape(out: &mut String, c: char)
    ensures
        final(out)@ == old(out)@ + escape_char(c),
{
    let short: Option<char> = if c == '"' {
        Some('"')
    } else if c == '\\' {
        Some('\\')
    } else if c == '\x08' {
        Some('b')
    } else if c == '\x0C' {
        Some('f')
    } else if c == '\n' {
        Some('n')
    } else if c == '\r' {
        Some('r')
    } else if c == '\t' {
        Some('t')
    } else {
        None
    };
    match short {
        Some(e) => {
            out.push('\\');
            out.push(e);
            assert(final(out)@ =~= old(out)@ + escape_char(c));
        },
        None => {
            if ' ' <= c && c <= '~' {
                out.push(c);
                assert(final(out)@ =~= old(out)@ + escape_char(c));
            } else {
                let v = c as u32;
                if v < 0x10000 {
                    push_unit_escape(out, v);
                    proof {
                        lemma_unit_escape_one(v as int);
                        assert(utf16_units(c) =~= seq![v as int]);
                    }
                } else {
                    proof {
                        char_is_scalar(c);
                        lemma_surrogate_pair(v as int);
                    }
                    let hi = 0xD800 + (v - 0x10000) / 0x400;
                    let lo = 0xDC00 + (v - 0x10000) % 0x400;
                    push_unit_escape(out, hi);
                    push_unit_escape(out, lo);
                    proof {
                        let units = utf16_units(c);
                        assert(units =~= seq![hi as int, lo as int]);
                        assert(units.skip(1) =~= seq![lo as int]);
                        lemma_unit_escape_one(lo as int);
                        assert(final(out)@ =~= old(out)@ + unit_escapes(units));
                    }
                }
            }
        },
    }
}

/// Appends `s` as a JSON string literal: in double quotes, with the quote,
/// the backslash and control characters escaped, and every character outside
/// printable ASCII written as `\u` escapes of its UTF-16 code units.
pub fn write_json_str(s: &str, out: &mut String)
    ensures
        final(out)@ == old(out)@ + json_string(s@),
{
    out.push('"');
    for c in it: s.chars()
        invariant
            it.seq() == s@,
            out@ == old(out)@ + seq!['"'] + escape_chars(it.seq().take(it.index() as int)),
    {
        proof {
            assert(it.seq().take(it.index() + 1) =~= it.seq().take(it.index() as int).push(c));
            lemma_escape_chars_append(it.seq().take(it.index() as int), c);
        }
        push_escape(out, c);
    }
    out.push('"');
    assert(s@.take(s@.len() as int) =~= s@);
    assert(final(out)@ =~= old(out)@ + json_string(s@));
}

/// Members of a JSON object joined by `", "`.
pub open spec fn join_members(ms: Seq<Seq<char>>) -> Seq<char>
    decreases ms.len(),
{
    if ms.len() == 0 {
        Seq::empty()
    } else if ms.len() == 1 {
        ms[0]
    } else {
        join_members(ms.drop_last()) + seq![',', ' '] + ms.last()
    }
}

/// One member of a JSON object: the key as a JSON string, `": "` and the
/// value's JSON text.
pub open spec fn json_member(key: Seq<char>, value: Seq<char>) -> Seq<char> {
    json_string(key) + seq![':', ' '] + value
}

/// A JSON object of the given members, on one line.
pub open spec fn json_object(ms: Seq<Seq<char>>) -> Seq<char> {
    seq!['{'] + join_members(ms) + seq!['}']
}

/// Builds a one-line JSON object member by member.
pub struct JsonStrMap {
    buf: String,
    first: bool,
    members: Ghost<Seq<Seq<char>>>,
}

impl View for JsonStrMap {
    type V = Seq<Seq<char>>;

    /// The members added so far, each as JSON text.
    closed spec fn view(&self) -> Seq<Seq<char>> {
        self.members@
    }
}

impl JsonStrMap {
    /// The text written so far is the object's opening and its members.
    pub closed spec fn wf(&self) -> bool {
        &&& self.buf@ == seq!['{'] + join_members(self.members@)
        &&& self.first == (self.members@.len() == 0)
    }

    /// An object with no members.
    pub fn new() -> (r: JsonStrMap)
        ensures
            r.wf(),
            r@ == Seq::<Seq<char>>::empty(),
    {
        let mut buf = String::new();
        buf.push('{');
        let r = JsonStrMap { buf, first: true, members: Ghost(Seq::empty()) };
        assert(r.buf@ =~= seq!['{'] + join_members(Seq::empty()));
        r
    }

    /// Starts a member: the separator, the key and `": "`.
    fn open_member(&mut self, key: &str)
        requires
            old(self).wf(),
        ensures
            final(self).buf@ == old(self).buf@ + (if old(self).first {
                Seq::empty()
            } else {
                seq![',', ' ']
            }) + json_string(key@) + seq![':', ' '],
            final(self).first == false,
            final(self).members == old(self).members,
    {
        if self.first {
            self.first = false;
        } else {
            self.buf.push(',');
            self.buf.push(' ');
        }
        write_json_str(key, &mut self.buf);
        self.buf.push(':');
        self.buf.push(' ');
        proof {
            if old(self).first {
                assert(final(self).buf@ =~= old(self).buf@ + Seq::<char>::empty() + json_string(key@)
                    + seq![':', ' ']);
            } else {
                assert(final(self).buf@ =~= old(self).buf@ + seq![',', ' '] + json_string(key@) + seq![':', ' ']);
            }
        }
    }

    proof fn lemma_join_push(ms: Seq<Seq<char>>, m: Seq<char>)
        ensures
            join_members(ms.push(m)) == join_members(ms) + (if ms.len() == 0 {
                Seq::empty()
            } else {
                seq![',', ' ']
            }) + m,
    {
        assert(ms.push(m).drop_last() =~= ms);
        if ms.len() == 0 {
            assert(join_members(ms.push(m)) == m);
            assert(join_members(ms) + Seq::<char>::empty() + m =~= m);
        }
    }

    /// The object with one more member whose value is the JSON string of
    /// `value`.
    pub fn field(self, key: &str, value: &str) -> (r: JsonStrMap)
        requires
            self.wf(),
        ensures
            r.wf(),
            r@ == self@.push(json_member(key@, json_string(value@))),
    {
        let mut m = self;
        m.open_member(key);
        write_json_str(value, &mut m.buf);
        let ghost old_ms = self.members@;
        let ghost member = json_member(key@, json_string(value@));
        m.members = Ghost(old_ms.push(member));
        proof {
            JsonStrMap::lemma_join_push(old_ms, member);
            assert(m.buf@ =~= seq!['{'] + join_members(m.members@));
        }
        m
    }

    /// The object with one more member whose value is `value`, taken as JSON
    /// text as it stands.
    pub fn raw_field(self, key: &str, value: &str) -> (r: JsonStrMap)
        requires
            self.wf(),
        ensures
            r.wf(),
            r@ == self@.push(json_member(key@, value@)),
    {
        let mut m = self;
        m.open_member(key);
        m.buf.push_str(value);
        let ghost old_ms = self.members@;
        let ghost member = json_member(key@, value@);
        m.members = Ghost(old_ms.push(member));
        proof {
            JsonStrMap::lemma_join_push(old_ms, member);
            assert(m.buf@ =~= seq!['{'] + join_members(m.members@));
        }
        m
    }

    /// The object's JSON text.
    pub fn finish(self) -> (r: String)
        requires
            self.wf(),
        ensures
            r@ == json_object(self@),
    {
        let mut buf = self.buf;
        buf.push('}');
        buf
    }
}

impl Default for JsonStrMap {
    fn default() -> (r: JsonStrMap)
        ensures
            r.wf(),
            r@ == Seq::<Seq<char>>::empty(),
    {
        JsonStrMap::new()
    }
}

} // verus!
