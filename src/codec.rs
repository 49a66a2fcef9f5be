//! Line framing: splitting a growing byte buffer into lines under a length
//! bound without cutting a UTF-8 sequence, and turning outgoing text into
//! bytes.

use crate::encoding::{latin1ify, latin1ify_chars, CharEncoding};
use bytes::BytesMut;
use vstd::prelude::*;
use vstd::utf8::*;

verus! {

#[verifier::external_type_specification]
#[verifier::external_body]
pub struct ExBytesMut(bytes::BytesMut);

/// The bytes that a buffer holds.
pub uninterp spec fn buffer_contents(b: BytesMut) -> Seq<u8>;

/// Relies on `BytesMut::len`: the number of bytes held.
#[verifier::external_body]
fn buffer_len(b: &BytesMut) -> (r: usize)
    ensures
        r == buffer_contents(*b).len(),
{
    b.len()
}

/// Relies on `BytesMut`'s `AsRef<[u8]>`: a view of the bytes held.
#[verifier::external_body]
fn buffer_bytes(b: &BytesMut) -> (r: &[u8])
    ensures
        r@ == buffer_contents(*b),
{
    b.as_ref()
}

/// Relies on `BytesMut::split_to`: the first `at` bytes move to the result,
/// the rest stay. It panics when `at` exceeds the length.
#[verifier::external_body]
fn buffer_split_to(b: &mut BytesMut, at: usize) -> (r: BytesMut)
    requires
        at <= buffer_contents(*old(b)).len(),
    ensures
        buffer_contents(r) == buffer_contents(*old(b)).take(at as int),
        buffer_contents(*final(b)) == buffer_contents(*old(b)).skip(at as int),
{
    b.split_to(at)
}

/// Relies on `From<BytesMut> for Vec<u8>`: the same bytes, as a vector.
#[verifier::external_body]
fn buffer_into_vec(b: BytesMut) -> (r: Vec<u8>)
    ensures
        r@ == buffer_contents(b),
{
    Vec::from(b)
}

/// Relies on `BytesMut::extend_from_slice`: appends the bytes at the end.
#[verifier::external_body]
fn buffer_extend(b: &mut BytesMut, s: &[u8])
    ensures
        buffer_contents(*final(b)) == buffer_contents(*old(b)) + s@,
{
    b.extend_from_slice(s)
}

/// The newline delimiter.
pub const NEWLINE: u8 = 0x0A;

/// No newline among `b[from..to]`.
pub open spec fn no_newline(b: Seq<u8>, from: int, to: int) -> bool {
    forall|j: int| from <= j < to ==> b[j] != NEWLINE
}

/// The first newline among `b[from..to]`, if any.
pub open spec fn first_newline(b: Seq<u8>, from: int, to: int) -> Option<int>
    decreases to - from,
{
    if from >= to {
        None
    } else if b[from] == NEWLINE {
        Some(from)
    } else {
        first_newline(b, from + 1, to)
    }
}

/// `first_newline` finds a newline with none before it in the range, or
/// finds none because the range holds none.
pub proof fn lemma_first_newline(b: Seq<u8>, from: int, to: int)
    ensures
        match first_newline(b, from, to) {
            Some(k) => from <= k < to && b[k] == NEWLINE && no_newline(b, from, k),
            None => no_newline(b, from, to),
        },
    decreases to - from,
{
    if from < to && b[from] != NEWLINE {
        lemma_first_newline(b, from + 1, to);
    }
}

/// A lead byte whose sequence needs more continuation bytes than the `seen`
/// ones that follow it.
pub open spec fn is_incomplete_lead(b: u8, seen: int) -> bool {
    ||| (0xC0 <= b < 0xE0 && seen < 1)
    ||| (0xE0 <= b < 0xF0 && seen < 2)
    ||| (0xF0 <= b < 0xF8 && seen < 3)
}

/// `buf` ends in an incomplete UTF-8 sequence that starts at `i`: a lead
/// byte followed only by continuation bytes, fewer than it needs.
pub open spec fn incomplete_from(buf: Seq<u8>, i: int) -> bool {
    &&& 0 <= i < buf.len()
    &&& is_incomplete_lead(buf[i], buf.len() - i - 1)
    &&& forall|j: int| i < j < buf.len() ==> is_continuation_byte(buf[j])
}

/// Where `buf` ends in an incomplete UTF-8 sequence (one that appended
/// continuation bytes could complete), the index of that sequence's first
/// byte; otherwise the length of `buf`.
pub open spec fn final_char_boundary(buf: Seq<u8>) -> int {
    if exists|i: int| incomplete_from(buf, i) {
        choose|i: int| incomplete_from(buf, i)
    } else {
        buf.len() as int
    }
}

/// At most one incomplete sequence ends a buffer.
proof fn lemma_incomplete_unique(buf: Seq<u8>, i: int, j: int)
    requires
        incomplete_from(buf, i),
        incomplete_from(buf, j),
    ensures
        i == j,
{
    if i < j {
        assert(is_continuation_byte(buf[j]));
    } else if j < i {
        assert(is_continuation_byte(buf[i]));
    }
}

/// The incomplete sequence at `i` is the one `final_char_boundary` finds.
proof fn lemma_final_char_boundary_at(buf: Seq<u8>, i: int)
    requires
        incomplete_from(buf, i),
    ensures
        final_char_boundary(buf) == i,
{
    let k = choose|k: int| incomplete_from(buf, k);
    lemma_incomplete_unique(buf, i, k);
}

/// Where the boundary falls short of the end, it is fewer than three bytes
/// from it.
proof fn lemma_final_char_boundary_range(buf: Seq<u8>)
    ensures
        final_char_boundary(buf) == buf.len() || (buf.len() - 4 < final_char_boundary(buf) < buf.len()),
{
    if exists|i: int| incomplete_from(buf, i) {
        let k = choose|k: int| incomplete_from(buf, k);
        assert(incomplete_from(buf, k));
    }
}

/// How many leading bytes of `b` one decode step emits as a line, or `None`
/// when it needs more data: the bytes up to and including the first newline
/// in the window `[min(next, read_to), read_to)` with `read_to = min(max, len)`;
/// without one, when the buffer holds at least `max` bytes, the first `max`
/// bytes, cut back to the start of an incomplete UTF-8 sequence under a UTF-8
/// encoding.
pub open spec fn decode_cut(next: int, max: int, is_utf8: bool, b: Seq<u8>) -> Option<int> {
    let read_to = if max < b.len() { max } else { b.len() as int };
    let start = if next < read_to { next } else { read_to };
    match first_newline(b, start, read_to) {
        Some(k) => Some(k + 1),
        None => if b.len() >= max {
            Some(
                if is_utf8 {
                    final_char_boundary(b.take(max))
                } else {
                    max
                },
            )
        } else {
            None
        },
    }
}

/// The text of an outgoing line as it is transmitted: the terminator
/// appended, and under Latin-1 each character above U+00FF replaced by `?`.
pub open spec fn prepared_line(encoding: CharEncoding, crlf: bool, line: Seq<char>) -> Seq<char> {
    let terminated = if crlf {
        line + seq!['\r', '\n']
    } else {
        line + seq!['\n']
    };
    if encoding is Latin1 {
        latin1ify_chars(terminated)
    } else {
        terminated
    }
}

/// Splits a byte stream into lines, each ending in a newline or cut at the
/// maximum line length, and encodes outgoing lines.
#[derive(Clone, Copy, Debug, PartialEq, Eq, Structural, Hash)]
pub struct ConfabCodec {
    /// Offset up to which the current buffer has been searched for a newline.
    next_index: usize,
    /// Maximum length of a line in bytes, the newline included.
    max_length: usize,
    /// Conversion between bytes and text.
    encoding: CharEncoding,
    /// Whether outgoing lines end in CR LF rather than LF.
    crlf: bool,
}

impl ConfabCodec {
    pub closed spec fn spec_next_index(self) -> int {
        self.next_index as int
    }

    pub closed spec fn spec_max_length(self) -> int {
        self.max_length as int
    }

    pub closed spec fn spec_encoding(self) -> CharEncoding {
        self.encoding
    }

    pub closed spec fn spec_crlf(self) -> bool {
        self.crlf
    }

    /// The length bound is positive and the scan offset is not negative.
    pub open spec fn wf(self) -> bool {
        &&& self.spec_max_length() > 0
        &&& 0 <= self.spec_next_index()
    }

    /// A codec with no bound on line length, UTF-8 text and LF line endings.
    pub fn new() -> (r: ConfabCodec)
        ensures
            r.wf(),
            r.spec_next_index() == 0,
            r.spec_max_length() == usize::MAX,
            r.spec_encoding() == CharEncoding::Utf8,
            !r.spec_crlf(),
    {
        ConfabCodec { next_index: 0, max_length: usize::MAX, encoding: CharEncoding::Utf8, crlf: false }
    }

    /// A codec whose lines hold at most `max_length` bytes.
    pub fn new_with_max_length(max_length: usize) -> (r: ConfabCodec)
        requires
            max_length > 0,
        ensures
            r.wf(),
            r.spec_next_index() == 0,
            r.spec_max_length() == max_length,
            r.spec_encoding() == CharEncoding::Utf8,
            !r.spec_crlf(),
    {
        ConfabCodec { max_length, ..ConfabCodec::new() }
    }

    /// The same codec with another character encoding.
    pub fn encoding(self, encoding: CharEncoding) -> (r: ConfabCodec)
        ensures
            r.spec_encoding() == encoding,
            r.spec_next_index() == self.spec_next_index(),
            r.spec_max_length() == self.spec_max_length(),
            r.spec_crlf() == self.spec_crlf(),
    {
        ConfabCodec { encoding, ..self }
    }

    /// The same codec with outgoing lines ending in CR LF (`true`) or LF.
    pub fn crlf(self, crlf: bool) -> (r: ConfabCodec)
        ensures
            r.spec_crlf() == crlf,
            r.spec_next_index() == self.spec_next_index(),
            r.spec_max_length() == self.spec_max_length(),
            r.spec_encoding() == self.spec_encoding(),
    {
        ConfabCodec { crlf, ..self }
    }

    /// The offset of the buffer up to which a newline has been searched for.
    pub fn next_index(&self) -> (r: usize)
        ensures
            r == self.spec_next_index(),
    {
        self.next_index
    }

    pub fn max_length(&self) -> (r: usize)
        ensures
            r == self.spec_max_length(),
    {
        self.max_length
    }

    pub fn char_encoding(&self) -> (r: CharEncoding)
        ensures
            r == self.spec_encoding(),
    {
        self.encoding
    }

    /// The line decoded from the first `cut` bytes of `b`.
    pub open spec fn spec_line(self, b: Seq<u8>, cut: int) -> Seq<char> {
        self.spec_encoding().spec_decode(b.take(cut))
    }
}

impl Default for ConfabCodec {
    fn default() -> (r: ConfabCodec)
        ensures
            r.wf(),
            r.spec_next_index() == 0,
            r.spec_max_length() == usize::MAX,
            r.spec_encoding() == CharEncoding::Utf8,
            !r.spec_crlf(),
    {
        ConfabCodec::new()
    }
}

/// The offset of the first newline among `bytes[from..to]`.
fn find_newline(bytes: &[u8], from: usize, to: usize) -> (r: Option<usize>)
    requires
        from <= to <= bytes@.len(),
    ensures
        r matches Some(k) ==> from <= k < to,
        first_newline(bytes@, from as int, to as int) == match r {
            Some(k) => Some(k as int),
            None => None::<int>,
        },
{
    let mut i = from;
    while i < to
        invariant
            from <= i <= to <= bytes@.len(),
            first_newline(bytes@, from as int, to as int) == first_newline(bytes@, i as int, to as int),
        decreases to - i,
    {
        if bytes[i] == NEWLINE {
            return Some(i);
        }
        i = i + 1;
    }
    None
}

/// If `buf` ends in an incomplete UTF-8 sequence (one that is not valid but
/// which appended continuation bytes could make valid, overlong encodings
/// aside), the index of the start of that sequence; otherwise the length of
/// `buf`.
pub fn find_final_char_boundary(buf: &[u8]) -> (r: usize)
    ensures
        r == final_char_boundary(buf@),
        r <= buf@.len(),
{
    let n = buf.len();
    let mut i = n;
    while i > 0
        invariant
            i <= n == buf@.len(),
            n - i <= 3,
            forall|j: int| i <= j < n ==> is_continuation_byte(buf@[j]),
        decreases i,
    {
        let b = buf[i - 1];
        let seen = n - i;
        if 0x80 <= b && b < 0xC0 && seen < 3 {
            i = i - 1;
        } else if (0xC0 <= b && b < 0xE0 && seen < 1) || (0xE0 <= b && b < 0xF0 && seen < 2) || (
        0xF0 <= b && b < 0xF8 && seen < 3) {
            proof {
                lemma_final_char_boundary_at(buf@, i - 1);
            }
            return i - 1;
        } else {
            proof {
                assert forall|k: int| !incomplete_from(buf@, k) by {
                    if incomplete_from(buf@, k) {
                        if k >= i {
                            assert(is_continuation_byte(buf@[k]));
                        } else if k < i - 1 {
                            assert(is_continuation_byte(buf@[i - 1]));
                        }
                    }
                }
            }
            return n;
        }
    }
    proof {
        assert forall|k: int| !incomplete_from(buf@, k) by {
            if incomplete_from(buf@, k) {
                assert(is_continuation_byte(buf@[k]));
            }
        }
    }
    n
}

impl ConfabCodec {
    /// Emits the next line of `buf`, or `None` when more data is needed.
    ///
    /// A line is the bytes up to and including the first newline within the
    /// first `max_length` bytes. Without such a newline, a buffer of at least
    /// `max_length` bytes yields its first `max_length` bytes as a line, cut
    /// back under a UTF-8 encoding so that no incomplete UTF-8 sequence ends
    /// it. The emitted bytes leave the buffer. Only bytes not yet searched are
    /// searched again. Never fails.
    pub fn decode(&mut self, buf: &mut BytesMut) -> (r: Option<String>)
        requires
            old(self).wf(),
        ensures
            final(self).wf(),
            final(self).spec_max_length() == old(self).spec_max_length(),
            final(self).spec_encoding() == old(self).spec_encoding(),
            final(self).spec_crlf() == old(self).spec_crlf(),
            ({
                let b = buffer_contents(*old(buf));
                let max = old(self).spec_max_length();
                match decode_cut(old(self).spec_next_index(), max, old(self).spec_encoding().spec_is_utf8(), b) {
                    Some(cut) => {
                        &&& 0 <= cut <= b.len()
                        &&& r matches Some(line) && line@ == old(self).spec_line(b, cut)
                        &&& buffer_contents(*final(buf)) == b.skip(cut)
                        &&& final(self).spec_next_index() == 0
                    },
                    None => {
                        &&& r is None
                        &&& buffer_contents(*final(buf)) == b
                        &&& final(self).spec_next_index() == if max < b.len() { max } else { b.len() as int }
                    },
                }
            }),
            scan_valid(old(self).spec_next_index(), buffer_contents(*old(buf))) ==> scan_valid(
                final(self).spec_next_index(),
                buffer_contents(*final(buf)),
            ),
            final(self).spec_next_index() <= buffer_contents(*final(buf)).len(),
    {
        let len = buffer_len(buf);
        let read_to = if self.max_length < len {
            self.max_length
        } else {
            len
        };
        let start = if self.next_index < read_to {
            self.next_index
        } else {
            read_to
        };
        let cut: Option<usize>;
        {
            let bytes = buffer_bytes(buf);
            match find_newline(bytes, start, read_to) {
                Some(k) => {
                    cut = Some(k + 1);
                },
                None => {
                    if len >= self.max_length {
                        if self.encoding.is_utf8() {
                            let prefix = &bytes[0..self.max_length];
                            assert(prefix@ == bytes@.take(self.max_length as int));
                            cut = Some(find_final_char_boundary(prefix));
                        } else {
                            cut = Some(self.max_length);
                        }
                    } else {
                        cut = None;
                    }
                },
            }
        }
        match cut {
            Some(i) => {
                self.next_index = 0;
                let line = buffer_split_to(buf, i);
                let v = buffer_into_vec(line);
                Some(self.encoding.decode(v))
            },
            None => {
                proof {
                    let b = buffer_contents(*old(buf));
                    lemma_first_newline(b, start as int, read_to as int);
                }
                self.next_index = read_to;
                None
            },
        }
    }

    /// Like `decode`, at the end of the stream: where `decode` emits nothing
    /// and bytes remain, they are emitted as a final line without a newline.
    pub fn decode_eof(&mut self, buf: &mut BytesMut) -> (r: Option<String>)
        requires
            old(self).wf(),
        ensures
            final(self).wf(),
            final(self).spec_max_length() == old(self).spec_max_length(),
            final(self).spec_encoding() == old(self).spec_encoding(),
            final(self).spec_crlf() == old(self).spec_crlf(),
            ({
                let b = buffer_contents(*old(buf));
                let max = old(self).spec_max_length();
                match decode_cut(old(self).spec_next_index(), max, old(self).spec_encoding().spec_is_utf8(), b) {
                    Some(cut) => {
                        &&& r matches Some(line) && line@ == old(self).spec_line(b, cut)
                        &&& buffer_contents(*final(buf)) == b.skip(cut)
                        &&& final(self).spec_next_index() == 0
                    },
                    None => if b.len() == 0 {
                        &&& r is None
                        &&& buffer_contents(*final(buf)) == b
                    } else {
                        &&& r matches Some(line) && line@ == old(self).spec_line(b, b.len() as int)
                        &&& buffer_contents(*final(buf)).len() == 0
                        &&& final(self).spec_next_index() == 0
                    },
                }
            }),
            scan_valid(old(self).spec_next_index(), buffer_contents(*old(buf))) ==> scan_valid(
                final(self).spec_next_index(),
                buffer_contents(*final(buf)),
            ),
            final(self).spec_next_index() <= buffer_contents(*final(buf)).len(),
    {
        match self.decode(buf) {
            Some(frame) => Some(frame),
            None => {
                let n = buffer_len(buf);
                if n == 0 {
                    None
                } else {
                    let line = buffer_split_to(buf, n);
                    let v = buffer_into_vec(line);
                    self.next_index = 0;
                    Some(self.encoding.decode(v))
                }
            },
        }
    }

    /// Appends the bytes of an outgoing line, which the caller has already
    /// terminated, to `buf`.
    pub fn encode(&self, line: &str, buf: &mut BytesMut)
        ensures
            buffer_contents(*final(buf)) == buffer_contents(*old(buf)) + self.spec_encoding().spec_encode(line@),
    {
        let bytes = self.encoding.encode(line);
        buffer_extend(buf, bytes.as_slice());
    }

    /// The text that is transmitted for an outgoing line: the line terminator
    /// appended, and under Latin-1 each character above U+00FF replaced by
    /// `?`, so that what is reported is what is sent.
    pub fn prepare_line(&self, line: String) -> (r: String)
        ensures
            r@ == prepared_line(self.spec_encoding(), self.spec_crlf(), line@),
    {
        let mut line = line;
        if self.crlf {
            line.push_str("\r\n");
        } else {
            line.push_str("\n");
        }
        proof {
            reveal_strlit("\r\n");
            reveal_strlit("\n");
        }
        match self.encoding {
            CharEncoding::Latin1 => latin1ify(line),
            _ => line,
        }
    }
}

/// No newline among the bytes before the scan cursor: what a codec's saved
/// cursor promises of the buffer it was last given.
pub open spec fn scan_valid(next: int, b: Seq<u8>) -> bool {
    no_newline(b, 0, if next < b.len() { next } else { b.len() as int })
}

/// A newline at or before the length limit ends the emitted line, exactly
/// where a search of the whole buffer finds its first newline.
pub proof fn lemma_newline_within_limit(codec: ConfabCodec, b: Seq<u8>, k: int)
    requires
        codec.wf(),
        scan_valid(codec.spec_next_index(), b),
        first_newline(b, 0, b.len() as int) == Some(k),
        k < codec.spec_max_length(),
    ensures
        decode_cut(
            codec.spec_next_index(),
            codec.spec_max_length(),
            codec.spec_encoding().spec_is_utf8(),
            b,
        ) == Some(k + 1),
{
    let max = codec.spec_max_length();
    let next = codec.spec_next_index();
    let read_to = if max < b.len() { max } else { b.len() as int };
    let start = if next < read_to { next } else { read_to };
    lemma_first_newline(b, 0, b.len() as int);
    assert(start <= k) by {
        let lim = if next < b.len() { next } else { b.len() as int };
        if k < lim {
            assert(b[k] != NEWLINE);
        }
    }
    lemma_first_newline(b, start, read_to);
    match first_newline(b, start, read_to) {
        Some(k1) => {
            assert(k1 == k) by {
                if k1 < k {
                    assert(b[k1] != NEWLINE);
                } else if k1 > k {
                    assert(b[k] != NEWLINE);
                }
            }
        },
        None => {
            assert(b[k] != NEWLINE);
        },
    }
}

/// The scalar that starts at a non-continuation byte `p` of valid UTF-8: its
/// width `w`, continuation bytes after it, and no continuation byte right
/// after it.
proof fn lemma_scalar_at(full: Seq<u8>, p: int) -> (w: int)
    requires
        valid_utf8(full),
        0 <= p < full.len(),
        !is_continuation_byte(full[p]),
    ensures
        1 <= w <= 4,
        p + w <= full.len(),
        forall|j: int| p < j < p + w ==> is_continuation_byte(full[j]),
        p + w < full.len() ==> !is_continuation_byte(full[p + w]),
        w == 1 <==> full[p] < 0x80,
        w == 2 <==> 0xC0 <= full[p] <= 0xDF,
        w == 3 <==> 0xE0 <= full[p] <= 0xEF,
        w == 4 <==> 0xF0 <= full[p] <= 0xF7,
{
    is_char_boundary_iff_not_is_continuation_byte(full, p);
    valid_utf8_split(full, p);
    let s = full.subrange(p, full.len() as int);
    assert(s.len() > 0);
    assert(valid_first_scalar(s) && valid_utf8(pop_first_scalar(s)));
    let w = length_of_first_scalar(s);
    assert(s[0] == full[p]);
    let rest = pop_first_scalar(s);
    if p + w < full.len() {
        assert(rest.len() > 0);
        assert(valid_first_scalar(rest));
        assert(rest[0] == full[p + w]);
    }
    assert forall|j: int| p < j < p + w implies is_continuation_byte(full[j]) by {
        assert(s[j - p] == full[j]);
    }
    w
}

/// The last non-continuation byte before index `q + 1` of valid UTF-8.
proof fn lemma_last_lead(full: Seq<u8>, q: int) -> (p: int)
    requires
        valid_utf8(full),
        0 <= q < full.len(),
    ensures
        0 <= p <= q,
        !is_continuation_byte(full[p]),
        forall|j: int| p < j <= q ==> is_continuation_byte(full[j]),
    decreases q,
{
    if !is_continuation_byte(full[q]) {
        q
    } else if q == 0 {
        is_char_boundary_start_end_of_seq(full);
        is_char_boundary_iff_not_is_continuation_byte(full, 0);
        0
    } else {
        lemma_last_lead(full, q - 1)
    }
}

/// A cut of a long line at the limit `max`, without a newline before it, is
/// at a character boundary of valid UTF-8 text that the buffer begins.
proof fn lemma_cut_at_boundary(next: int, max: int, b: Seq<u8>, full: Seq<u8>)
    requires
        next >= 0,
        max > 0,
        b.len() >= max,
        no_newline(b, 0, max),
        valid_utf8(full),
        b.len() <= full.len(),
        b == full.take(b.len() as int),
    ensures
        decode_cut(next, max, true, b) == Some(final_char_boundary(b.take(max))),
        0 <= final_char_boundary(b.take(max)) <= max,
        is_char_boundary(full, final_char_boundary(b.take(max))),
{
    let start = if next < max { next } else { max };
    lemma_first_newline(b, start, max);
    if let Some(k) = first_newline(b, start, max) {
        assert(b[k] != NEWLINE);
    }
    let t = b.take(max);
    let c = final_char_boundary(t);
    let p = lemma_last_lead(full, max - 1);
    let w = lemma_scalar_at(full, p);
    is_char_boundary_start_end_of_seq(full);
    assert(p + w >= max) by {
        if p + w < max {
            assert(is_continuation_byte(full[p + w]));
        }
    }
    assert forall|j: int| p < j < t.len() implies is_continuation_byte(t[j]) by {
        assert(t[j] == full[j]);
    }
    assert(t[p] == full[p]);
    if p + w == max {
        assert forall|k: int| !incomplete_from(t, k) by {
            if incomplete_from(t, k) {
                if k < p {
                    assert(is_continuation_byte(t[p]));
                } else if k > p {
                    assert(is_continuation_byte(t[k]));
                }
            }
        }
        assert(c == max);
        if max < full.len() {
            is_char_boundary_iff_not_is_continuation_byte(full, max);
        }
    } else {
        assert(incomplete_from(t, p));
        lemma_final_char_boundary_at(t, p);
        assert(c == p);
        is_char_boundary_iff_not_is_continuation_byte(full, p);
    }
}

/// Where no newline lies within the length limit, a UTF-8 codec cuts the
/// line at the limit or earlier, and never inside the encoding of a
/// character of valid UTF-8 text that the buffer begins; the emitted line
/// and the bytes left behind make up the buffer.
pub proof fn lemma_long_line_cut(codec: ConfabCodec, b: Seq<u8>, full: Seq<u8>)
    requires
        codec.wf(),
        codec.spec_encoding().spec_is_utf8(),
        b.len() >= codec.spec_max_length(),
        no_newline(b, 0, codec.spec_max_length()),
        valid_utf8(full),
        b.len() <= full.len(),
        b == full.take(b.len() as int),
    ensures
        decode_cut(codec.spec_next_index(), codec.spec_max_length(), true, b) matches Some(c) && {
            &&& 0 <= c <= codec.spec_max_length()
            &&& is_char_boundary(full, c)
            &&& b.take(c) + b.skip(c) == b
        },
{
    lemma_cut_at_boundary(codec.spec_next_index(), codec.spec_max_length(), b, full);
    let c = final_char_boundary(b.take(codec.spec_max_length()));
    assert(b.take(c) + b.skip(c) =~= b);
}

/// With no newline before `start`, searching from `from` finds what
/// searching from `start` finds.
proof fn lemma_first_newline_skip(b: Seq<u8>, from: int, start: int, to: int)
    requires
        from <= start <= to,
        no_newline(b, from, start),
    ensures
        first_newline(b, from, to) == first_newline(b, start, to),
    decreases start - from,
{
    if from < start {
        lemma_first_newline_skip(b, from + 1, start, to);
    }
}

/// A truthful scan offset never changes where a line is cut: the outcome is
/// the one of a search of the whole window.
pub proof fn lemma_scan_offset_irrelevant(next: int, max: int, is_utf8: bool, b: Seq<u8>)
    requires
        0 <= next,
        scan_valid(next, b),
    ensures
        decode_cut(next, max, is_utf8, b) == decode_cut(0, max, is_utf8, b),
{
    let read_to = if max < b.len() { max } else { b.len() as int };
    let start = if next < read_to { next } else { read_to };
    if 0 <= read_to {
        lemma_first_newline_skip(b, 0, start, read_to);
    }
}

/// The byte chunks that a codec emits from a buffer holding the rest of a
/// stream: each line that a decode cuts from the front, then at the end of
/// the stream what remains. (A cut of no bytes, which a limit of at least 4
/// rules out, ends the list with the whole buffer.)
pub open spec fn stream_chunks(max: int, is_utf8: bool, b: Seq<u8>) -> Seq<Seq<u8>>
    decreases b.len(),
{
    match decode_cut(0, max, is_utf8, b) {
        Some(c) => if 0 < c <= b.len() {
            seq![b.take(c)] + stream_chunks(max, is_utf8, b.skip(c))
        } else {
            seq![b]
        },
        None => if b.len() == 0 {
            Seq::empty()
        } else {
            seq![b]
        },
    }
}

/// Byte chunks joined in order.
pub open spec fn join_chunks(cs: Seq<Seq<u8>>) -> Seq<u8>
    decreases cs.len(),
{
    if cs.len() == 0 {
        Seq::empty()
    } else {
        cs[0] + join_chunks(cs.skip(1))
    }
}

/// The texts of byte chunks under an encoding, joined in order.
pub open spec fn join_lines(e: CharEncoding, cs: Seq<Seq<u8>>) -> Seq<char>
    decreases cs.len(),
{
    if cs.len() == 0 {
        Seq::empty()
    } else {
        e.spec_decode(cs[0]) + join_lines(e, cs.skip(1))
    }
}

/// Lines cut from a stream, under a limit of at least 4 bytes (at least 1
/// under Latin-1), rejoin into the stream with no gap or duplication, each
/// of at least 1 and at most `max` bytes; under a UTF-8 encoding, where the
/// stream is valid UTF-8, every line is valid UTF-8 and the lines' texts
/// rejoin into the stream's text.
pub proof fn lemma_stream_lines(e: CharEncoding, max: int, b: Seq<u8>)
    requires
        if e.spec_is_utf8() {
            max >= 4
        } else {
            max >= 1
        },
    ensures
        join_chunks(stream_chunks(max, e.spec_is_utf8(), b)) == b,
        forall|i: int|
            0 <= i < stream_chunks(max, e.spec_is_utf8(), b).len() ==> 0 < #[trigger] stream_chunks(
                max,
                e.spec_is_utf8(),
                b,
            )[i].len() <= max,
        e.spec_is_utf8() && valid_utf8(b) ==> join_lines(e, stream_chunks(max, true, b)) == decode_utf8(b),
    decreases b.len(),
{
    let u = e.spec_is_utf8();
    let cs = stream_chunks(max, u, b);
    let read_to = if max < b.len() { max } else { b.len() as int };
    lemma_first_newline(b, 0, read_to);
    match decode_cut(0, max, u, b) {
        Some(c) => {
            match first_newline(b, 0, read_to) {
                Some(k) => {
                    assert(c == k + 1);
                },
                None => {
                    if u {
                        lemma_final_char_boundary_range(b.take(max));
                    }
                },
            }
            assert(0 < c <= max && c <= b.len());
            let rest = b.skip(c);
            lemma_stream_lines(e, max, rest);
            let rs = stream_chunks(max, u, rest);
            assert(cs == seq![b.take(c)] + rs);
            assert(cs.skip(1) =~= rs);
            assert(cs[0] == b.take(c));
            assert(b.take(c) + rest =~= b);
            assert forall|i: int| 0 <= i < cs.len() implies 0 < #[trigger] cs[i].len() <= max by {
                if i > 0 {
                    assert(cs[i] == rs[i - 1]);
                }
            }
            if u && valid_utf8(b) {
                match first_newline(b, 0, read_to) {
                    Some(k) => {
                        let w = lemma_scalar_at(b, k);
                        is_char_boundary_start_end_of_seq(b);
                        if k + 1 < b.len() {
                            is_char_boundary_iff_not_is_continuation_byte(b, k + 1);
                        }
                    },
                    None => {
                        assert(b.take(b.len() as int) =~= b);
                        lemma_cut_at_boundary(0, max, b, b);
                    },
                }
                assert(is_char_boundary(b, c));
                valid_utf8_split(b, c);
                decode_utf8_split(b, c);
                assert(b.subrange(0, c) == b.take(c));
                assert(b.subrange(c, b.len() as int) == rest);
            }
        },
        None => {
            if b.len() > 0 {
                assert(cs == seq![b]);
                assert(cs.skip(1) =~= Seq::<Seq<u8>>::empty());
                assert(join_chunks(cs.skip(1)) == Seq::<u8>::empty());
                assert(b + Seq::<u8>::empty() =~= b);
                assert(join_lines(e, cs.skip(1)) == Seq::<char>::empty());
                if u && valid_utf8(b) {
                    assert(decode_utf8(b) + Seq::<char>::empty() =~= decode_utf8(b));
                }
            }
        },
    }
}

/// Bytes appended to a buffer keep its scan offset truthful.
pub proof fn lemma_scan_valid_extend(next: int, b: Seq<u8>, more: Seq<u8>)
    requires
        0 <= next <= b.len(),
        scan_valid(next, b),
    ensures
        scan_valid(next, b + more),
{
    assert forall|j: int| 0 <= j < next implies (b + more)[j] != NEWLINE by {
        assert((b + more)[j] == b[j]);
    }
}

/// The text transmitted for a line is the line, under Latin-1 with each
/// character above U+00FF replaced by `?`, followed by CR LF or LF.
pub proof fn lemma_sent_line(encoding: CharEncoding, crlf: bool, line: Seq<char>)
    ensures
        prepared_line(encoding, crlf, line) == (if encoding is Latin1 {
            latin1ify_chars(line)
        } else {
            line
        }) + if crlf {
            seq!['\r', '\n']
        } else {
            seq!['\n']
        },
{
    let term = if crlf { seq!['\r', '\n'] } else { seq!['\n'] };
    if encoding is Latin1 {
        assert(latin1ify_chars(line + term) =~= latin1ify_chars(line) + term);
    }
}

} // verus!
