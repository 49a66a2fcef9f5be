//! Making received and sent text safe to show on a terminal: control
//! characters and other invisible code points become visible notations shown
//! in reverse video.

use itertools::Itertools;
use unicode_general_category::{get_general_category, GeneralCategory};
use vstd::prelude::*;
use vstd::string::StrSliceExecFns;

verus! {

/// A character's Unicode general category within the "Other" (C) group.
#[derive(Clone, Copy, Debug, PartialEq, Eq, Structural)]
pub enum Category {
    Control,
    Format,
    Surrogate,
    PrivateUse,
    Unassigned,
    /// A category outside the "Other" group (a letter, mark, number,
    /// punctuation, symbol or separator).
    NotOther,
}

/// The character's category within the "Other" group.
pub uninterp spec fn category_of(c: char) -> Category;

/// Relies on `unicode_general_category::get_general_category`: the category
/// of a character depends on the character alone.
#[verifier::external_body]
fn general_category(c: char) -> (r: Category)
    ensures
        r == category_of(c),
{
    match get_general_category(c) {
        GeneralCategory::Control => Category::Control,
        GeneralCategory::Format => Category::Format,
        GeneralCategory::Surrogate => Category::Surrogate,
        GeneralCategory::PrivateUse => Category::PrivateUse,
        GeneralCategory::Unassigned => Category::Unassigned,
        _ => Category::NotOther,
    }
}

/// The categories whose characters are shown in a visible notation: those
/// of the "Other" group but Format.
pub open spec fn is_invisible_category(k: Category) -> bool {
    k == Category::Control || k == Category::Surrogate || k == Category::PrivateUse || k
        == Category::Unassigned
}

/// Characters shown in a visible notation: those of an invisible category,
/// except the tab.
pub open spec fn spec_needs_vis(c: char) -> bool {
    c != '\t' && is_invisible_category(category_of(c))
}

/// The uppercase hexadecimal digit for `d < 16`.
pub open spec fn upper_hex_digit(d: int) -> char {
    if d < 10 {
        (('0' as u32) + d) as char
    } else {
        (('A' as u32) + d - 10) as char
    }
}

/// `v` in uppercase hexadecimal, padded with zeros to at least `width`
/// digits.
pub open spec fn upper_hex(v: nat, width: nat) -> Seq<char>
    decreases v + width,
{
    if v < 16 && width <= 1 {
        seq![upper_hex_digit(v as int)]
    } else {
        upper_hex(v / 16, if width > 0 { (width - 1) as nat } else { 0 }).push(upper_hex_digit((v % 16) as int))
    }
}

/// The visible notation of a character: caret notation for C0 controls and
/// DEL, and `<U+XXXX>` for the rest.
pub open spec fn vis_text(c: char) -> Seq<char> {
    let v = c as u32;
    if v < 0x20 {
        seq!['^', (v + 0x40) as char]
    } else if v == 0x7F {
        seq!['^', '?']
    } else {
        seq!['<', 'U', '+'] + upper_hex(v as nat, 4) + seq!['>']
    }
}

/// A run of text to display, plain or in reverse video.
#[derive(Debug, PartialEq, Eq)]
pub struct VisChunk {
    /// Shown in reverse video.
    pub reverse: bool,
    pub text: String,
}

/// A text split into maximal runs of consecutive characters that agree on
/// whether they need a visible notation, each run with that flag.
pub open spec fn vis_runs(s: Seq<char>) -> Seq<(bool, Seq<char>)>
    decreases s.len(),
{
    if s.len() == 0 {
        Seq::empty()
    } else {
        let prev = vis_runs(s.drop_last());
        let c = s.last();
        let f = spec_needs_vis(c);
        if prev.len() > 0 && prev.last().0 == f {
            prev.update(prev.len() - 1, (f, prev.last().1.push(c)))
        } else {
            prev.push((f, seq![c]))
        }
    }
}

/// The visible notations of a text's characters, in order.
pub open spec fn vis_texts(t: Seq<char>) -> Seq<char>
    decreases t.len(),
{
    if t.len() == 0 {
        Seq::empty()
    } else {
        vis_texts(t.drop_last()) + vis_text(t.last())
    }
}

/// How a run is shown: a run that needs it in visible notation, the rest as
/// it is.
pub open spec fn shown_run(run: (bool, Seq<char>)) -> (bool, Seq<char>) {
    if run.0 {
        (true, vis_texts(run.1))
    } else {
        run
    }
}

/// A text as runs for display, each with whether it is reversed.
pub open spec fn vis_chunks(s: Seq<char>) -> Seq<(bool, Seq<char>)> {
    vis_runs(s).map_values(|run: (bool, Seq<char>)| shown_run(run))
}

/// The runs that pairs of flag and text hold.
pub open spec fn runs_view(v: Seq<(bool, String)>) -> Seq<(bool, Seq<char>)> {
    Seq::new(v.len(), |i: int| (v[i].0, v[i].1@))
}

/// Relies on `Itertools::chunk_by` over the text's characters, keyed by
/// `needs_vis`: consecutive characters with equal keys form one run.
#[verifier::external_body]
fn runs_by_visibility(s: &str) -> (r: Vec<(bool, String)>)
    ensures
        runs_view(r@) == vis_runs(s@),
{
    s.chars()
        .chunk_by(|c| needs_vis(*c))
        .into_iter()
        .map(|(v, cs)| (v, cs.collect::<String>()))
        .collect()
}

/// The runs that a sequence of chunks holds.
pub open spec fn chunks_view(v: Seq<VisChunk>) -> Seq<(bool, Seq<char>)> {
    Seq::new(v.len(), |i: int| (v[i].reverse, v[i].text@))
}

/// Whether a character is shown in a visible notation.
pub fn needs_vis(c: char) -> (r: bool)
    ensures
        r == spec_needs_vis(c),
{
    if c == '\t' {
        return false;
    }
    match general_category(c) {
        Category::Control | Category::Surrogate | Category::PrivateUse | Category::Unassigned => true,
        _ => false,
    }
}

/// Appends `v` in uppercase hexadecimal, zero-padded to `width` digits.
fn push_upper_hex(out: &mut String, v: u32, width: u32)
    requires
        width <= 8,
    ensures
        final(out)@ == old(out)@ + upper_hex(v as nat, width as nat),
    decreases v + width,
{
    if v < 16 && width <= 1 {
        out.push(upper_hex_char(v));
    } else {
        let w: u32 = if width > 0 {
            width - 1
        } else {
            0
        };
        push_upper_hex(out, v / 16, w);
        out.push(upper_hex_char(v % 16));
        assert(final(out)@ =~= old(out)@ + upper_hex(v as nat, width as nat));
    }
}

fn upper_hex_char(d: u32) -> (r: char)
    requires
        d < 16,
    ensures
        r == upper_hex_digit(d as int),
{
    if d < 10 {
        (48u8 + d as u8) as char
    } else {
        (55u8 + d as u8) as char
    }
}

/// The visible notation of a character.
pub fn vis(c: char) -> (r: String)
    ensures
        r@ == vis_text(c),
{
    let v = c as u32;
    let mut out = String::new();
    if v < 0x20 {
        out.push('^');
        out.push(((v + 0x40) as u8) as char);
    } else if v == 0x7F {
        out.push('^');
        out.push('?');
    } else {
        out.push('<');
        out.push('U');
        out.push('+');
        push_upper_hex(&mut out, v, 4);
        out.push('>');
    }
    assert(out@ =~= vis_text(c));
    out
}

/// The visible notations of a text's characters, joined.
fn vis_all(t: &str) -> (r: String)
    ensures
        r@ == vis_texts(t@),
{
    let mut out = String::new();
    for c in it: t.chars()
        invariant
            it.seq() == t@,
            out@ == vis_texts(it.seq().take(it.index() as int)),
    {
        proof {
            let after = it.seq().take(it.index() + 1);
            assert(after.drop_last() =~= it.seq().take(it.index() as int));
        }
        let v = vis(c);
        out.push_str(v.as_str());
    }
    assert(t@.take(t@.len() as int) =~= t@);
    out
}

/// Splits a text into runs for display: characters that need a visible
/// notation are shown in it, in reverse video; the rest are shown as they
/// are.
pub fn display_vis(s: &str) -> (r: Vec<VisChunk>)
    ensures
        chunks_view(r@) == vis_chunks(s@),
{
    let runs = runs_by_visibility(s);
    let ghost want = vis_chunks(s@);
    let mut out: Vec<VisChunk> = Vec::new();
    for i in 0..runs.len()
        invariant
            runs_view(runs@) == vis_runs(s@),
            want == vis_chunks(s@),
            want.len() == runs@.len(),
            out@.len() == i,
            chunks_view(out@) == want.take(i as int),
    {
        let reverse = runs[i].0;
        let text = if reverse {
            vis_all(runs[i].1.as_str())
        } else {
            runs[i].1.clone()
        };
        proof {
            assert(runs_view(runs@)[i as int] == (reverse, runs@[i as int].1@));
            assert(want[i as int] == shown_run(vis_runs(s@)[i as int]));
            assert(vis_runs(s@)[i as int] == (reverse, runs@[i as int].1@));
            assert(text@ == want[i as int].1);
            assert(reverse == want[i as int].0);
        }
        let ghost tv = text@;
        let ghost before = out@;
        out.push(VisChunk { reverse, text });
        assert(out@[i as int].text@ == tv && out@[i as int].reverse == reverse);
        assert(chunks_view(before) =~= want.take(i as int));
        assert forall|j: int| 0 <= j < i implies chunks_view(out@)[j] == chunks_view(before)[j] by {
            assert(out@[j] == before[j]);
        }
        assert(chunks_view(out@) =~= want.take(i + 1));
    }
    assert(want.take(runs@.len() as int) =~= want);
    out
}

/// A text without one trailing LF, then without one trailing CR.
pub open spec fn chomped(s: Seq<char>) -> Seq<char> {
    let t = if s.len() > 0 && s.last() == '\n' {
        s.drop_last()
    } else {
        s
    };
    if t.len() > 0 && t.last() == '\r' {
        t.drop_last()
    } else {
        t
    }
}

/// Removes one trailing LF, then one trailing CR.
pub fn chomp(s: &str) -> (r: &str)
    ensures
        r@ == chomped(s@),
{
    let mut n = s.unicode_len();
    if n > 0 && s.get_char(n - 1) == '\n' {
        n = n - 1;
    }
    if n > 0 && s.get_char(n - 1) == '\r' {
        n = n - 1;
    }
    let r = s.substring_char(0, n);
    assert(r@ =~= chomped(s@));
    r
}

} // verus!
