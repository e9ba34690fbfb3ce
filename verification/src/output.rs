//! Track metadata split into artist and title, and aligned event rows.
use crate::text::{
    chars_of, is_control, is_ctrl, split_once, split_once_slice, string_of, trim, trim_end,
    trim_end_slice, trim_slice,
};
use vstd::prelude::*;

verus! {

/// The separators tried between artist and title, in order: a hyphen, an en dash and an
/// em dash, each with a space on both sides.
pub open spec fn separators() -> Seq<Seq<char>> {
    seq![" - "@, " \u{2013} "@, " \u{2014} "@]
}

/// Artist and title from the separators at index `k` on.
pub open spec fn track_from(m: Seq<char>, k: int) -> (Seq<char>, Seq<char>)
    decreases 3 - k,
{
    if k < 0 || k >= 3 {
        (seq![], trim(m))
    } else {
        match split_once(m, separators()[k]) {
            Some((a, t)) => if trim(a).len() > 0 && trim(t).len() > 0 {
                (trim(a), trim(t))
            } else {
                track_from(m, k + 1)
            },
            None => track_from(m, k + 1),
        }
    }
}

/// Artist and title of ICY metadata: split at the first separator that leaves both sides
/// non-blank; where none does, no artist and the whole (trimmed) text as title.
pub open spec fn track_spec(m: Seq<char>) -> (Seq<char>, Seq<char>) {
    track_from(m, 0)
}

/// Splits stream metadata into artist and title.
pub fn track(metadata: &str) -> (r: (String, String))
    ensures
        (r.0@, r.1@) == track_spec(metadata@),
{
    let m = chars_of(metadata);
    let seps: [&str; 3] = [" - ", " \u{2013} ", " \u{2014} "];
    let mut k: usize = 0;
    while k < 3
        invariant
            k <= 3,
            m@ == metadata@,
            forall|j: int| 0 <= j < 3 ==> (#[trigger] seps@[j])@ == separators()[j],
            track_spec(metadata@) == track_from(metadata@, k as int),
        decreases 3 - k,
    {
        let sep = chars_of(seps[k]);
        match split_once_slice(m.as_slice(), sep.as_slice()) {
            Some((a, t)) => {
                let a = trim_slice(a);
                let t = trim_slice(t);
                if a.len() > 0 && t.len() > 0 {
                    return (string_of(a), string_of(t));
                }
            },
            None => {},
        }
        k = k + 1;
    }
    (String::new(), string_of(trim_slice(m.as_slice())))
}

/// `s` with each control character replaced by a space.
pub open spec fn field_spec(s: Seq<char>) -> Seq<char> {
    s.map_values(|c: char| if is_ctrl(c) { ' ' } else { c })
}

/// Appends `text` to `out`, control characters replaced by spaces.
fn push_field(out: &mut Vec<char>, text: &[char])
    ensures
        final(out)@ == old(out)@ + field_spec(text@),
{
    let ghost start = out@;
    let mut i: usize = 0;
    while i < text.len()
        invariant
            i <= text@.len(),
            out@ =~= start + field_spec(text@.take(i as int)),
        decreases text@.len() - i,
    {
        let c = text[i];
        out.push(if is_control(c) { ' ' } else { c });
        i = i + 1;
        assert(field_spec(text@.take(i as int)) =~= field_spec(text@.take(i - 1)).push(
            if is_ctrl(c) { ' ' } else { c },
        ));
    }
    assert(text@.take(i as int) =~= text@);
}

/// `n` spaces.
pub open spec fn spaces(n: int) -> Seq<char> {
    Seq::new(if n > 0 { n as nat } else { 0 }, |i: int| ' ')
}

/// `s` padded with spaces to at least `w` characters, as `{:w}` formats it.
pub open spec fn pad(s: Seq<char>, w: int) -> Seq<char> {
    s + spaces(w - s.len())
}

fn push_spaces(out: &mut Vec<char>, n: usize)
    ensures
        final(out)@ == old(out)@ + spaces(n as int),
{
    let ghost start = out@;
    let mut i: usize = 0;
    while i < n
        invariant
            i <= n,
            out@ =~= start + spaces(i as int),
        decreases n - i,
    {
        out.push(' ');
        i = i + 1;
    }
}

fn push_padded(out: &mut Vec<char>, text: &[char], w: usize)
    ensures
        final(out)@ == old(out)@ + pad(field_spec(text@), w as int),
{
    push_field(out, text);
    if text.len() < w {
        push_spaces(out, w - text.len());
    } else {
        assert(spaces(w - text@.len()) =~= Seq::<char>::empty());
    }
}

/// The event row: time, status and artist in columns of 8, 12 and 28 characters, each
/// followed by four spaces, then the title; control characters become spaces and
/// trailing whitespace is dropped.
pub open spec fn row_spec(time: Seq<char>, status: Seq<char>, artist: Seq<char>, title: Seq<char>) -> Seq<char> {
    trim_end(
        pad(field_spec(time), 8) + "    "@ + pad(field_spec(status), 12) + "    "@ + pad(
            field_spec(artist),
            28,
        ) + "    "@ + field_spec(title),
    )
}

/// Formats one event row.
pub fn row(time: &str, status: &str, artist: &str, title: &str) -> (r: String)
    ensures
        r@ == row_spec(time@, status@, artist@, title@),
{
    let gap = chars_of("    ");
    let mut out: Vec<char> = Vec::new();
    push_padded(&mut out, chars_of(time).as_slice(), 8);
    out.extend_from_slice(gap.as_slice());
    push_padded(&mut out, chars_of(status).as_slice(), 12);
    out.extend_from_slice(gap.as_slice());
    push_padded(&mut out, chars_of(artist).as_slice(), 28);
    out.extend_from_slice(gap.as_slice());
    push_field(&mut out, chars_of(title).as_slice());
    assert(out@ =~= pad(field_spec(time@), 8) + "    "@ + pad(field_spec(status@), 12) + "    "@
        + pad(field_spec(artist@), 28) + "    "@ + field_spec(title@));
    string_of(trim_end_slice(out.as_slice()))
}

/// The text of one field: control characters replaced by spaces.
pub fn field(text: &str) -> (r: String)
    ensures
        r@ == field_spec(text@),
{
    let mut out: Vec<char> = Vec::new();
    push_field(&mut out, chars_of(text).as_slice());
    string_of(out.as_slice())
}

} // verus!
