//! PLS and M3U playlists: the stream entries they list, in order.
use super::RadioError;
use crate::num::{parse_uint, parse_uint_slice};
use crate::text::{
    any_ws_or_ctrl, chars_of, has_ws_or_ctrl, lower, lower_slice, split_char, split_once,
    split_once_slice, split_ranges, starts_with, starts_with_slice, string_of, strip_prefix,
    strip_prefix_slice, trim, trim_slice, is_ws, lemma_trim_push_ws, split_fold,
};
use crate::hls::playlist::strip_boms;
use crate::web::{join_and_validate, join_spec, UrlParts, WebUrl};
use vstd::prelude::*;

verus! {

/// A playlist entry: its position key and its text.
pub type Entry = (usize, Seq<char>);

/// The entry that one trimmed line adds, if any. A PLS line `FileN=value` (the key trimmed
/// and case-insensitive) adds `(N, value)`; an M3U line that is no comment adds itself,
/// keyed by the number of entries before it.
pub open spec fn line_entry(line: Seq<char>, pls: bool, count: nat) -> Option<Entry> {
    if line.len() == 0 {
        None
    } else if pls {
        match split_once(line, seq!['=']) {
            Some((k, v)) => match strip_prefix(lower(trim(k)), "file"@) {
                Some(n) => match parse_uint(n, 10, usize::MAX as nat) {
                    Ok(i) => Some((i as usize, trim(v))),
                    Err(_) => None,
                },
                None => None,
            },
            None => None,
        }
    } else if !starts_with(line, seq!['#']) {
        Some((count as usize, line))
    } else {
        None
    }
}

/// The entries of the lines, in line order.
pub open spec fn entries_of(lines: Seq<Seq<char>>, pls: bool) -> Seq<Entry>
    decreases lines.len(),
{
    if lines.len() == 0 {
        seq![]
    } else {
        let prev = entries_of(lines.drop_last(), pls);
        match line_entry(trim(lines.last()), pls, prev.len()) {
            Some(e) => prev.push(e),
            None => prev,
        }
    }
}

/// `s` (ordered by key) with `x` inserted after every element whose key is no larger.
pub open spec fn insert_entry(s: Seq<Entry>, x: Entry) -> Seq<Entry>
    decreases s.len(),
{
    if s.len() == 0 {
        seq![x]
    } else if s.last().0 <= x.0 {
        s.push(x)
    } else {
        insert_entry(s.drop_last(), x).push(s.last())
    }
}

/// The entries in stable order of their keys.
pub open spec fn sort_entries(s: Seq<Entry>) -> Seq<Entry>
    decreases s.len(),
{
    if s.len() == 0 {
        seq![]
    } else {
        insert_entry(sort_entries(s.drop_last()), s.last())
    }
}

/// The stream URL of an entry: a non-empty text without whitespace or control characters,
/// resolved against `base` to an HTTP(S) URL with a host.
pub open spec fn entry_url(base: Seq<char>, entry: Seq<char>) -> Option<UrlParts> {
    if entry.len() == 0 || has_ws_or_ctrl(entry) {
        None
    } else {
        match join_spec(base, entry) {
            Some(Ok(u)) => Some(u),
            _ => None,
        }
    }
}

/// The stream URLs of the entries, in order, skipping unusable entries.
pub open spec fn entry_urls(base: Seq<char>, es: Seq<Entry>) -> Seq<UrlParts>
    decreases es.len(),
{
    if es.len() == 0 {
        seq![]
    } else {
        let prev = entry_urls(base, es.drop_last());
        match entry_url(base, es.last().1) {
            Some(u) => prev.push(u),
            None => prev,
        }
    }
}

/// The stream URLs that a PLS (`pls`) or M3U playlist, fetched from `base`, lists: the
/// usable entries in order of their keys (PLS `FileN` numbers, or M3U line order).
pub open spec fn playlist_spec(text: Seq<char>, pls: bool, base: Seq<char>) -> Result<Seq<UrlParts>, RadioError> {
    let urls = entry_urls(base, sort_entries(entries_of(split_char(strip_boms(text), '\n'), pls)));
    if urls.len() == 0 {
        Err(RadioError::NoEntries)
    } else {
        Ok(urls)
    }
}

/// The view of each URL.
pub open spec fn urls_view(v: Seq<WebUrl>) -> Seq<UrlParts> {
    v.map_values(|u: WebUrl| u@)
}

/// The view of each entry.
pub open spec fn entries_view(v: Seq<(usize, Vec<char>)>) -> Seq<Entry> {
    v.map_values(|e: (usize, Vec<char>)| (e.0, e.1@))
}

fn to_vec(s: &[char]) -> (r: Vec<char>)
    ensures
        r@ == s@,
{
    let mut v: Vec<char> = Vec::new();
    v.extend_from_slice(s);
    assert(v@ =~= s@);
    v
}

fn read_entry(line: &[char], pls: bool, count: usize) -> (r: Option<(usize, Vec<char>)>)
    ensures
        match line_entry(line@, pls, count as nat) {
            Some(e) => r matches Some(x) && x.0 == e.0 && x.1@ == e.1,
            None => r is None,
        },
{
    if line.len() == 0 {
        return None;
    }
    if pls {
        let eq = ['='];
        assert(eq@ =~= seq!['=']);
        match split_once_slice(line, eq.as_slice()) {
            Some((k, v)) => {
                let key = lower_slice(trim_slice(k));
                match strip_prefix_slice(key.as_slice(), chars_of("file").as_slice()) {
                    Some(n) => match parse_uint_slice(n, 10, usize::MAX as u128) {
                        Ok(i) => Some((i as usize, to_vec(trim_slice(v)))),
                        Err(_) => None,
                    },
                    None => None,
                }
            },
            None => None,
        }
    } else {
        let hash = ['#'];
        assert(hash@ =~= seq!['#']);
        if !starts_with_slice(line, hash.as_slice()) {
            Some((count, to_vec(line)))
        } else {
            None
        }
    }
}

proof fn lemma_insert_entry(s: Seq<Entry>, x: Entry, j: int)
    requires
        0 <= j <= s.len(),
        j == 0 || s[j - 1].0 <= x.0,
        forall|k: int| j <= k < s.len() ==> !((#[trigger] s[k]).0 <= x.0),
    ensures
        insert_entry(s, x) == s.take(j).push(x) + s.skip(j),
    decreases s.len(),
{
    if s.len() == 0 {
        assert(s.take(j).push(x) + s.skip(j) =~= seq![x]);
    } else if j == s.len() {
        assert(s.take(j).push(x) + s.skip(j) =~= s.push(x));
    } else {
        let d = s.drop_last();
        assert forall|k: int| j <= k < d.len() implies !((#[trigger] d[k]).0 <= x.0) by {
            assert(d[k] == s[k]);
        }
        lemma_insert_entry(d, x, j);
        assert(d.take(j).push(x) + d.skip(j) + seq![s.last()] =~= s.take(j).push(x) + s.skip(j));
    }
}

fn insert_sorted(s: Vec<(usize, Vec<char>)>, x: (usize, Vec<char>)) -> (r: Vec<(usize, Vec<char>)>)
    ensures
        entries_view(r@) == insert_entry(entries_view(s@), (x.0, x.1@)),
{
    let ghost sv = entries_view(s@);
    let ghost xv = (x.0, x.1@);
    let mut j: usize = s.len();
    while j > 0 && !(s[j - 1].0 <= x.0)
        invariant
            j <= s@.len(),
            sv == entries_view(s@),
            xv == (x.0, x.1@),
            forall|k: int| j <= k < s@.len() ==> !((#[trigger] sv[k]).0 <= xv.0),
        decreases j,
    {
        j = j - 1;
    }
    proof {
        lemma_insert_entry(sv, xv, j as int);
    }
    let mut s = s;
    s.insert(j, x);
    assert(entries_view(s@) =~= sv.take(j as int).push(xv) + sv.skip(j as int));
    s
}

/// What a character becomes when line feeds are written as CR LF.
pub open spec fn crlf_piece(c: char) -> Seq<char> {
    if c == '\n' {
        seq!['\r', '\n']
    } else {
        seq![c]
    }
}

/// `s` with every line feed written as CR LF.
pub open spec fn with_crlf(s: Seq<char>) -> Seq<char>
    decreases s.len(),
{
    if s.len() == 0 {
        seq![]
    } else {
        crlf_piece(s[0]) + with_crlf(s.drop_first())
    }
}

proof fn lemma_with_crlf_push(s: Seq<char>, c: char)
    ensures
        with_crlf(s.push(c)) == with_crlf(s) + crlf_piece(c),
    decreases s.len(),
{
    if s.len() == 0 {
        assert(s.push(c).drop_first() =~= Seq::<char>::empty());
        assert(s.push(c)[0] == c);
        assert(with_crlf(Seq::<char>::empty()) == Seq::<char>::empty());
        assert(with_crlf(s.push(c)) =~= with_crlf(s) + crlf_piece(c));
    } else {
        assert(s.push(c).drop_first() =~= s.drop_first().push(c));
        assert(s.push(c)[0] == s[0]);
        lemma_with_crlf_push(s.drop_first(), c);
        assert(with_crlf(s.push(c)) =~= with_crlf(s) + crlf_piece(c));
    }
}

proof fn lemma_with_crlf_boms(s: Seq<char>)
    ensures
        strip_boms(with_crlf(s)) == with_crlf(strip_boms(s)),
    decreases s.len(),
{
    if s.len() > 0 {
        let w = with_crlf(s);
        assert(w[0] == crlf_piece(s[0])[0]);
        if s[0] == '\u{feff}' {
            assert(w.drop_first() =~= with_crlf(s.drop_first()));
            lemma_with_crlf_boms(s.drop_first());
        }
    }
}

proof fn lemma_with_crlf_split(s: Seq<char>)
    ensures
        split_fold(with_crlf(s), '\n').0 == split_fold(s, '\n').0.map_values(
            |l: Seq<char>| l.push('\r'),
        ),
        split_fold(with_crlf(s), '\n').1 == split_fold(s, '\n').1,
    decreases s.len(),
{
    if s.len() > 0 {
        let p = s.drop_last();
        let c = s.last();
        assert(p.push(c) =~= s);
        lemma_with_crlf_push(p, c);
        lemma_with_crlf_split(p);
        let w = with_crlf(p);
        let d = split_fold(p, '\n').0;
        let cur = split_fold(p, '\n').1;
        if c == '\n' {
            let wr = w.push('\r');
            assert(with_crlf(s) =~= wr.push('\n'));
            assert(wr.push('\n').drop_last() =~= wr);
            assert(wr.drop_last() =~= w);
            assert(split_fold(wr, '\n') == (d.map_values(|l: Seq<char>| l.push('\r')), cur.push('\r')));
            assert(d.push(cur).map_values(|l: Seq<char>| l.push('\r')) =~= d.map_values(
                |l: Seq<char>| l.push('\r'),
            ).push(cur.push('\r')));
        } else {
            assert(with_crlf(s) =~= w.push(c));
            assert(w.push(c).drop_last() =~= w);
        }
    }
}

/// Lines that are equal once trimmed yield the same entries: a line is read trimmed, so
/// the whitespace around it (a CR before the line feed among it) changes nothing.
pub proof fn lemma_lines_read_trimmed(l1: Seq<Seq<char>>, l2: Seq<Seq<char>>, pls: bool)
    requires
        l1.len() == l2.len(),
        forall|i: int| 0 <= i < l1.len() ==> trim(#[trigger] l1[i]) == trim(l2[i]),
    ensures
        entries_of(l1, pls) == entries_of(l2, pls),
    decreases l1.len(),
{
    if l1.len() > 0 {
        let a = l1.drop_last();
        let b = l2.drop_last();
        assert forall|i: int| 0 <= i < a.len() implies trim(#[trigger] a[i]) == trim(b[i]) by {
            assert(a[i] == l1[i] && b[i] == l2[i]);
        }
        lemma_lines_read_trimmed(a, b, pls);
        assert(trim(l1.last()) == trim(l2.last()));
    }
}

/// A playlist whose lines, once trimmed, are those of another gives the same result.
pub proof fn lemma_playlist_ignores_line_padding(t1: Seq<char>, t2: Seq<char>, pls: bool, base: Seq<char>)
    requires
        split_char(strip_boms(t1), '\n').len() == split_char(strip_boms(t2), '\n').len(),
        forall|i: int|
            0 <= i < split_char(strip_boms(t1), '\n').len() ==> trim(
                #[trigger] split_char(strip_boms(t1), '\n')[i],
            ) == trim(split_char(strip_boms(t2), '\n')[i]),
    ensures
        playlist_spec(t1, pls, base) == playlist_spec(t2, pls, base),
{
    lemma_lines_read_trimmed(split_char(strip_boms(t1), '\n'), split_char(strip_boms(t2), '\n'), pls);
}

/// A playlist written with CR LF line endings gives the same URLs, or the same error, as
/// with LF line endings.
pub proof fn lemma_playlist_crlf(text: Seq<char>, pls: bool, base: Seq<char>)
    ensures
        playlist_spec(with_crlf(text), pls, base) == playlist_spec(text, pls, base),
{
    let t = strip_boms(text);
    lemma_with_crlf_boms(text);
    lemma_with_crlf_split(t);
    let l1 = split_char(with_crlf(t), '\n');
    let l2 = split_char(t, '\n');
    let d = split_fold(t, '\n').0;
    assert(l1.len() == l2.len());
    assert forall|i: int| 0 <= i < l1.len() implies trim(#[trigger] l1[i]) == trim(l2[i]) by {
        if i < d.len() {
            assert(l1[i] == d[i].push('\r'));
            assert(l2[i] == d[i]);
            assert(is_ws('\r'));
            lemma_trim_push_ws(d[i], '\r');
        }
    }
    lemma_lines_read_trimmed(l2, l1, pls);
}

/// Reads a PLS (`pls`) or M3U playlist fetched from `base` into its stream URLs.
pub fn playlist(text: &str, pls: bool, base: &WebUrl) -> (r: Result<Vec<WebUrl>, RadioError>)
    ensures
        r matches Ok(v) ==> playlist_spec(text@, pls, base.href@) == Ok::<
            Seq<UrlParts>,
            RadioError,
        >(urls_view(v@)),
        r matches Err(e) ==> playlist_spec(text@, pls, base.href@) == Err::<
            Seq<UrlParts>,
            RadioError,
        >(e),
{
    let chars = chars_of(text);
    let mut a: usize = 0;
    assert(chars@.skip(0) =~= chars@);
    while a < chars.len() && chars[a] == '\u{feff}'
        invariant
            a <= chars@.len(),
            strip_boms(chars@.skip(a as int)) == strip_boms(chars@),
        decreases chars@.len() - a,
    {
        assert(chars@.skip(a as int).drop_first() =~= chars@.skip(a + 1));
        a = a + 1;
    }
    let s = &chars.as_slice()[a..chars.len()];
    assert(s@ == strip_boms(text@));
    let lines = split_ranges(s, '\n');
    let ghost all = split_char(s@, '\n');
    let mut entries: Vec<(usize, Vec<char>)> = Vec::new();
    let mut k: usize = 0;
    while k < lines.len()
        invariant
            k <= lines@.len(),
            lines@.len() == all.len(),
            forall|j: int|
                0 <= j < lines@.len() ==> #[trigger] lines@[j].0 <= lines@[j].1 <= s@.len()
                    && s@.subrange(lines@[j].0 as int, lines@[j].1 as int) == all[j],
            entries_view(entries@) == entries_of(all.take(k as int), pls),
        decreases lines@.len() - k,
    {
        let (la, lb) = lines[k];
        let line = trim_slice(&s[la..lb]);
        assert(all.take(k + 1).drop_last() =~= all.take(k as int));
        assert(all.take(k + 1).last() == all[k as int]);
        let ghost before = entries_view(entries@);
        match read_entry(line, pls, entries.len()) {
            Some(e) => {
                entries.push(e);
                assert(entries_view(entries@) =~= before.push((e.0, e.1@)));
            },
            None => {},
        }
        k = k + 1;
    }
    assert(all.take(k as int) =~= all);
    let mut sorted: Vec<(usize, Vec<char>)> = Vec::new();
    let mut i: usize = 0;
    let ghost ev = entries_view(entries@);
    while i < entries.len()
        invariant
            i <= entries@.len(),
            ev == entries_view(entries@),
            entries_view(sorted@) == sort_entries(ev.take(i as int)),
        decreases entries@.len() - i,
    {
        assert(ev.take(i + 1).drop_last() =~= ev.take(i as int));
        let e = (entries[i].0, to_vec(entries[i].1.as_slice()));
        sorted = insert_sorted(sorted, e);
        i = i + 1;
    }
    assert(ev.take(i as int) =~= ev);
    let ghost sv = entries_view(sorted@);
    let mut urls: Vec<WebUrl> = Vec::new();
    let mut j: usize = 0;
    while j < sorted.len()
        invariant
            j <= sorted@.len(),
            sv == entries_view(sorted@),
            urls_view(urls@) == entry_urls(base.href@, sv.take(j as int)),
        decreases sorted@.len() - j,
    {
        assert(sv.take(j + 1).drop_last() =~= sv.take(j as int));
        let entry = sorted[j].1.as_slice();
        let ghost before = urls_view(urls@);
        if entry.len() > 0 && !any_ws_or_ctrl(entry) {
            match join_and_validate(base, string_of(entry).as_str()) {
                Some(Ok(u)) => {
                    urls.push(u);
                    assert(urls_view(urls@) =~= before.push(urls@.last()@));
                },
                _ => {},
            }
        }
        j = j + 1;
    }
    assert(sv.take(j as int) =~= sv);
    if urls.len() == 0 {
        return Err(RadioError::NoEntries);
    }
    Ok(urls)
}

} // verus!
