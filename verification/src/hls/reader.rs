//! The HLS playlist reader: one line at a time, then the playlist the lines describe.
use super::attrs::{attr_chars, attr_get, attr_lookup, attrs_view, iv_chars, range, Attrs};
use super::playlist::{
    Duration,
    audio_urls, lemma_fold_prefix_err, dedup, finish_spec, fold_lines, insert_variant, master_from, parse_spec, pick, rendition_urls,
    sort_variants, strip_boms, strs_view, variant_le, extinf_texts, Media, MediaView, Playlist, PlaylistView,
    MAX_PLAYLIST, sequences_bounded, lemma_parse_bounded,
    add_to_group, attr_is, group_index, group_index_from, init_view, initial_state, key_line,
    key_view, map_line, media_line, segments_view, step_spec, uri_line, uri_spec, Group, Init,
    InitOf, Key, KeyOf, ParseStateView, ResourceOf, Segment, SegmentOf, Variant, VariantOf,
};
use super::HlsError;
use crate::cli::str_eq;
use crate::num::parse_uint_slice;
use crate::text::{
    starts_with, find_char, utf8_len,
    chars_of, find_char_slice, slice_eq, split_char, split_ranges, starts_with_slice, string_of,
    strip_prefix_slice, trim, trim_slice, utf8_len_capped,
};
use crate::web::{join_and_validate, WebUrl};
use vstd::prelude::*;

verus! {

/// What the reader has gathered after some lines.
pub struct ParseState {
    pub segments: Vec<Segment>,
    pub variants: Vec<Variant>,
    pub groups: Vec<(String, Vec<(bool, String)>)>,
    pub sequence: u64,
    pub target: Option<u64>,
    pub ended: bool,
    pub duration: bool,
    pub key: Option<Key>,
    pub init: Option<Init>,
    pub byterange: Option<Vec<char>>,
    pub variant: Option<Vec<(String, String)>>,
    pub gap: bool,
    pub extinf: usize,
}

pub open spec fn items_view(s: Seq<(bool, String)>) -> Seq<(bool, Seq<char>)> {
    s.map_values(|p: (bool, String)| (p.0, p.1@))
}

pub open spec fn groups_view(s: Seq<(String, Vec<(bool, String)>)>) -> Seq<Group> {
    s.map_values(|e: (String, Vec<(bool, String)>)| (e.0@, items_view(e.1@)))
}

pub open spec fn variants_view(s: Seq<Variant>) -> Seq<VariantOf<Seq<char>>> {
    s.map_values(|v: Variant| v@)
}

impl View for ParseState {
    type V = ParseStateView;

    open spec fn view(&self) -> ParseStateView {
        ParseStateView {
            segments: segments_view(self.segments@),
            variants: variants_view(self.variants@),
            groups: groups_view(self.groups@),
            sequence: self.sequence,
            target: self.target,
            ended: self.ended,
            duration: self.duration,
            key: key_view(self.key),
            init: init_view(self.init),
            byterange: match self.byterange {
                Some(v) => Some(v@),
                None => None,
            },
            variant: match self.variant {
                Some(a) => Some(attrs_view(a@)),
                None => None,
            },
            gap: self.gap,
            extinf: self.extinf as nat,
        }
    }
}

fn new_state() -> (r: ParseState)
    ensures
        r@ == initial_state(),
{
    let r = ParseState {
        segments: Vec::new(),
        variants: Vec::new(),
        groups: Vec::new(),
        sequence: 0,
        target: None,
        ended: false,
        duration: false,
        key: None,
        init: None,
        byterange: None,
        variant: None,
        gap: false,
        extinf: 0,
    };
    assert(r@.segments =~= initial_state().segments);
    assert(r@.variants =~= initial_state().variants);
    assert(r@.groups =~= initial_state().groups);
    r
}

/// Resolves and validates a URI of the playlist.
fn uri(base: &WebUrl, text: &[char]) -> (r: Result<String, HlsError>)
    ensures
        r matches Ok(u) ==> uri_spec(base.href@, text@) == Ok::<Seq<char>, HlsError>(u@),
        r matches Err(e) ==> uri_spec(base.href@, text@) == Err::<Seq<char>, HlsError>(e),
{
    let s = string_of(text);
    match join_and_validate(base, s.as_str()) {
        None => Err(HlsError::UrlJoin),
        Some(Err(e)) => Err(HlsError::Url(e)),
        Some(Ok(u)) => Ok(u.href),
    }
}

fn has_value(a: &Vec<(String, String)>, name: &str, v: &str) -> (r: bool)
    ensures
        r == attr_is(attrs_view(a@), name@, v@),
{
    match attr_lookup(a, name) {
        Some(s) => str_eq(s.as_str(), v),
        None => false,
    }
}

fn add_group(input: Vec<(String, Vec<(bool, String)>)>, g: String, item: (bool, String)) -> (r:
    Vec<(String, Vec<(bool, String)>)>)
    ensures
        groups_view(r@) == add_to_group(groups_view(input@), g@, (item.0, item.1@)),
{
    let ghost gv = groups_view(input@);
    let mut groups = input;
    let mut i: usize = 0;
    while i < groups.len()
        invariant
            i <= groups@.len(),
            gv == groups_view(groups@),
            gv == groups_view(input@),
            group_index(gv, g@) == group_index_from(gv, g@, i as int),
        decreases groups@.len() - i,
    {
        if str_eq(groups[i].0.as_str(), g.as_str()) {
            assert(gv[i as int].0 == g@);
            assert(group_index_from(gv, g@, i as int) == Some(i as int));
            let mut entry = groups.remove(i);
            let ghost old_items = entry.1@;
            entry.1.push(item);
            assert(items_view(entry.1@) =~= items_view(old_items).push((item.0, item.1@)));
            groups.insert(i, entry);
            assert(groups_view(groups@) =~= gv.update(
                i as int,
                (g@, gv[i as int].1.push((item.0, item.1@))),
            ));
            assert(group_index(gv, g@) == Some(i as int));
            assert(groups_view(groups@) == add_to_group(gv, g@, (item.0, item.1@)));
            return groups;
        }
        i = i + 1;
    }
    let items = vec![item];
    assert(items_view(items@) =~= seq![(item.0, item.1@)]);
    groups.push((g, items));
    assert(groups_view(groups@) =~= gv.push((g@, seq![(item.0, item.1@)])));
    groups
}

fn read_media(st: ParseState, v: &[char], base: &WebUrl) -> (r: Result<ParseState, HlsError>)
    ensures
        r matches Ok(s) ==> media_line(st@, v@, base.href@) == Ok::<ParseStateView, HlsError>(
            s@,
        ),
        r matches Err(e) ==> media_line(st@, v@, base.href@) == Err::<ParseStateView, HlsError>(
            e,
        ),
{
    let a = attr_chars(v)?;
    if has_value(&a, "TYPE", "AUDIO") {
        match (attr_lookup(&a, "GROUP-ID"), attr_lookup(&a, "URI")) {
            (Some(g), Some(p)) => {
                let u = uri(base, chars_of(p.as_str()).as_slice())?;
                let default = has_value(&a, "DEFAULT", "YES");
                let groups = add_group(st.groups, g.clone(), (default, u));
                return Ok(ParseState { groups, ..st });
            },
            _ => {},
        }
    }
    Ok(st)
}

fn read_key(st: ParseState, v: &[char], base: &WebUrl) -> (r: Result<ParseState, HlsError>)
    ensures
        r matches Ok(s) ==> key_line(st@, v@, base.href@) == Ok::<ParseStateView, HlsError>(s@),
        r matches Err(e) ==> key_line(st@, v@, base.href@) == Err::<ParseStateView, HlsError>(e),
{
    let a = attr_chars(v)?;
    if has_value(&a, "METHOD", "NONE") {
        return Ok(ParseState { key: None, ..st });
    }
    if has_value(&a, "METHOD", "AES-128") && (attr_lookup(&a, "KEYFORMAT").is_none() || has_value(
        &a,
        "KEYFORMAT",
        "identity",
    )) {
        let t = match attr_lookup(&a, "URI") {
            Some(t) => t,
            None => return Err(HlsError::KeyMissingUri),
        };
        let u = uri(base, chars_of(t.as_str()).as_slice())?;
        let iv = match attr_lookup(&a, "IV") {
            None => None,
            Some(text) => Some(iv_chars(chars_of(text.as_str()).as_slice())?),
        };
        let key = KeyOf { url: u, iv };
        return Ok(ParseState { key: Some(key), ..st });
    }
    Err(HlsError::UnsupportedKey)
}

fn read_map(st: ParseState, v: &[char], base: &WebUrl) -> (r: Result<ParseState, HlsError>)
    ensures
        r matches Ok(s) ==> map_line(st@, v@, base.href@) == Ok::<ParseStateView, HlsError>(s@),
        r matches Err(e) ==> map_line(st@, v@, base.href@) == Err::<ParseStateView, HlsError>(e),
{
    let a = attr_chars(v)?;
    let t = match attr_lookup(&a, "URI") {
        Some(t) => t,
        None => return Err(HlsError::MapMissingUri),
    };
    let u = uri(base, chars_of(t.as_str()).as_slice())?;
    match &st.key {
        Some(k) => {
            if k.iv.is_none() {
                return Err(HlsError::MapNeedsIv);
            }
        },
        None => {},
    }
    let rg = match attr_lookup(&a, "BYTERANGE") {
        None => None,
        Some(rt) => {
            let uc = chars_of(u.as_str());
            Some(range(chars_of(rt.as_str()).as_slice(), None, uc.as_slice())?)
        },
    };
    let key = dup_key_opt(&st.key);
    let init = InitOf { resource: ResourceOf { url: u, range: rg }, key };
    Ok(ParseState { init: Some(init), ..st })
}

fn dup_key_opt(k: &Option<Key>) -> (r: Option<Key>)
    ensures
        key_view(r) == key_view(*k),
{
    match k {
        Some(k) => Some(k.duplicate()),
        None => None,
    }
}

fn dup_init_opt(i: &Option<Init>) -> (r: Option<Init>)
    ensures
        init_view(r) == init_view(*i),
{
    match i {
        Some(i) => Some(i.duplicate()),
        None => None,
    }
}

fn read_uri(st: ParseState, line: &[char], base: &WebUrl) -> (r: Result<ParseState, HlsError>)
    ensures
        r matches Ok(s) ==> uri_line(st@, line@, base.href@) == Ok::<ParseStateView, HlsError>(
            s@,
        ),
        r matches Err(e) ==> uri_line(st@, line@, base.href@) == Err::<ParseStateView, HlsError>(
            e,
        ),
{
    let u = uri(base, line)?;
    match &st.variant {
        Some(a) => {
            let b = match attr_lookup(a, "BANDWIDTH") {
                Some(b) => b,
                None => return Err(HlsError::MissingBandwidth),
            };
            let bw = match parse_uint_slice(chars_of(b.as_str()).as_slice(), 10, u64::MAX as u128) {
                Ok(bw) => bw as u64,
                Err(e) => return Err(HlsError::Number(e)),
            };
            let has_resolution = attr_lookup(a, "RESOLUTION").is_some();
            let audio = match attr_lookup(a, "AUDIO") {
                Some(g) => Some(g.clone()),
                None => None,
            };
            let variant = VariantOf { has_resolution, bandwidth: bw, audio, url: u };
            let mut variants = st.variants;
            let ghost before = variants_view(variants@);
            variants.push(variant);
            assert(variants_view(variants@) =~= before.push(variant@));
            return Ok(ParseState { variant: None, variants, ..st });
        },
        None => {},
    }
    if !st.duration {
        return Err(HlsError::MissingExtinf);
    }
    let n = st.segments.len();
    let prev_url: Vec<char> = if n > 0 {
        chars_of(st.segments[n - 1].resource.url.as_str())
    } else {
        Vec::new()
    };
    let prev_range = if n > 0 {
        st.segments[n - 1].resource.range
    } else {
        None
    };
    let rg = match &st.byterange {
        None => None,
        Some(rt) => {
            let uc = chars_of(u.as_str());
            let previous = if n > 0 {
                Some((prev_url.as_slice(), prev_range))
            } else {
                None
            };
            proof {
                if n > 0 {
                    assert(segments_view(st.segments@).last() == st.segments@[n - 1]@);
                }
            }
            Some(range(rt.as_slice(), previous, uc.as_slice())?)
        },
    };
    if st.sequence == u64::MAX {
        return Err(HlsError::SequenceOverflow);
    }
    let segment = SegmentOf {
        sequence: st.sequence,
        resource: ResourceOf { url: u, range: rg },
        key: dup_key_opt(&st.key),
        init: dup_init_opt(&st.init),
        gap: st.gap,
    };
    let mut segments = st.segments;
    let ghost before = segments_view(segments@);
    segments.push(segment);
    assert(segments_view(segments@) =~= before.push(segment@));
    Ok(
        ParseState {
            segments,
            byterange: None,
            sequence: st.sequence + 1,
            duration: false,
            gap: false,
            ..st
        },
    )
}

/// Reads one trimmed line.
fn read_line(st: ParseState, line: &[char], base: &WebUrl, ok: &[Duration]) -> (r: Result<
    ParseState,
    HlsError,
>)
    ensures
        r matches Ok(s) ==> step_spec(st@, line@, base.href@, ok@) == Ok::<
            ParseStateView,
            HlsError,
        >(s@),
        r matches Err(e) ==> step_spec(st@, line@, base.href@, ok@) == Err::<
            ParseStateView,
            HlsError,
        >(e),
{
    if line.len() == 0 {
        return Ok(st);
    }
    if let Some(v) = strip_prefix_slice(line, chars_of("#EXT-X-MEDIA:").as_slice()) {
        return read_media(st, v, base);
    }
    if let Some(v) = strip_prefix_slice(line, chars_of("#EXT-X-STREAM-INF:").as_slice()) {
        let a = attr_chars(v)?;
        return Ok(ParseState { variant: Some(a), ..st });
    }
    if let Some(v) = strip_prefix_slice(line, chars_of("#EXT-X-TARGETDURATION:").as_slice()) {
        let n = match parse_uint_slice(v, 10, u64::MAX as u128) {
            Ok(n) => n as u64,
            Err(e) => return Err(HlsError::Number(e)),
        };
        if n < 1 || n > 3600 {
            return Err(HlsError::TargetDuration);
        }
        return Ok(ParseState { target: Some(n), ..st });
    }
    if let Some(v) = strip_prefix_slice(line, chars_of("#EXT-X-MEDIA-SEQUENCE:").as_slice()) {
        if st.segments.len() > 0 {
            return Err(HlsError::LateSequence);
        }
        let n = match parse_uint_slice(v, 10, u64::MAX as u128) {
            Ok(n) => n as u64,
            Err(e) => return Err(HlsError::Number(e)),
        };
        return Ok(ParseState { sequence: n, ..st });
    }
    if strip_prefix_slice(line, chars_of("#EXTINF:").as_slice()).is_some() {
        if st.extinf < ok.len() {
            match ok[st.extinf] {
                Duration::Valid => {
                    let extinf = st.extinf + 1;
                    return Ok(ParseState { duration: true, extinf, ..st });
                },
                Duration::Empty => return Err(HlsError::DurationEmpty),
                Duration::Invalid => return Err(HlsError::DurationInvalid),
                Duration::OutOfRange => {},
            }
        }
        return Err(HlsError::SegmentDuration);
    }
    if let Some(v) = strip_prefix_slice(line, chars_of("#EXT-X-BYTERANGE:").as_slice()) {
        let mut text: Vec<char> = Vec::new();
        text.extend_from_slice(v);
        assert(text@ =~= v@);
        return Ok(ParseState { byterange: Some(text), ..st });
    }
    if let Some(v) = strip_prefix_slice(line, chars_of("#EXT-X-KEY:").as_slice()) {
        return read_key(st, v, base);
    }
    if let Some(v) = strip_prefix_slice(line, chars_of("#EXT-X-MAP:").as_slice()) {
        return read_map(st, v, base);
    }
    if slice_eq(line, chars_of("#EXT-X-ENDLIST").as_slice()) {
        return Ok(ParseState { ended: true, ..st });
    }
    if slice_eq(line, chars_of("#EXT-X-GAP").as_slice()) {
        return Ok(ParseState { gap: true, ..st });
    }
    if starts_with_slice(line, chars_of("#EXT-X-SKIP:").as_slice()) || starts_with_slice(
        line,
        chars_of("#EXT-X-PART:").as_slice(),
    ) || slice_eq(line, chars_of("#EXT-X-I-FRAMES-ONLY").as_slice()) {
        return Err(HlsError::LowLatency);
    }
    if !starts_with_slice(line, chars_of("#").as_slice()) {
        return read_uri(st, line, base);
    }
    Ok(st)
}

fn dup_variant(v: &Variant) -> (r: Variant)
    ensures
        r@ == v@,
{
    VariantOf {
        has_resolution: v.has_resolution,
        bandwidth: v.bandwidth,
        audio: match &v.audio {
            Some(a) => Some(a.clone()),
            None => None,
        },
        url: v.url.clone(),
    }
}

fn variant_before(a: &Variant, b: &Variant) -> (r: bool)
    ensures
        r == variant_le(a@, b@),
{
    (!a.has_resolution && b.has_resolution) || (a.has_resolution == b.has_resolution && a.bandwidth
        <= b.bandwidth)
}

/// Inserting after the last element that comes no later is inserting at `j`.
proof fn lemma_insert_variant(s: Seq<VariantOf<Seq<char>>>, x: VariantOf<Seq<char>>, j: int)
    requires
        0 <= j <= s.len(),
        j == 0 || variant_le(s[j - 1], x),
        forall|k: int| j <= k < s.len() ==> !variant_le(#[trigger] s[k], x),
    ensures
        insert_variant(s, x) == s.take(j).push(x) + s.skip(j),
    decreases s.len(),
{
    if s.len() == 0 {
        assert(s.take(j).push(x) + s.skip(j) =~= seq![x]);
    } else if j == s.len() {
        assert(s.take(j).push(x) + s.skip(j) =~= s.push(x));
    } else {
        let d = s.drop_last();
        assert forall|k: int| j <= k < d.len() implies !variant_le(#[trigger] d[k], x) by {
            assert(d[k] == s[k]);
        }
        lemma_insert_variant(d, x, j);
        assert(d.take(j).push(x) + d.skip(j) + seq![s.last()] =~= s.take(j).push(x) + s.skip(j));
    }
}

fn insert_sorted(s: Vec<Variant>, x: Variant) -> (r: Vec<Variant>)
    ensures
        variants_view(r@) == insert_variant(variants_view(s@), x@),
{
    let ghost sv = variants_view(s@);
    let mut j: usize = s.len();
    while j > 0 && !variant_before(&s[j - 1], &x)
        invariant
            j <= s@.len(),
            sv == variants_view(s@),
            forall|k: int| j <= k < s@.len() ==> !variant_le(#[trigger] sv[k], x@),
        decreases j,
    {
        j = j - 1;
    }
    proof {
        lemma_insert_variant(sv, x@, j as int);
    }
    let ghost xv = x@;
    let mut s = s;
    s.insert(j, x);
    assert(variants_view(s@) =~= sv.take(j as int).push(xv) + sv.skip(j as int));
    s
}

fn sort_variants_exec(vs: &Vec<Variant>) -> (r: Vec<Variant>)
    ensures
        variants_view(r@) == sort_variants(variants_view(vs@)),
{
    let mut out: Vec<Variant> = Vec::new();
    let mut i: usize = 0;
    while i < vs.len()
        invariant
            i <= vs@.len(),
            variants_view(out@) == sort_variants(variants_view(vs@).take(i as int)),
        decreases vs@.len() - i,
    {
        assert(variants_view(vs@).take(i + 1).drop_last() =~= variants_view(vs@).take(i as int));
        out = insert_sorted(out, dup_variant(&vs[i]));
        i = i + 1;
    }
    assert(variants_view(vs@).take(i as int) =~= variants_view(vs@));
    out
}

fn push_picked(out: &mut Vec<String>, items: &Vec<(bool, String)>, want: bool)
    ensures
        strs_view(final(out)@) == strs_view(old(out)@) + pick(items_view(items@), want),
{
    let ghost start = strs_view(out@);
    let mut i: usize = 0;
    while i < items.len()
        invariant
            i <= items@.len(),
            strs_view(out@) == start + pick(items_view(items@).take(i as int), want),
        decreases items@.len() - i,
    {
        assert(items_view(items@).take(i + 1).drop_last() =~= items_view(items@).take(i as int));
        let ghost before = strs_view(out@);
        if items[i].0 == want {
            out.push(items[i].1.clone());
            assert(strs_view(out@) =~= before.push(items@[i as int].1@));
        }
        i = i + 1;
        assert(strs_view(out@) =~= start + pick(items_view(items@).take(i as int), want));
    }
    assert(items_view(items@).take(i as int) =~= items_view(items@));
}

fn find_group(groups: &Vec<(String, Vec<(bool, String)>)>, g: &String) -> (r: Option<usize>)
    ensures
        r matches Some(i) ==> group_index(groups_view(groups@), g@) == Some(i as int) && i
            < groups@.len(),
        r is None ==> group_index(groups_view(groups@), g@) is None,
{
    let ghost gv = groups_view(groups@);
    let mut i: usize = 0;
    while i < groups.len()
        invariant
            i <= groups@.len(),
            gv == groups_view(groups@),
            group_index(gv, g@) == group_index_from(gv, g@, i as int),
        decreases groups@.len() - i,
    {
        if str_eq(groups[i].0.as_str(), g.as_str()) {
            assert(gv[i as int].0 == g@);
            return Some(i);
        }
        i = i + 1;
    }
    None
}

fn push_audio(out: &mut Vec<String>, v: &Variant, groups: &Vec<(String, Vec<(bool, String)>)>)
    ensures
        strs_view(final(out)@) == strs_view(old(out)@) + audio_urls(v@, groups_view(groups@)),
{
    let ghost gv = groups_view(groups@);
    let ghost before = strs_view(out@);
    match &v.audio {
        Some(g) => match find_group(groups, g) {
            Some(k) => {
                proof {
                    lemma_group_index_from_bound(gv, g@);
                }
                push_picked(out, &groups[k].1, true);
                push_picked(out, &groups[k].1, false);
                assert(gv[k as int].1 == items_view(groups@[k as int].1@));
                assert(strs_view(out@) =~= before + rendition_urls(gv[k as int].1));
            },
            None => {
                assert(strs_view(out@) =~= before + Seq::<Seq<char>>::empty());
            },
        },
        None => {
            assert(strs_view(out@) =~= before + Seq::<Seq<char>>::empty());
        },
    }
}

fn master_urls(vs: &Vec<Variant>, groups: &Vec<(String, Vec<(bool, String)>)>) -> (r: Vec<String>)
    ensures
        strs_view(r@) == master_from(variants_view(vs@), groups_view(groups@)),
{
    let ghost gv = groups_view(groups@);
    let mut out: Vec<String> = Vec::new();
    let mut i: usize = 0;
    assert(strs_view(out@) =~= Seq::<Seq<char>>::empty());
    while i < vs.len()
        invariant
            i <= vs@.len(),
            gv == groups_view(groups@),
            strs_view(out@) == master_from(variants_view(vs@).take(i as int), gv),
        decreases vs@.len() - i,
    {
        assert(variants_view(vs@).take(i + 1).drop_last() =~= variants_view(vs@).take(i as int));
        let v = &vs[i];
        push_audio(&mut out, v, groups);
        let ghost before = strs_view(out@);
        out.push(v.url.clone());
        assert(strs_view(out@) =~= before.push(v@.url));
        i = i + 1;
    }
    assert(variants_view(vs@).take(i as int) =~= variants_view(vs@));
    out
}

proof fn lemma_group_index_from_bound(gs: Seq<Group>, g: Seq<char>)
    ensures
        group_index(gs, g) matches Some(k) ==> 0 <= k < gs.len() && gs[k].0 == g,
{
    super::playlist::lemma_group_index_from(gs, g, 0);
}

fn dedup_exec(v: Vec<String>) -> (r: Vec<String>)
    ensures
        strs_view(r@) == dedup(strs_view(v@)),
{
    let mut out: Vec<String> = Vec::new();
    let mut i: usize = 0;
    while i < v.len()
        invariant
            i <= v@.len(),
            strs_view(out@) == dedup(strs_view(v@).take(i as int)),
        decreases v@.len() - i,
    {
        assert(strs_view(v@).take(i + 1).drop_last() =~= strs_view(v@).take(i as int));
        let n = out.len();
        let ghost before = strs_view(out@);
        if n > 0 && str_eq(out[n - 1].as_str(), v[i].as_str()) {
        } else {
            out.push(v[i].clone());
            assert(strs_view(out@) =~= before.push(v@[i as int]@));
        }
        i = i + 1;
    }
    assert(strs_view(v@).take(i as int) =~= strs_view(v@));
    out
}

fn finish(st: ParseState) -> (r: Result<Playlist, HlsError>)
    ensures
        r matches Ok(p) ==> finish_spec(st@) == Ok::<PlaylistView, HlsError>(p@),
        r matches Err(e) ==> finish_spec(st@) == Err::<PlaylistView, HlsError>(e),
{
    if st.duration || st.variant.is_some() || st.byterange.is_some() {
        return Err(HlsError::Unfinished);
    }
    if st.variants.len() > 0 {
        if st.segments.len() > 0 {
            return Err(HlsError::Mixed);
        }
        let sorted = sort_variants_exec(&st.variants);
        let urls = master_urls(&sorted, &st.groups);
        return Ok(Playlist::Master(dedup_exec(urls)));
    }
    match st.target {
        None => Err(HlsError::MissingTarget),
        Some(t) => Ok(Playlist::Media(Media { segments: st.segments, target: t, ended: st.ended })),
    }
}

/// The text of `s` after its leading byte order marks.
fn skip_boms(s: &[char]) -> (r: &[char])
    ensures
        r@ == strip_boms(s@),
{
    let mut a: usize = 0;
    assert(s@.skip(0) =~= s@);
    while a < s.len() && s[a] == '\u{feff}'
        invariant
            a <= s@.len(),
            strip_boms(s@.skip(a as int)) == strip_boms(s@),
        decreases s@.len() - a,
    {
        assert(s@.skip(a as int).drop_first() =~= s@.skip(a + 1));
        a = a + 1;
    }
    &s[a..s.len()]
}

/// The trimmed `k`-th line.
fn line_at<'a>(s: &'a [char], lines: &Vec<(usize, usize)>, k: usize, Ghost(all): Ghost<Seq<Seq<char>>>) -> (r: &'a [char])
    requires
        k < lines@.len(),
        lines@.len() == all.len(),
        forall|j: int|
            0 <= j < lines@.len() ==> #[trigger] lines@[j].0 <= lines@[j].1 <= s@.len()
                && s@.subrange(lines@[j].0 as int, lines@[j].1 as int) == all[j],
    ensures
        r@ == trim(all[k as int]),
{
    let (a, b) = lines[k];
    trim_slice(&s[a..b])
}

/// Reads an HLS playlist fetched from `base`. `ok[k]` tells how the duration of the `k`-th
/// `#EXTINF` line (see `extinf_values`) reads as a number of seconds.
pub fn parse(text: &str, base: &WebUrl, ok: &[Duration]) -> (r: Result<Playlist, HlsError>)
    ensures
        r matches Ok(p) ==> parse_spec(text@, base.href@, ok@) == Ok::<PlaylistView, HlsError>(
            p@,
        ),
        r matches Err(e) ==> parse_spec(text@, base.href@, ok@) == Err::<PlaylistView, HlsError>(
            e,
        ),
        r matches Ok(Playlist::Media(m)) ==> sequences_bounded(m@.segments),
{
    proof {
        lemma_parse_bounded(text@, base.href@, ok@);
    }
    let chars = chars_of(text);
    let s = chars.as_slice();
    if utf8_len_capped(s, MAX_PLAYLIST) > MAX_PLAYLIST || !starts_with_slice(
        skip_boms(s),
        chars_of("#EXTM3U").as_slice(),
    ) {
        return Err(HlsError::InvalidPlaylist);
    }
    let lines = split_ranges(s, '\n');
    let ghost all = split_char(s@, '\n');
    let mut st = new_state();
    let mut k: usize = 0;
    while k < lines.len()
        invariant
            k <= lines@.len(),
            lines@.len() == all.len(),
            all == split_char(s@, '\n'),
            s@ == text@,
            utf8_len(text@) <= MAX_PLAYLIST,
            starts_with(strip_boms(text@), "#EXTM3U"@),
            forall|j: int|
                0 <= j < lines@.len() ==> #[trigger] lines@[j].0 <= lines@[j].1 <= s@.len()
                    && s@.subrange(lines@[j].0 as int, lines@[j].1 as int) == all[j],
            fold_lines(all.take(k as int), base.href@, ok@) == Ok::<ParseStateView, HlsError>(st@),
        decreases lines@.len() - k,
    {
        let line = line_at(s, &lines, k, Ghost(all));
        assert(all.take(k + 1).drop_last() =~= all.take(k as int));
        match read_line(st, line, base, ok) {
            Ok(next) => {
                assert(all.take(k + 1).last() == all[k as int]);
                st = next;
            },
            Err(e) => {
                proof {
                    assert(all.take(k + 1).last() == all[k as int]);
                    assert(fold_lines(all.take(k + 1), base.href@, ok@) == Err::<ParseStateView, HlsError>(e));
                    lemma_fold_prefix_err(all, k + 1, base.href@, ok@);
                }
                return Err(e);
            },
        }
        k = k + 1;
    }
    assert(all.take(k as int) =~= all);
    finish(st)
}

/// The duration texts of the `#EXTINF` lines of `text`, in order: what precedes the first
/// comma after `#EXTINF:`.
pub fn extinf_values(text: &str) -> (r: Vec<String>)
    ensures
        strs_view(r@) == extinf_texts(split_char(text@, '\n')),
{
    let chars = chars_of(text);
    let s = chars.as_slice();
    let lines = split_ranges(s, '\n');
    let ghost all = split_char(s@, '\n');
    let prefix = chars_of("#EXTINF:");
    let mut out: Vec<String> = Vec::new();
    let mut k: usize = 0;
    while k < lines.len()
        invariant
            k <= lines@.len(),
            lines@.len() == all.len(),
            all == split_char(s@, '\n'),
            s@ == text@,
            prefix@ == "#EXTINF:"@,
            forall|j: int|
                0 <= j < lines@.len() ==> #[trigger] lines@[j].0 <= lines@[j].1 <= s@.len()
                    && s@.subrange(lines@[j].0 as int, lines@[j].1 as int) == all[j],
            strs_view(out@) == extinf_texts(all.take(k as int)),
        decreases lines@.len() - k,
    {
        let (a, b) = lines[k];
        let line = trim_slice(&s[a..b]);
        assert(all.take(k + 1).drop_last() =~= all.take(k as int));
        assert(all.take(k + 1).last() == all[k as int]);
        let ghost before = strs_view(out@);
        match strip_prefix_slice(line, prefix.as_slice()) {
            Some(v) => {
                let value = match find_char_slice(v, ',') {
                    Some(i) => {
                        proof {
                            crate::text::lemma_find_from(v@, seq![','], 0);
                        }
                        &v[0..i]
                    },
                    None => v,
                };
                out.push(string_of(value));
                assert(strs_view(out@) =~= before.push(value@));
            },
            None => {},
        }
        k = k + 1;
    }
    assert(all.take(k as int) =~= all);
    out
}

} // verus!
