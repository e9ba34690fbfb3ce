//! HLS playlists: the data they describe and the line-by-line reader.
use super::attrs::{attr, attr_get, attr_lookup, attr_spec, attrs_view, iv_chars, iv_spec, range, range_spec, be_bytes, Attrs, PreviousRange};
use super::HlsError;
use crate::cli::str_eq;
use crate::num::{parse_uint, parse_uint_slice};
use crate::text::{
    chars_of, find_char, find_char_slice, slice_eq, split_char, split_ranges, starts_with,
    starts_with_slice, string_of, strip_prefix, strip_prefix_slice, trim, trim_slice, utf8_len,
    utf8_len_capped,
};
use crate::web::{join_and_validate, join_spec, WebUrl};
use vstd::prelude::*;

verus! {

/// A resource: its URL and, optionally, the byte range (offset, length) to fetch.
#[derive(Debug, PartialEq, Eq)]
pub struct ResourceOf<T> {
    pub url: T,
    pub range: Option<(u64, u64)>,
}

/// An AES-128 key: where to fetch it, and its explicit IV if any.
#[derive(Debug, PartialEq, Eq)]
pub struct KeyOf<T, I> {
    pub url: T,
    pub iv: Option<I>,
}

/// A media initialization section and the key that encrypts it.
#[derive(Debug, PartialEq, Eq)]
pub struct InitOf<T, I> {
    pub resource: ResourceOf<T>,
    pub key: Option<KeyOf<T, I>>,
}

/// A media segment.
#[derive(Debug, PartialEq, Eq)]
pub struct SegmentOf<T, I> {
    pub sequence: u64,
    pub resource: ResourceOf<T>,
    pub key: Option<KeyOf<T, I>>,
    pub init: Option<InitOf<T, I>>,
    pub gap: bool,
}

/// A variant stream of a master playlist.
#[derive(Debug, PartialEq, Eq)]
pub struct VariantOf<T> {
    pub has_resolution: bool,
    pub bandwidth: u64,
    pub audio: Option<T>,
    pub url: T,
}

pub type Resource = ResourceOf<String>;

pub type Key = KeyOf<String, [u8; 16]>;

pub type Init = InitOf<String, [u8; 16]>;

pub type Segment = SegmentOf<String, [u8; 16]>;

pub type KeyV = KeyOf<Seq<char>, Seq<u8>>;

pub type InitV = InitOf<Seq<char>, Seq<u8>>;

pub type SegmentV = SegmentOf<Seq<char>, Seq<u8>>;

pub type Variant = VariantOf<String>;

/// The text of an optional string.
pub open spec fn opt_view(o: Option<String>) -> Option<Seq<char>> {
    match o {
        Some(s) => Some(s@),
        None => None,
    }
}

impl View for ResourceOf<String> {
    type V = ResourceOf<Seq<char>>;

    open spec fn view(&self) -> ResourceOf<Seq<char>> {
        ResourceOf { url: self.url@, range: self.range }
    }
}

impl View for KeyOf<String, [u8; 16]> {
    type V = KeyV;

    open spec fn view(&self) -> KeyV {
        KeyOf {
            url: self.url@,
            iv: match self.iv {
                Some(a) => Some(a@),
                None => None,
            },
        }
    }
}

/// The view of an optional key.
pub open spec fn key_view(k: Option<Key>) -> Option<KeyV> {
    match k {
        Some(k) => Some(k@),
        None => None,
    }
}

impl View for InitOf<String, [u8; 16]> {
    type V = InitV;

    open spec fn view(&self) -> InitV {
        InitOf { resource: self.resource@, key: key_view(self.key) }
    }
}

/// The view of an optional initialization section.
pub open spec fn init_view(i: Option<Init>) -> Option<InitV> {
    match i {
        Some(i) => Some(i@),
        None => None,
    }
}

impl View for SegmentOf<String, [u8; 16]> {
    type V = SegmentV;

    open spec fn view(&self) -> SegmentV {
        SegmentOf {
            sequence: self.sequence,
            resource: self.resource@,
            key: key_view(self.key),
            init: init_view(self.init),
            gap: self.gap,
        }
    }
}

impl View for VariantOf<String> {
    type V = VariantOf<Seq<char>>;

    open spec fn view(&self) -> VariantOf<Seq<char>> {
        VariantOf {
            has_resolution: self.has_resolution,
            bandwidth: self.bandwidth,
            audio: opt_view(self.audio),
            url: self.url@,
        }
    }
}

impl ResourceOf<String> {
    pub fn duplicate(&self) -> (r: Self)
        ensures
            r@ == self@,
    {
        ResourceOf { url: self.url.clone(), range: self.range }
    }
}

impl KeyOf<String, [u8; 16]> {
    pub fn duplicate(&self) -> (r: Self)
        ensures
            r@ == self@,
    {
        KeyOf { url: self.url.clone(), iv: self.iv }
    }
}

fn dup_key(k: &Option<Key>) -> (r: Option<Key>)
    ensures
        key_view(r) == key_view(*k),
{
    match k {
        Some(k) => Some(k.duplicate()),
        None => None,
    }
}

impl InitOf<String, [u8; 16]> {
    pub fn duplicate(&self) -> (r: Self)
        ensures
            r@ == self@,
    {
        InitOf { resource: self.resource.duplicate(), key: dup_key(&self.key) }
    }
}

fn dup_init(i: &Option<Init>) -> (r: Option<Init>)
    ensures
        init_view(r) == init_view(*i),
{
    match i {
        Some(i) => Some(i.duplicate()),
        None => None,
    }
}

impl SegmentOf<String, [u8; 16]> {
    pub fn duplicate(&self) -> (r: Self)
        ensures
            r@ == self@,
    {
        SegmentOf {
            sequence: self.sequence,
            resource: self.resource.duplicate(),
            key: dup_key(&self.key),
            init: dup_init(&self.init),
            gap: self.gap,
        }
    }
}

/// A media playlist as the library models it.
pub struct MediaView {
    pub segments: Seq<SegmentV>,
    pub target: u64,
    pub ended: bool,
}

/// A media playlist: its segments, its target duration in seconds, and whether it ended.
#[derive(Debug)]
pub struct Media {
    pub segments: Vec<Segment>,
    pub target: u64,
    pub ended: bool,
}

/// The views of a sequence of segments.
pub open spec fn segments_view(s: Seq<Segment>) -> Seq<SegmentV> {
    s.map_values(|x: Segment| x@)
}

impl View for Media {
    type V = MediaView;

    open spec fn view(&self) -> MediaView {
        MediaView { segments: segments_view(self.segments@), target: self.target, ended: self.ended }
    }
}

/// A playlist as the library models it.
pub enum PlaylistView {
    Master(Seq<Seq<char>>),
    Media(MediaView),
}

/// A parsed playlist: a master playlist reduces to the stream URLs to try, in order.
#[derive(Debug)]
pub enum Playlist {
    Master(Vec<String>),
    Media(Media),
}

/// The text of each string.
pub open spec fn strs_view(v: Seq<String>) -> Seq<Seq<char>> {
    v.map_values(|s: String| s@)
}

impl View for Playlist {
    type V = PlaylistView;

    open spec fn view(&self) -> PlaylistView {
        match self {
            Playlist::Master(v) => PlaylistView::Master(strs_view(v@)),
            Playlist::Media(m) => PlaylistView::Media(m@),
        }
    }
}

/// An audio rendition group: its id and its (default, URL) entries in playlist order.
pub type Group = (Seq<char>, Seq<(bool, Seq<char>)>);

/// What the reader has gathered after some lines.
pub struct ParseStateView {
    pub segments: Seq<SegmentV>,
    pub variants: Seq<VariantOf<Seq<char>>>,
    pub groups: Seq<Group>,
    pub sequence: u64,
    pub target: Option<u64>,
    pub ended: bool,
    pub duration: bool,
    pub key: Option<KeyV>,
    pub init: Option<InitV>,
    pub byterange: Option<Seq<char>>,
    pub variant: Option<Attrs>,
    pub gap: bool,
    pub extinf: nat,
}

/// The state before the first line.
pub open spec fn initial_state() -> ParseStateView {
    ParseStateView {
        segments: seq![],
        variants: seq![],
        groups: seq![],
        sequence: 0,
        target: None,
        ended: false,
        duration: false,
        key: None,
        init: None,
        byterange: None,
        variant: None,
        gap: false,
        extinf: 0,
    }
}

/// The index of the first group `g` at or after `i`.
pub open spec fn group_index_from(gs: Seq<Group>, g: Seq<char>, i: int) -> Option<int>
    decreases gs.len() - i,
{
    if i < 0 || i >= gs.len() {
        None
    } else if gs[i].0 == g {
        Some(i)
    } else {
        group_index_from(gs, g, i + 1)
    }
}

/// The index of the group `g`.
pub open spec fn group_index(gs: Seq<Group>, g: Seq<char>) -> Option<int> {
    group_index_from(gs, g, 0)
}

pub proof fn lemma_group_index_from(gs: Seq<Group>, g: Seq<char>, i: int)
    requires
        0 <= i,
    ensures
        group_index_from(gs, g, i) matches Some(k) ==> i <= k < gs.len() && gs[k].0 == g,
    decreases gs.len() - i,
{
    if i < gs.len() && gs[i].0 != g {
        lemma_group_index_from(gs, g, i + 1);
    }
}

/// `gs` with `item` appended to group `g`, the group created where missing.
pub open spec fn add_to_group(gs: Seq<Group>, g: Seq<char>, item: (bool, Seq<char>)) -> Seq<Group> {
    match group_index(gs, g) {
        Some(i) => gs.update(i, (g, gs[i].1.push(item))),
        None => gs.push((g, seq![item])),
    }
}

/// The URL that a URI in the playlist denotes, resolved against `base` and validated.
pub open spec fn uri_spec(base: Seq<char>, text: Seq<char>) -> Result<Seq<char>, HlsError> {
    match join_spec(base, text) {
        None => Err(HlsError::UrlJoin),
        Some(Err(e)) => Err(HlsError::Url(e)),
        Some(Ok(u)) => Ok(u.0),
    }
}

/// Whether an attribute is present with exactly the value `v`.
pub open spec fn attr_is(a: Attrs, name: Seq<char>, v: Seq<char>) -> bool {
    attr_get(a, name) == Some(v)
}

/// The line `#EXT-X-MEDIA:` with attribute text `v`.
pub open spec fn media_line(st: ParseStateView, v: Seq<char>, base: Seq<char>) -> Result<ParseStateView, HlsError> {
    match attr_spec(v) {
        Err(e) => Err(e),
        Ok(a) => if attr_is(a, "TYPE"@, "AUDIO"@) && attr_get(a, "GROUP-ID"@) is Some && attr_get(
            a,
            "URI"@,
        ) is Some {
            match uri_spec(base, attr_get(a, "URI"@)->0) {
                Err(e) => Err(e),
                Ok(u) => Ok(
                    ParseStateView {
                        groups: add_to_group(
                            st.groups,
                            attr_get(a, "GROUP-ID"@)->0,
                            (attr_is(a, "DEFAULT"@, "YES"@), u),
                        ),
                        ..st
                    },
                ),
            }
        } else {
            Ok(st)
        },
    }
}

/// The line `#EXT-X-KEY:` with attribute text `v`.
pub open spec fn key_line(st: ParseStateView, v: Seq<char>, base: Seq<char>) -> Result<ParseStateView, HlsError> {
    match attr_spec(v) {
        Err(e) => Err(e),
        Ok(a) => if attr_is(a, "METHOD"@, "NONE"@) {
            Ok(ParseStateView { key: None, ..st })
        } else if attr_is(a, "METHOD"@, "AES-128"@) && (attr_get(a, "KEYFORMAT"@) is None
            || attr_is(a, "KEYFORMAT"@, "identity"@)) {
            match attr_get(a, "URI"@) {
                None => Err(HlsError::KeyMissingUri),
                Some(t) => match uri_spec(base, t) {
                    Err(e) => Err(e),
                    Ok(u) => match attr_get(a, "IV"@) {
                        None => Ok(ParseStateView { key: Some(KeyOf { url: u, iv: None }), ..st }),
                        Some(ivt) => match iv_spec(ivt) {
                            Err(e) => Err(e),
                            Ok(n) => Ok(
                                ParseStateView {
                                    key: Some(KeyOf { url: u, iv: Some(be_bytes(n)) }),
                                    ..st
                                },
                            ),
                        },
                    },
                },
            }
        } else {
            Err(HlsError::UnsupportedKey)
        },
    }
}

/// The line `#EXT-X-MAP:` with attribute text `v`.
pub open spec fn map_line(st: ParseStateView, v: Seq<char>, base: Seq<char>) -> Result<ParseStateView, HlsError> {
    match attr_spec(v) {
        Err(e) => Err(e),
        Ok(a) => match attr_get(a, "URI"@) {
            None => Err(HlsError::MapMissingUri),
            Some(t) => match uri_spec(base, t) {
                Err(e) => Err(e),
                Ok(u) => if st.key matches Some(k) && k.iv is None {
                    Err(HlsError::MapNeedsIv)
                } else {
                    let r: Result<Option<(u64, u64)>, HlsError> = match attr_get(a, "BYTERANGE"@) {
                        None => Ok(None),
                        Some(rt) => match range_spec(rt, None, u) {
                            Err(e) => Err(e),
                            Ok(x) => Ok(Some(x)),
                        },
                    };
                    match r {
                        Err(e) => Err(e),
                        Ok(rg) => Ok(
                            ParseStateView {
                                init: Some(
                                    InitOf { resource: ResourceOf { url: u, range: rg }, key: st.key },
                                ),
                                ..st
                            },
                        ),
                    }
                },
            },
        },
    }
}

/// A line that is a URI.
pub open spec fn uri_line(st: ParseStateView, line: Seq<char>, base: Seq<char>) -> Result<ParseStateView, HlsError> {
    match uri_spec(base, line) {
        Err(e) => Err(e),
        Ok(u) => match st.variant {
            Some(a) => match attr_get(a, "BANDWIDTH"@) {
                None => Err(HlsError::MissingBandwidth),
                Some(b) => match parse_uint(b, 10, u64::MAX as nat) {
                    Err(e) => Err(HlsError::Number(e)),
                    Ok(bw) => Ok(
                        ParseStateView {
                            variant: None,
                            variants: st.variants.push(
                                VariantOf {
                                    has_resolution: attr_get(a, "RESOLUTION"@) is Some,
                                    bandwidth: bw as u64,
                                    audio: attr_get(a, "AUDIO"@),
                                    url: u,
                                },
                            ),
                            ..st
                        },
                    ),
                },
            },
            None => if !st.duration {
                Err(HlsError::MissingExtinf)
            } else {
                let previous: PreviousRange = if st.segments.len() > 0 {
                    Some((st.segments.last().resource.url, st.segments.last().resource.range))
                } else {
                    None
                };
                let r: Result<Option<(u64, u64)>, HlsError> = match st.byterange {
                    None => Ok(None),
                    Some(rt) => match range_spec(rt, previous, u) {
                        Err(e) => Err(e),
                        Ok(x) => Ok(Some(x)),
                    },
                };
                match r {
                    Err(e) => Err(e),
                    Ok(rg) => if st.sequence == u64::MAX {
                        Err(HlsError::SequenceOverflow)
                    } else {
                        Ok(
                            ParseStateView {
                                segments: st.segments.push(
                                    SegmentOf {
                                        sequence: st.sequence,
                                        resource: ResourceOf { url: u, range: rg },
                                        key: st.key,
                                        init: st.init,
                                        gap: st.gap,
                                    },
                                ),
                                byterange: None,
                                sequence: (st.sequence + 1) as u64,
                                duration: false,
                                gap: false,
                                ..st
                            },
                        )
                    },
                }
            },
        },
    }
}

/// How the duration of an `#EXTINF` line (the text before its first comma) reads as a
/// floating-point number of seconds.
#[derive(Debug, Clone, Copy, PartialEq, Eq)]
pub enum Duration {
    /// A finite number of seconds in (0, 3600].
    Valid,
    /// A number outside (0, 3600], or not finite.
    OutOfRange,
    /// No text at all.
    Empty,
    /// Text that is no floating-point number.
    Invalid,
}

/// One trimmed playlist line, read in state `st`; `ok[k]` says how the duration of the
/// `k`-th `#EXTINF` reads.
pub open spec fn step_spec(st: ParseStateView, line: Seq<char>, base: Seq<char>, ok: Seq<Duration>) -> Result<ParseStateView, HlsError> {
    if line.len() == 0 {
        Ok(st)
    } else if let Some(v) = strip_prefix(line, "#EXT-X-MEDIA:"@) {
        media_line(st, v, base)
    } else if let Some(v) = strip_prefix(line, "#EXT-X-STREAM-INF:"@) {
        match attr_spec(v) {
            Err(e) => Err(e),
            Ok(a) => Ok(ParseStateView { variant: Some(a), ..st }),
        }
    } else if let Some(v) = strip_prefix(line, "#EXT-X-TARGETDURATION:"@) {
        match parse_uint(v, 10, u64::MAX as nat) {
            Err(e) => Err(HlsError::Number(e)),
            Ok(n) => if n < 1 || n > 3600 {
                Err(HlsError::TargetDuration)
            } else {
                Ok(ParseStateView { target: Some(n as u64), ..st })
            },
        }
    } else if let Some(v) = strip_prefix(line, "#EXT-X-MEDIA-SEQUENCE:"@) {
        if st.segments.len() > 0 {
            Err(HlsError::LateSequence)
        } else {
            match parse_uint(v, 10, u64::MAX as nat) {
                Err(e) => Err(HlsError::Number(e)),
                Ok(n) => Ok(ParseStateView { sequence: n as u64, ..st }),
            }
        }
    } else if strip_prefix(line, "#EXTINF:"@) is Some {
        if st.extinf < ok.len() && ok[st.extinf as int] == Duration::Valid {
            Ok(ParseStateView { duration: true, extinf: st.extinf + 1, ..st })
        } else if st.extinf < ok.len() && ok[st.extinf as int] == Duration::Empty {
            Err(HlsError::DurationEmpty)
        } else if st.extinf < ok.len() && ok[st.extinf as int] == Duration::Invalid {
            Err(HlsError::DurationInvalid)
        } else {
            Err(HlsError::SegmentDuration)
        }
    } else if let Some(v) = strip_prefix(line, "#EXT-X-BYTERANGE:"@) {
        Ok(ParseStateView { byterange: Some(v), ..st })
    } else if let Some(v) = strip_prefix(line, "#EXT-X-KEY:"@) {
        key_line(st, v, base)
    } else if let Some(v) = strip_prefix(line, "#EXT-X-MAP:"@) {
        map_line(st, v, base)
    } else if line == "#EXT-X-ENDLIST"@ {
        Ok(ParseStateView { ended: true, ..st })
    } else if line == "#EXT-X-GAP"@ {
        Ok(ParseStateView { gap: true, ..st })
    } else if starts_with(line, "#EXT-X-SKIP:"@) || starts_with(line, "#EXT-X-PART:"@) || line
        == "#EXT-X-I-FRAMES-ONLY"@ {
        Err(HlsError::LowLatency)
    } else if !starts_with(line, "#"@) {
        uri_line(st, line, base)
    } else {
        Ok(st)
    }
}

/// Once reading a prefix of the lines fails, reading all of them fails the same way.
pub proof fn lemma_fold_prefix_err(lines: Seq<Seq<char>>, k: int, base: Seq<char>, ok: Seq<Duration>)
    requires
        0 <= k <= lines.len(),
        fold_lines(lines.take(k), base, ok) is Err,
    ensures
        fold_lines(lines, base, ok) == fold_lines(lines.take(k), base, ok),
    decreases lines.len() - k,
{
    if k < lines.len() {
        assert(lines.take(k + 1).drop_last() =~= lines.take(k));
        lemma_fold_prefix_err(lines, k + 1, base, ok);
    } else {
        assert(lines.take(k) =~= lines);
    }
}

/// The state after reading `lines` in order, or the first error.
pub open spec fn fold_lines(lines: Seq<Seq<char>>, base: Seq<char>, ok: Seq<Duration>) -> Result<ParseStateView, HlsError>
    decreases lines.len(),
{
    if lines.len() == 0 {
        Ok(initial_state())
    } else {
        match fold_lines(lines.drop_last(), base, ok) {
            Err(e) => Err(e),
            Ok(st) => step_spec(st, trim(lines.last()), base, ok),
        }
    }
}

/// Whether variant `a` comes no later than `b`: without resolution first, then by
/// bandwidth.
pub open spec fn variant_le(a: VariantOf<Seq<char>>, b: VariantOf<Seq<char>>) -> bool {
    (!a.has_resolution && b.has_resolution) || (a.has_resolution == b.has_resolution
        && a.bandwidth <= b.bandwidth)
}

/// `s` (in variant order) with `x` inserted after every element that comes no later.
pub open spec fn insert_variant(s: Seq<VariantOf<Seq<char>>>, x: VariantOf<Seq<char>>) -> Seq<VariantOf<Seq<char>>>
    decreases s.len(),
{
    if s.len() == 0 {
        seq![x]
    } else if variant_le(s.last(), x) {
        s.push(x)
    } else {
        insert_variant(s.drop_last(), x).push(s.last())
    }
}

/// The variants in stable order of (resolution present, bandwidth).
pub open spec fn sort_variants(s: Seq<VariantOf<Seq<char>>>) -> Seq<VariantOf<Seq<char>>>
    decreases s.len(),
{
    if s.len() == 0 {
        seq![]
    } else {
        insert_variant(sort_variants(s.drop_last()), s.last())
    }
}

/// The URLs of the entries whose default flag is `want`, in order.
pub open spec fn pick(items: Seq<(bool, Seq<char>)>, want: bool) -> Seq<Seq<char>>
    decreases items.len(),
{
    if items.len() == 0 {
        seq![]
    } else {
        pick(items.drop_last(), want) + if items.last().0 == want {
            seq![items.last().1]
        } else {
            seq![]
        }
    }
}

/// The rendition URLs of a group: default renditions first, each part in playlist order.
pub open spec fn rendition_urls(items: Seq<(bool, Seq<char>)>) -> Seq<Seq<char>> {
    pick(items, true) + pick(items, false)
}

/// The rendition URLs of the audio group that variant `v` names, if the group exists.
pub open spec fn audio_urls(v: VariantOf<Seq<char>>, groups: Seq<Group>) -> Seq<Seq<char>> {
    match v.audio {
        Some(g) => match group_index(groups, g) {
            Some(i) => rendition_urls(groups[i].1),
            None => seq![],
        },
        None => seq![],
    }
}

/// The stream URLs of the variants `vs`, each preceded by the renditions of its audio group.
pub open spec fn master_from(vs: Seq<VariantOf<Seq<char>>>, groups: Seq<Group>) -> Seq<Seq<char>>
    decreases vs.len(),
{
    if vs.len() == 0 {
        seq![]
    } else {
        master_from(vs.drop_last(), groups) + audio_urls(vs.last(), groups) + seq![vs.last().url]
    }
}

/// `s` with each run of equal consecutive elements reduced to one, as `Vec::dedup` does.
pub open spec fn dedup(s: Seq<Seq<char>>) -> Seq<Seq<char>>
    decreases s.len(),
{
    if s.len() == 0 {
        seq![]
    } else {
        let d = dedup(s.drop_last());
        if d.len() > 0 && d.last() == s.last() {
            d
        } else {
            d.push(s.last())
        }
    }
}

/// The playlist that the state after the last line describes.
pub open spec fn finish_spec(st: ParseStateView) -> Result<PlaylistView, HlsError> {
    if st.duration || st.variant is Some || st.byterange is Some {
        Err(HlsError::Unfinished)
    } else if st.variants.len() > 0 {
        if st.segments.len() > 0 {
            Err(HlsError::Mixed)
        } else {
            Ok(PlaylistView::Master(dedup(master_from(sort_variants(st.variants), st.groups))))
        }
    } else {
        match st.target {
            None => Err(HlsError::MissingTarget),
            Some(t) => Ok(
                PlaylistView::Media(MediaView { segments: st.segments, target: t, ended: st.ended }),
            ),
        }
    }
}

/// `s` without its leading byte order marks.
pub open spec fn strip_boms(s: Seq<char>) -> Seq<char>
    decreases s.len(),
{
    if s.len() > 0 && s[0] == '\u{feff}' {
        strip_boms(s.drop_first())
    } else {
        s
    }
}

/// The largest playlist the library reads, in bytes.
pub const MAX_PLAYLIST: usize = 65536;

/// The playlist that `text`, fetched from `base`, describes. The playlist must be at
/// most 64 KiB and start (after byte order marks) with `#EXTM3U`; its lines are read
/// trimmed, in order, and the first error ends the reading.
pub open spec fn parse_spec(text: Seq<char>, base: Seq<char>, ok: Seq<Duration>) -> Result<PlaylistView, HlsError> {
    if utf8_len(text) > MAX_PLAYLIST || !starts_with(strip_boms(text), "#EXTM3U"@) {
        Err(HlsError::InvalidPlaylist)
    } else {
        match fold_lines(split_char(text, '\n'), base, ok) {
            Err(e) => Err(e),
            Ok(st) => finish_spec(st),
        }
    }
}

/// The duration texts of the `#EXTINF` lines among `lines`, in order: what precedes the
/// first comma.
pub open spec fn extinf_texts(lines: Seq<Seq<char>>) -> Seq<Seq<char>>
    decreases lines.len(),
{
    if lines.len() == 0 {
        seq![]
    } else {
        let prev = extinf_texts(lines.drop_last());
        match strip_prefix(trim(lines.last()), "#EXTINF:"@) {
            Some(v) => prev.push(
                match find_char(v, ',') {
                    Some(i) => v.take(i),
                    None => v,
                },
            ),
            None => prev,
        }
    }
}

/// Whether every segment's sequence number has a successor.
pub open spec fn sequences_bounded(segs: Seq<SegmentV>) -> bool {
    forall|i: int| 0 <= i < segs.len() ==> (#[trigger] segs[i]).sequence < u64::MAX
}

proof fn lemma_step_bounded(st: ParseStateView, line: Seq<char>, base: Seq<char>, ok: Seq<Duration>)
    requires
        sequences_bounded(st.segments),
    ensures
        step_spec(st, line, base, ok) matches Ok(s) ==> sequences_bounded(s.segments),
{
    if let Ok(s) = uri_line(st, line, base) {
        if s.segments.len() > st.segments.len() {
            assert forall|i: int| 0 <= i < s.segments.len() implies (#[trigger] s.segments[i]).sequence
                < u64::MAX by {
                if i < st.segments.len() {
                    assert(s.segments[i] == st.segments[i]);
                }
            }
        }
    }
}

proof fn lemma_fold_bounded(lines: Seq<Seq<char>>, base: Seq<char>, ok: Seq<Duration>)
    ensures
        fold_lines(lines, base, ok) matches Ok(s) ==> sequences_bounded(s.segments),
    decreases lines.len(),
{
    if lines.len() > 0 {
        lemma_fold_bounded(lines.drop_last(), base, ok);
        if let Ok(st) = fold_lines(lines.drop_last(), base, ok) {
            lemma_step_bounded(st, trim(lines.last()), base, ok);
        }
    }
}

/// Every segment of a media playlist that `parse` reads has a successor sequence number.
pub proof fn lemma_parse_bounded(text: Seq<char>, base: Seq<char>, ok: Seq<Duration>)
    ensures
        parse_spec(text, base, ok) matches Ok(PlaylistView::Media(m)) ==> sequences_bounded(
            m.segments,
        ),
{
    lemma_fold_bounded(split_char(text, '\n'), base, ok);
}

} // verus!
