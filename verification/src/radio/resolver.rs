//! Playlist resolution: from a configured URL through nested PLS, M3U and HLS master
//! playlists to a stream, within fixed bounds on depth, requests and size.
use super::pls::{playlist, playlist_spec, urls_view};
use super::RadioError;
use crate::hls::playlist::{Duration, parse_spec, strs_view, Media, MediaView, Playlist, PlaylistView};
use crate::hls::reader::parse;
use crate::num::{parse_uint, parse_uint_slice};
use crate::text::{
    chars_of, find_char, find_char_slice, lower, lower_slice, slice_eq, split_char, split_ranges,
    starts_with, starts_with_slice, trim, trim_slice,
};
use crate::web::{validate_spec, validate_url, UrlParts, WebUrl};
use vstd::prelude::*;

verus! {

/// Playlists nested this deep are not followed.
pub const MAX_DEPTH: usize = 5;

/// At most this many requests are made for one resolution.
pub const MAX_REQUESTS: usize = 32;

/// A playlist may list at most this many alternatives.
pub const MAX_ALTERNATIVES: usize = 64;

/// The largest playlist read, in bytes.
pub const MAX_PLAYLIST: usize = 65536;

/// A resolver as the library models it.
pub struct ResolverView {
    /// URLs still to try, with their nesting depth; the last is tried first.
    pub pending: Seq<(Seq<char>, usize)>,
    /// URLs requested so far.
    pub visited: Seq<Seq<char>>,
    pub requests: usize,
    pub rotation: usize,
    pub last_error: Option<RadioError>,
}

/// The fields of a resolver.
struct ResolverState {
    pending: Vec<(String, usize)>,
    visited: Vec<String>,
    requests: usize,
    rotation: usize,
    last_error: Option<RadioError>,
}

/// The text of each pending URL, with its depth.
pub open spec fn pending_view(v: Seq<(String, usize)>) -> Seq<(Seq<char>, usize)> {
    v.map_values(|p: (String, usize)| (p.0@, p.1))
}

impl View for ResolverState {
    type V = ResolverView;

    closed spec fn view(&self) -> ResolverView {
        ResolverView {
            pending: pending_view(self.pending@),
            visited: strs_view(self.visited@),
            requests: self.requests,
            rotation: self.rotation,
            last_error: self.last_error,
        }
    }
}

/// What the resolver asks for next.
#[derive(Debug)]
pub enum ResolveStep {
    /// Request this URL; its playlist entries, if any, will be one level deeper.
    Fetch(String, usize),
    /// The last URL was passed over (too deep, or met before); the error is kept.
    Skipped,
    /// Every alternative failed; the last error, if there was one.
    Exhausted(Option<RadioError>),
    /// Resolution would need more than 32 requests.
    OverBudget,
}

/// The outcome of reading a fetched playlist.
#[derive(Debug)]
pub enum Expansion {
    /// Its alternatives were queued.
    Queued,
    /// It is an HLS media playlist: play it.
    Media(Media),
    /// It was refused; the error is kept.
    Failed,
}

/// Whether any trimmed line of `text` starts with `#EXT-X-` (an HLS tag).
pub open spec fn is_hls_spec(text: Seq<char>) -> bool {
    exists|i: int|
        0 <= i < split_char(text, '\n').len() && starts_with(
            trim(#[trigger] split_char(text, '\n')[i]),
            "#EXT-X-"@,
        )
}

/// What a resolver keeps over its whole life: every request was of a different URL, no
/// more than 32 requests were made, and no pending URL is more than five playlists deep.
pub open spec fn resolver_inv(v: ResolverView) -> bool {
    &&& v.requests == v.visited.len()
    &&& v.requests <= MAX_REQUESTS
    &&& v.visited.no_duplicates()
    &&& forall|i: int| 0 <= i < v.pending.len() ==> (#[trigger] v.pending[i]).1 <= MAX_DEPTH
}

/// `s` rotated left by `r` places.
pub open spec fn rotate_left(s: Seq<Seq<char>>, r: int) -> Seq<Seq<char>> {
    s.skip(r) + s.take(r)
}

/// The pending list after queueing `entries` one level below `depth`: rotated left by the
/// resolver's rotation, then pushed so that the first comes off first.
pub open spec fn queued(pending: Seq<(Seq<char>, usize)>, entries: Seq<Seq<char>>, rotation: usize, depth: usize) -> Seq<(Seq<char>, usize)> {
    let rot = rotate_left(entries, (rotation as int) % (entries.len() as int));
    pending + rot.reverse().map_values(|u: Seq<char>| (u, (depth + 1) as usize))
}

/// The URLs that a fetched playlist lists: those of an HLS master playlist, or of a PLS
/// or M3U playlist; an HLS media playlist is played instead.
pub open spec fn alternatives_spec(text: Seq<char>, pls: bool, base: Seq<char>, ok: Seq<Duration>) -> Result<Result<Seq<Seq<char>>, MediaView>, RadioError> {
    if is_hls_spec(text) {
        match parse_spec(text, base, ok) {
            Err(e) => Err(RadioError::Hls(e)),
            Ok(PlaylistView::Master(urls)) => Ok(Ok(urls)),
            Ok(PlaylistView::Media(m)) => Ok(Err(m)),
        }
    } else {
        match playlist_spec(text, pls, base) {
            Err(e) => Err(e),
            Ok(urls) => Ok(Ok(hrefs_of(urls))),
        }
    }
}

/// Adding a URL not yet visited keeps the visited URLs distinct.
proof fn lemma_push_new(v: Seq<Seq<char>>, u: Seq<char>)
    requires
        v.no_duplicates(),
        !v.contains(u),
    ensures
        v.push(u).no_duplicates(),
{
    assert forall|i: int, j: int| 0 <= i < v.push(u).len() && 0 <= j < v.push(u).len() && i != j
        implies v.push(u)[i] != v.push(u)[j] by {
        if i == v.len() as int {
            assert(v[j] == v.push(u)[j]);
        } else if j == v.len() as int {
            assert(v[i] == v.push(u)[i]);
        }
    }
}

impl ResolverState {
    /// A resolver for the stream or playlist at `input`; `rotation` turns the alternatives
    /// of every playlist, so that a reconnect can try another one first.
    fn new(input: &str, rotation: usize) -> (r: Result<ResolverState, RadioError>)
        ensures
            r matches Ok(res) ==> validate_spec(input@) matches Ok(u) && res@ == (ResolverView {
                pending: seq![(u.0, 0usize)],
                visited: seq![],
                requests: 0,
                rotation,
                last_error: None,
            }),
            r matches Err(e) ==> validate_spec(input@) matches Err(ue) && e == RadioError::Url(ue),
            r matches Ok(res) ==> resolver_inv(res@),
    {
        let u = match validate_url(input) {
            Ok(u) => u,
            Err(e) => return Err(RadioError::Url(e)),
        };
        let r = ResolverState {
            pending: vec![(u.href, 0)],
            visited: Vec::new(),
            requests: 0,
            rotation,
            last_error: None,
        };
        assert(r@.pending =~= seq![(u@.0, 0usize)]);
        assert(r@.visited =~= Seq::<Seq<char>>::empty());
        Ok(r)
    }

    /// Whether URLs remain to be tried.
    fn has_pending(&self) -> (r: bool)
        ensures
            r == (self@.pending.len() > 0),
    {
        self.pending.len() > 0
    }

    /// Takes the next URL off the pending list and decides what to do with it.
    fn step(&mut self) -> (r: ResolveStep)
        ensures
            old(self)@.pending.len() == 0 ==> r == ResolveStep::Exhausted(old(self)@.last_error)
                && final(self)@ == (ResolverView { last_error: None, ..old(self)@ }),
            old(self)@.pending.len() > 0 ==> {
                let (url, depth) = old(self)@.pending.last();
                let rest = old(self)@.pending.drop_last();
                if depth >= MAX_DEPTH {
                    r is Skipped && final(self)@ == (ResolverView {
                        pending: rest,
                        last_error: Some(RadioError::TooDeep),
                        ..old(self)@
                    })
                } else if old(self)@.requests >= MAX_REQUESTS {
                    r is OverBudget && final(self)@ == (ResolverView {
                        pending: rest,
                        ..old(self)@
                    })
                } else if old(self)@.visited.contains(url) {
                    r is Skipped && final(self)@ == (ResolverView {
                        pending: rest,
                        last_error: Some(RadioError::Cycle),
                        ..old(self)@
                    })
                } else {
                    r matches ResolveStep::Fetch(u, d) && u@ == url && d == depth
                        && final(self)@ == (ResolverView {
                        pending: rest,
                        visited: old(self)@.visited.push(url),
                        requests: (old(self)@.requests + 1) as usize,
                        ..old(self)@
                    })
                }
            },
            resolver_inv(old(self)@) ==> resolver_inv(final(self)@),
    {
        let ghost pv = pending_view(self.pending@);
        match self.pending.pop() {
            None => {
                let e = self.last_error.take();
                ResolveStep::Exhausted(e)
            },
            Some((url, depth)) => {
                assert(pending_view(self.pending@) =~= pv.drop_last());
                if depth >= MAX_DEPTH {
                    self.last_error = Some(RadioError::TooDeep);
                    return ResolveStep::Skipped;
                }
                if self.requests >= MAX_REQUESTS {
                    return ResolveStep::OverBudget;
                }
                let ghost vv = strs_view(self.visited@);
                if contains_str(&self.visited, &url) {
                    self.last_error = Some(RadioError::Cycle);
                    return ResolveStep::Skipped;
                }
                assert(!vv.contains(url@));
                self.visited.push(url.clone());
                assert(strs_view(self.visited@) =~= vv.push(url@));
                proof {
                    if vv.no_duplicates() {
                        lemma_push_new(vv, url@);
                    }
                }
                self.requests = self.requests + 1;
                ResolveStep::Fetch(url, depth)
            },
        }
    }

    /// Records why the last fetched URL failed.
    fn fail(&mut self, e: RadioError)
        ensures
            final(self)@ == (ResolverView { last_error: Some(e), ..old(self)@ }),
            resolver_inv(old(self)@) ==> resolver_inv(final(self)@),
    {
        self.last_error = Some(e);
    }

    /// Reads a playlist fetched for a URL at `depth`, after redirects from `base`. `ok`
    /// judges the HLS segment durations (see `hls::reader::parse`). Its 1 to 64
    /// alternatives are queued one level deeper; an HLS media playlist is returned.
    fn expand(&mut self, text: &str, pls: bool, base: &WebUrl, ok: &[Duration], depth: usize) -> (r:
        Expansion)
        requires
            depth < MAX_DEPTH,
        ensures
            match alternatives_spec(text@, pls, base.href@, ok@) {
                Err(e) => r is Failed && final(self)@ == (ResolverView {
                    last_error: Some(e),
                    ..old(self)@
                }),
                Ok(Err(m)) => r matches Expansion::Media(x) && x@ == m && final(self)@ == old(
                    self,
                )@,
                Ok(Ok(urls)) => if urls.len() == 0 || urls.len() > MAX_ALTERNATIVES {
                    r is Failed && final(self)@ == (ResolverView {
                        last_error: Some(RadioError::Alternatives),
                        ..old(self)@
                    })
                } else {
                    r is Queued && final(self)@ == (ResolverView {
                        pending: queued(old(self)@.pending, urls, old(self)@.rotation, depth),
                        ..old(self)@
                    })
                },
            },
            resolver_inv(old(self)@) ==> resolver_inv(final(self)@),
    {
        let entries: Vec<String> = if is_hls(text) {
            match parse(text, base, ok) {
                Err(e) => {
                    self.last_error = Some(RadioError::Hls(e));
                    return Expansion::Failed;
                },
                Ok(Playlist::Master(urls)) => urls,
                Ok(Playlist::Media(m)) => return Expansion::Media(m),
            }
        } else {
            match playlist(text, pls, base) {
                Err(e) => {
                    self.last_error = Some(e);
                    return Expansion::Failed;
                },
                Ok(urls) => href_list(&urls),
            }
        };
        let count = entries.len();
        if count == 0 || count > MAX_ALTERNATIVES {
            self.last_error = Some(RadioError::Alternatives);
            return Expansion::Failed;
        }
        let ghost ev = strs_view(entries@);
        let shift = self.rotation % count;
        let ghost rot = rotate_left(ev, shift as int);
        let ghost start = pending_view(self.pending@);
        let mut j: usize = count;
        while j > 0
            invariant
                j <= count,
                count <= MAX_ALTERNATIVES,
                count == entries@.len(),
                ev == strs_view(entries@),
                shift < count,
                depth < MAX_DEPTH,
                rot == rotate_left(ev, shift as int),
                self.visited == old(self).visited,
                self.requests == old(self).requests,
                self.rotation == old(self).rotation,
                self.last_error == old(self).last_error,
                start == pending_view(old(self).pending@),
                shift == old(self).rotation % count,
                pending_view(self.pending@) == start + rot.skip(j as int).reverse().map_values(
                    |u: Seq<char>| (u, (depth + 1) as usize),
                ),
            decreases j,
        {
            let k = if j - 1 + shift < count {
                j - 1 + shift
            } else {
                j - 1 + shift - count
            };
            assert(rot[j - 1] == ev[k as int]);
            let ghost before = pending_view(self.pending@);
            self.pending.push((entries[k].clone(), depth + 1));
            assert(rot.skip(j - 1).reverse() =~= rot.skip(j as int).reverse().push(rot[j - 1]));
            assert(pending_view(self.pending@) =~= before.push((ev[k as int], (depth + 1) as usize)));
            j = j - 1;
        }
        assert(rot.skip(0) =~= rot);
        Expansion::Queued
    }
}

/// Resolves a configured URL to a stream, trying alternatives depth first.
pub struct Resolver {
    st: ResolverState,
}

impl View for Resolver {
    type V = ResolverView;

    closed spec fn view(&self) -> ResolverView {
        self.st@
    }
}

impl Resolver {
    /// Every resolver keeps its lifelong invariant.
    #[verifier::type_invariant]
    spec fn keeps_invariant(self) -> bool {
        resolver_inv(self@)
    }

    /// A resolver with nothing to do, holding no request.
    fn idle_state() -> (r: ResolverState)
        ensures
            r@ == (ResolverView {
                pending: seq![],
                visited: seq![],
                requests: 0,
                rotation: 0,
                last_error: None,
            }),
    {
        let r = ResolverState {
            pending: Vec::new(),
            visited: Vec::new(),
            requests: 0,
            rotation: 0,
            last_error: None,
        };
        assert(r@.pending =~= Seq::<(Seq<char>, usize)>::empty());
        assert(r@.visited =~= Seq::<Seq<char>>::empty());
        r
    }

    /// A resolver for the stream or playlist at `input`; `rotation` turns the alternatives
    /// of every playlist, so that a reconnect can try another one first.
    pub fn new(input: &str, rotation: usize) -> (r: Result<Resolver, RadioError>)
        ensures
            r matches Ok(res) ==> validate_spec(input@) matches Ok(u) && res@ == (ResolverView {
                pending: seq![(u.0, 0usize)],
                visited: seq![],
                requests: 0,
                rotation,
                last_error: None,
            }),
            r matches Err(e) ==> validate_spec(input@) matches Err(ue) && e == RadioError::Url(ue),
            r matches Ok(res) ==> resolver_inv(res@),
    {
        match ResolverState::new(input, rotation) {
            Ok(st) => Ok(Resolver { st }),
            Err(e) => Err(e),
        }
    }

    /// Whether URLs remain to be tried.
    pub fn has_pending(&self) -> (r: bool)
        ensures
            r == (self@.pending.len() > 0),
    {
        self.st.has_pending()
    }

    /// Takes the next URL off the pending list and decides what to do with it.
    pub fn step(&mut self) -> (r: ResolveStep)
        ensures
            old(self)@.pending.len() == 0 ==> r == ResolveStep::Exhausted(old(self)@.last_error)
                && final(self)@ == (ResolverView { last_error: None, ..old(self)@ }),
            old(self)@.pending.len() > 0 ==> {
                let (url, depth) = old(self)@.pending.last();
                let rest = old(self)@.pending.drop_last();
                if depth >= MAX_DEPTH {
                    r is Skipped && final(self)@ == (ResolverView {
                        pending: rest,
                        last_error: Some(RadioError::TooDeep),
                        ..old(self)@
                    })
                } else if old(self)@.requests >= MAX_REQUESTS {
                    r is OverBudget && final(self)@ == (ResolverView {
                        pending: rest,
                        ..old(self)@
                    })
                } else if old(self)@.visited.contains(url) {
                    r is Skipped && final(self)@ == (ResolverView {
                        pending: rest,
                        last_error: Some(RadioError::Cycle),
                        ..old(self)@
                    })
                } else {
                    r matches ResolveStep::Fetch(u, d) && u@ == url && d == depth
                        && final(self)@ == (ResolverView {
                        pending: rest,
                        visited: old(self)@.visited.push(url),
                        requests: (old(self)@.requests + 1) as usize,
                        ..old(self)@
                    })
                }
            },
            resolver_inv(final(self)@),
    {
        proof {
            use_type_invariant(&*self);
        }
        let mut st = Resolver::idle_state();
        std::mem::swap(&mut st, &mut self.st);
        let r = st.step();
        std::mem::swap(&mut st, &mut self.st);
        r
    }

    /// Records why the last fetched URL failed.
    pub fn fail(&mut self, e: RadioError)
        ensures
            final(self)@ == (ResolverView { last_error: Some(e), ..old(self)@ }),
            resolver_inv(final(self)@),
    {
        proof {
            use_type_invariant(&*self);
        }
        let mut st = Resolver::idle_state();
        std::mem::swap(&mut st, &mut self.st);
        let r = st.fail(e);
        std::mem::swap(&mut st, &mut self.st);
        r
    }

    /// Reads a playlist fetched for a URL at `depth`, after redirects from `base`. `ok`
    /// judges the HLS segment durations (see `hls::reader::parse`). Its 1 to 64
    /// alternatives are queued one level deeper; an HLS media playlist is returned.
    pub fn expand(&mut self, text: &str, pls: bool, base: &WebUrl, ok: &[Duration], depth: usize) -> (r:
        Expansion)
        requires
            depth < MAX_DEPTH,
        ensures
            match alternatives_spec(text@, pls, base.href@, ok@) {
                Err(e) => r is Failed && final(self)@ == (ResolverView {
                    last_error: Some(e),
                    ..old(self)@
                }),
                Ok(Err(m)) => r matches Expansion::Media(x) && x@ == m && final(self)@ == old(
                    self,
                )@,
                Ok(Ok(urls)) => if urls.len() == 0 || urls.len() > MAX_ALTERNATIVES {
                    r is Failed && final(self)@ == (ResolverView {
                        last_error: Some(RadioError::Alternatives),
                        ..old(self)@
                    })
                } else {
                    r is Queued && final(self)@ == (ResolverView {
                        pending: queued(old(self)@.pending, urls, old(self)@.rotation, depth),
                        ..old(self)@
                    })
                },
            },
            resolver_inv(final(self)@),
    {
        proof {
            use_type_invariant(&*self);
        }
        let mut st = Resolver::idle_state();
        std::mem::swap(&mut st, &mut self.st);
        let r = st.expand(text, pls, base, ok, depth);
        std::mem::swap(&mut st, &mut self.st);
        r
    }
}

fn contains_str(v: &Vec<String>, s: &String) -> (r: bool)
    ensures
        r == strs_view(v@).contains(s@),
{
    let ghost vv = strs_view(v@);
    let mut i: usize = 0;
    while i < v.len()
        invariant
            i <= v@.len(),
            vv == strs_view(v@),
            forall|k: int| 0 <= k < i ==> vv[k] != s@,
        decreases v@.len() - i,
    {
        if crate::cli::str_eq(v[i].as_str(), s.as_str()) {
            assert(vv[i as int] == s@);
            return true;
        }
        i = i + 1;
    }
    false
}

/// The serialization of each URL.
pub open spec fn hrefs_of(urls: Seq<UrlParts>) -> Seq<Seq<char>> {
    urls.map_values(|u: UrlParts| u.0)
}

fn href_list(urls: &Vec<WebUrl>) -> (r: Vec<String>)
    ensures
        strs_view(r@) == hrefs_of(urls_view(urls@)),
{
    let mut hrefs: Vec<String> = Vec::new();
    let mut i: usize = 0;
    while i < urls.len()
        invariant
            i <= urls@.len(),
            strs_view(hrefs@) =~= hrefs_of(urls_view(urls@).take(i as int)),
        decreases urls@.len() - i,
    {
        assert(urls_view(urls@)[i as int] == urls@[i as int]@);
        let ghost before = strs_view(hrefs@);
        hrefs.push(urls[i].href.clone());
        assert(strs_view(hrefs@) =~= before.push(urls@[i as int]@.0));
        assert(urls_view(urls@).take(i + 1) =~= urls_view(urls@).take(i as int).push(urls@[i as int]@));
        assert(hrefs_of(urls_view(urls@).take(i + 1)) =~= hrefs_of(urls_view(urls@).take(i as int)).push(urls@[i as int]@.0));
        i = i + 1;
    }
    assert(urls_view(urls@).take(i as int) =~= urls_view(urls@));
    hrefs
}

/// Whether a playlist text is HLS: some trimmed line starts with `#EXT-X-`.
pub fn is_hls(text: &str) -> (r: bool)
    ensures
        r == is_hls_spec(text@),
{
    let chars = chars_of(text);
    let s = chars.as_slice();
    let lines = split_ranges(s, '\n');
    let tag = chars_of("#EXT-X-");
    let ghost all = split_char(s@, '\n');
    let mut k: usize = 0;
    while k < lines.len()
        invariant
            k <= lines@.len(),
            lines@.len() == all.len(),
            all == split_char(text@, '\n'),
            s@ == text@,
            tag@ == "#EXT-X-"@,
            forall|j: int|
                0 <= j < lines@.len() ==> #[trigger] lines@[j].0 <= lines@[j].1 <= s@.len()
                    && s@.subrange(lines@[j].0 as int, lines@[j].1 as int) == all[j],
            forall|j: int| 0 <= j < k ==> !starts_with(trim(#[trigger] all[j]), "#EXT-X-"@),
        decreases lines@.len() - k,
    {
        let (a, b) = lines[k];
        if starts_with_slice(trim_slice(&s[a..b]), tag.as_slice()) {
            return true;
        }
        k = k + 1;
    }
    false
}

/// How a fetched resource is read.
#[derive(Debug, PartialEq, Eq)]
pub enum Kind {
    /// An audio stream.
    Direct,
    /// A playlist: PLS when `true`, M3U (or HLS) otherwise.
    Playlist(bool),
}

/// Whether `s` ends with `p`.
pub open spec fn ends_with(s: Seq<char>, p: Seq<char>) -> bool {
    p.len() <= s.len() && s.skip(s.len() - p.len()) == p
}

/// The media type of a `Content-Type` value: before any `;`, trimmed, lowercase.
pub open spec fn media_type(mime: Seq<char>) -> Seq<char> {
    lower(
        trim(
            match find_char(mime, ';') {
                Some(i) => mime.take(i),
                None => mime,
            },
        ),
    )
}

/// Whether a resource is a PLS playlist, by media type or path extension.
pub open spec fn is_pls(kind: Seq<char>, path: Seq<char>) -> bool {
    kind == "audio/x-scpls"@ || ends_with(lower(path), ".pls"@)
}

/// Whether a resource is an M3U playlist, by media type or path extension.
pub open spec fn is_m3u(kind: Seq<char>, path: Seq<char>) -> bool {
    kind == "audio/x-mpegurl"@ || kind == "audio/mpegurl"@ || kind == "application/x-mpegurl"@
        || kind == "application/vnd.apple.mpegurl"@ || ends_with(lower(path), ".m3u"@) || ends_with(
        lower(path),
        ".m3u8"@,
    )
}

/// How a response of `Content-Type` `mime` whose final URL has path `path` is read.
pub open spec fn kind_of(mime: Seq<char>, path: Seq<char>) -> Kind {
    if !is_pls(media_type(mime), path) && !is_m3u(media_type(mime), path) {
        Kind::Direct
    } else {
        Kind::Playlist(is_pls(media_type(mime), path))
    }
}

/// A final URL whose path ends in `.pls`, in any case, is read as a PLS playlist, and one
/// ending in `.m3u` or `.m3u8` (and not `.pls`) as an M3U playlist, whatever the
/// `Content-Type`; a PLS media type makes a PLS playlist whatever the path.
pub proof fn lemma_playlist_by_extension(mime: Seq<char>, path: Seq<char>)
    ensures
        ends_with(lower(path), ".pls"@) ==> kind_of(mime, path) == Kind::Playlist(true),
        ends_with(lower(path), ".m3u"@) || ends_with(lower(path), ".m3u8"@) ==> kind_of(mime, path)
            == Kind::Playlist(!ends_with(lower(path), ".pls"@) ==> media_type(mime)
            == "audio/x-scpls"@),
        media_type(mime) == "audio/x-scpls"@ ==> kind_of(mime, path) == Kind::Playlist(true),
{
}

fn ends_with_slice(s: &[char], p: &[char]) -> (r: bool)
    ensures
        r == ends_with(s@, p@),
{
    if p.len() > s.len() {
        return false;
    }
    slice_eq(&s[s.len() - p.len()..s.len()], p)
}

fn eq_lit(s: &[char], lit: &str) -> (r: bool)
    ensures
        r == (s@ == lit@),
{
    slice_eq(s, chars_of(lit).as_slice())
}

/// Classifies a response by its final URL (after redirects) and `Content-Type`; the final
/// URL must be a stream URL, and becomes the base for relative entries.
pub fn classify(final_url: &str, mime: &str) -> (r: Result<(WebUrl, Kind), RadioError>)
    ensures
        r matches Err(e) ==> validate_spec(final_url@) matches Err(ue) && e == RadioError::Url(ue),
        r matches Ok((base, kind)) ==> validate_spec(final_url@) == Ok::<UrlParts, crate::web::UrlError>(
            base@,
        ) && kind == kind_of(mime@, base@.3),
{
    let base = match validate_url(final_url) {
        Ok(u) => u,
        Err(e) => return Err(RadioError::Url(e)),
    };
    let m = chars_of(mime);
    let head = match find_char_slice(m.as_slice(), ';') {
        Some(i) => {
            proof {
                crate::text::lemma_find_from(m@, seq![';'], 0);
            }
            &m.as_slice()[0..i]
        },
        None => m.as_slice(),
    };
    let kind = lower_slice(trim_slice(head));
    let path = lower_slice(chars_of(base.path.as_str()).as_slice());
    let k = kind.as_slice();
    let p = path.as_slice();
    let pls = eq_lit(k, "audio/x-scpls") || ends_with_slice(p, chars_of(".pls").as_slice());
    let m3u = eq_lit(k, "audio/x-mpegurl") || eq_lit(k, "audio/mpegurl") || eq_lit(
        k,
        "application/x-mpegurl",
    ) || eq_lit(k, "application/vnd.apple.mpegurl") || ends_with_slice(
        p,
        chars_of(".m3u").as_slice(),
    ) || ends_with_slice(p, chars_of(".m3u8").as_slice());
    if !pls && !m3u {
        Ok((base, Kind::Direct))
    } else {
        Ok((base, Kind::Playlist(pls)))
    }
}

/// Reads the `icy-metaint` header, when present, as the audio byte count between
/// metadata blocks.
pub fn parse_metaint(header: Option<&str>) -> (r: Result<Option<usize>, RadioError>)
    ensures
        header is None ==> r == Ok::<Option<usize>, RadioError>(None),
        header matches Some(h) ==> match parse_uint(h@, 10, usize::MAX as nat) {
            Ok(v) => r == Ok::<Option<usize>, RadioError>(Some(v as usize)),
            Err(e) => r == Err::<Option<usize>, RadioError>(RadioError::Metaint(e)),
        },
{
    match header {
        None => Ok(None),
        Some(h) => match parse_uint_slice(chars_of(h).as_slice(), 10, usize::MAX as u128) {
            Ok(v) => Ok(Some(v as usize)),
            Err(e) => Err(RadioError::Metaint(e)),
        },
    }
}

/// `String::from_utf8`: the text of `bytes` when they are valid UTF-8, decoded as vstd's
/// `decode_utf8` models UTF-8.
#[verifier::external_body]
fn utf8_string(bytes: Vec<u8>) -> (r: Option<String>)
    ensures
        r is Some <==> vstd::utf8::valid_utf8(bytes@),
        r matches Some(s) ==> s@ == vstd::utf8::decode_utf8(bytes@),
{
    String::from_utf8(bytes).ok()
}

/// A playlist body received in chunks, at most 64 KiB.
pub struct PlaylistReader {
    bytes: Vec<u8>,
}

impl View for PlaylistReader {
    type V = Seq<u8>;

    closed spec fn view(&self) -> Seq<u8> {
        self.bytes@
    }
}

impl PlaylistReader {
    pub fn new() -> (r: PlaylistReader)
        ensures
            r@ == Seq::<u8>::empty(),
    {
        PlaylistReader { bytes: Vec::new() }
    }

    /// Adds a received chunk; a body over 64 KiB is refused.
    pub fn push(&mut self, chunk: &[u8]) -> (r: Result<(), RadioError>)
        requires
            old(self)@.len() <= MAX_PLAYLIST,
        ensures
            old(self)@.len() + chunk@.len() > MAX_PLAYLIST ==> r == Err::<(), RadioError>(
                RadioError::PlaylistTooLarge,
            ) && final(self)@ == old(self)@,
            old(self)@.len() + chunk@.len() <= MAX_PLAYLIST ==> r is Ok && final(self)@ == old(
                self,
            )@ + chunk@,
            final(self)@.len() <= MAX_PLAYLIST,
    {
        if chunk.len() > MAX_PLAYLIST - self.bytes.len() {
            return Err(RadioError::PlaylistTooLarge);
        }
        let ghost before = self.bytes@;
        self.bytes.extend_from_slice(chunk);
        assert(self.bytes@ =~= before + chunk@);
        Ok(())
    }

    /// The received text; it must be UTF-8.
    pub fn finish(self) -> (r: Result<String, RadioError>)
        ensures
            vstd::utf8::valid_utf8(self@) ==> (r matches Ok(s) && s@ == vstd::utf8::decode_utf8(
                self@,
            )),
            !vstd::utf8::valid_utf8(self@) ==> r == Err::<String, RadioError>(RadioError::NotUtf8),
    {
        match utf8_string(self.bytes) {
            Some(s) => Ok(s),
            None => Err(RadioError::NotUtf8),
        }
    }
}

} // verus!
