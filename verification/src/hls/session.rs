//! The decisions of a sequential HLS media session: which segment comes next, when to
//! reload the playlist, and how a fetched resource is checked and decrypted.
use super::attrs::{be_bytes, u128_be_bytes};
use super::playlist::{
    lemma_parse_bounded, segments_view, sequences_bounded, Media, MediaView, Playlist, Segment,
    SegmentV,
};
use super::HlsError;
use crate::cli::str_eq;
use crate::num::{decimal, push_decimal};
use crate::text::{chars_of, starts_with, starts_with_slice, string_of};
use cbc::cipher::{BlockDecryptMut, KeyIvInit};
use vstd::prelude::*;

verus! {

/// A session as the library models it: the playlist URL, the playlist, and the lowest
/// sequence number still to play.
pub struct SessionView {
    pub url: Seq<char>,
    pub media: MediaView,
    pub next: u64,
}

/// A media session over one media playlist.
pub struct Session {
    url: String,
    media: Media,
    next: u64,
}

impl View for Session {
    type V = SessionView;

    closed spec fn view(&self) -> SessionView {
        SessionView { url: self.url@, media: self.media@, next: self.next }
    }
}

/// The segment where playback starts: the first of an ended playlist, else the third from
/// the end (or the first, when there are fewer).
pub open spec fn start_index(m: MediaView) -> int {
    if m.ended || m.segments.len() < 3 {
        0
    } else {
        m.segments.len() - 3
    }
}

/// The sequence number where playback starts.
pub open spec fn start_next(m: MediaView) -> u64 {
    if start_index(m) < m.segments.len() {
        m.segments[start_index(m)].sequence
    } else {
        0
    }
}

/// Where a new session starts: every segment of an ended playlist is played, from its
/// first; a live playlist is joined at its third segment from the end (at its first when
/// it holds fewer than three).
pub proof fn lemma_start_segment(m: MediaView)
    requires
        m.segments.len() > 0,
    ensures
        m.ended ==> start_next(m) == m.segments[0].sequence,
        !m.ended && m.segments.len() >= 3 ==> start_next(m) == m.segments[m.segments.len()
            - 3].sequence,
        !m.ended && m.segments.len() < 3 ==> start_next(m) == m.segments[0].sequence,
{
}

/// The index of the first segment at or after index `i` whose sequence is at least `n`.
pub open spec fn first_from(segs: Seq<SegmentV>, n: u64, i: int) -> Option<int>
    decreases segs.len() - i,
{
    if i < 0 || i >= segs.len() {
        None
    } else if segs[i].sequence >= n {
        Some(i)
    } else {
        first_from(segs, n, i + 1)
    }
}

pub proof fn lemma_first_from(segs: Seq<SegmentV>, n: u64, i: int)
    requires
        0 <= i,
    ensures
        first_from(segs, n, i) matches Some(k) ==> i <= k < segs.len() && segs[k].sequence >= n,
    decreases segs.len() - i,
{
    if i < segs.len() && segs[i].sequence < n {
        lemma_first_from(segs, n, i + 1);
    }
}

/// From `next` on, the next segment to play (skipping gaps, which advance `next`), with
/// the `next` reached; `None` when no segment is left.
pub open spec fn pending_spec(segs: Seq<SegmentV>, next: u64) -> (u64, Option<int>)
    decreases u64::MAX - next,
{
    match first_from(segs, next, 0) {
        None => (next, None),
        Some(i) => if segs[i].gap && segs[i].sequence < u64::MAX {
            proof {
                lemma_first_from(segs, next, 0);
            }
            pending_spec(segs, (segs[i].sequence + 1) as u64)
        } else {
            (next, Some(i))
        },
    }
}

/// The segment a poll fetches is at or past the next sequence number, and is no gap
/// unless its sequence number is the last one.
pub proof fn lemma_pending_at_or_past(segs: Seq<SegmentV>, next: u64)
    ensures
        pending_spec(segs, next).0 >= next,
        pending_spec(segs, next).1 matches Some(i) ==> 0 <= i < segs.len() && segs[i].sequence
            >= next && (!segs[i].gap || segs[i].sequence == u64::MAX),
    decreases u64::MAX - next,
{
    lemma_first_from(segs, next, 0);
    if let Some(i) = first_from(segs, next, 0) {
        if segs[i].gap && segs[i].sequence < u64::MAX {
            lemma_pending_at_or_past(segs, (segs[i].sequence + 1) as u64);
        }
    }
}

/// A session plays segments in strictly increasing sequence order, so each at most once:
/// once the segment a poll fetched is completed, every later poll of the same playlist
/// fetches one with a larger sequence number.
pub proof fn lemma_fetches_increase(segs: Seq<SegmentV>, next: u64)
    ensures
        pending_spec(segs, next).1 matches Some(i) ==> (segs[i].sequence < u64::MAX ==> (
        pending_spec(segs, (segs[i].sequence + 1) as u64).1 matches Some(k) ==> segs[k].sequence
            > segs[i].sequence)),
{
    lemma_pending_at_or_past(segs, next);
    if let Some(i) = pending_spec(segs, next).1 {
        if 0 <= i < segs.len() && segs[i].sequence < u64::MAX {
            lemma_pending_at_or_past(segs, (segs[i].sequence + 1) as u64);
        }
    }
}

/// What the session asks for next.
#[derive(Debug)]
pub enum SessionStep {
    /// Fetch and play this segment.
    Fetch(Segment),
    /// The playlist ended and every segment was played.
    Finished,
    /// Wait, then fetch the live playlist again.
    Reload,
}

impl Session {
    pub closed spec fn wf(&self) -> bool {
        sequences_bounded(self.media@.segments)
    }

    /// A session over `media`, fetched from `url`.
    pub fn new(url: String, media: Media) -> (r: Session)
        requires
            sequences_bounded(media@.segments),
        ensures
            r@ == (SessionView { url: url@, media: media@, next: start_next(media@) }),
            r.wf(),
    {
        let n = media.segments.len();
        let start = if media.ended || n < 3 {
            0
        } else {
            n - 3
        };
        let next = if start < n {
            media.segments[start].sequence
        } else {
            0
        };
        Session { url, media, next }
    }

    /// Where the session stands: the playlist URL and the next sequence number.
    pub fn checkpoint(&self) -> (r: (String, u64))
        ensures
            r.0@ == self@.url,
            r.1 == self@.next,
    {
        (self.url.clone(), self.next)
    }

    /// Resumes at a checkpoint of an earlier session over the same playlist URL, when the
    /// checkpoint is not past the playlist's last segment.
    pub fn resume(&mut self, url: &str, next: u64)
        requires
            old(self).wf(),
        ensures
            final(self).wf(),
            final(self)@.url == old(self)@.url,
            final(self)@.media == old(self)@.media,
            final(self)@.next == if old(self)@.url == url@ && (old(self)@.media.segments.len() == 0
                || next <= old(self)@.media.segments.last().sequence + 1) {
                next
            } else {
                old(self)@.next
            },
    {
        let n = self.media.segments.len();
        if str_eq(self.url.as_str(), url) {
            proof {
                if n > 0 {
                    assert(segments_view(self.media.segments@).last() == self.media.segments@[n
                        - 1]@);
                }
            }
            if n == 0 || next <= self.media.segments[n - 1].sequence + 1 {
                self.next = next;
            }
        }
    }

    /// The next step: skips gap segments, then fetches the next segment, finishes an
    /// ended playlist, or asks for a reload.
    pub fn poll(&mut self) -> (r: SessionStep)
        requires
            old(self).wf(),
        ensures
            final(self).wf(),
            final(self)@.url == old(self)@.url,
            final(self)@.media == old(self)@.media,
            final(self)@.next == pending_spec(old(self)@.media.segments, old(self)@.next).0,
            match pending_spec(old(self)@.media.segments, old(self)@.next).1 {
                Some(i) => r matches SessionStep::Fetch(s) && s@ == old(
                    self,
                )@.media.segments[i],
                None => if old(self)@.media.ended {
                    r is Finished
                } else {
                    r is Reload
                },
            },
    {
        let ghost segs = self@.media.segments;
        loop
            invariant
                self.wf(),
                self@.media.segments == segs,
                self@.url == old(self)@.url,
                self@.media == old(self)@.media,
                pending_spec(segs, self.next) == pending_spec(segs, old(self)@.next),
            decreases u64::MAX - self.next,
        {
            let n = self.media.segments.len();
            let mut i: usize = 0;
            while i < n && self.media.segments[i].sequence < self.next
                invariant
                    n == self.media.segments@.len(),
                    i <= n,
                    segs == segments_view(self.media.segments@),
                    first_from(segs, self.next, 0) == first_from(segs, self.next, i as int),
                decreases n - i,
            {
                assert(segs[i as int] == self.media.segments@[i as int]@);
                i = i + 1;
            }
            if i == n {
                if self.media.ended {
                    return SessionStep::Finished;
                }
                return SessionStep::Reload;
            }
            assert(segs[i as int] == self.media.segments@[i as int]@);
            assert(first_from(segs, self.next, i as int) == Some(i as int));
            if self.media.segments[i].gap {
                assert(sequences_bounded(segs));
                assert(segs[i as int].sequence < u64::MAX);
                self.next = self.media.segments[i].sequence + 1;
            } else {
                return SessionStep::Fetch(self.media.segments[i].duplicate());
            }
        }
    }

    /// Records that the segment with sequence number `sequence` was played.
    pub fn complete(&mut self, sequence: u64)
        requires
            sequence < u64::MAX,
        ensures
            final(self)@ == (SessionView { next: (sequence + 1) as u64, ..old(self)@ }),
            old(self).wf() ==> final(self).wf(),
    {
        self.next = sequence + 1;
    }

    /// Takes a reloaded playlist, fetched (after redirects) from `url`: it must still be a
    /// media playlist; the next sequence number stays.
    pub fn reload(&mut self, url: String, playlist: Playlist) -> (r: Result<(), HlsError>)
        requires
            old(self).wf(),
            playlist matches Playlist::Media(m) ==> sequences_bounded(m@.segments),
        ensures
            final(self).wf(),
            match playlist {
                Playlist::Media(m) => r is Ok && final(self)@ == (SessionView {
                    url: url@,
                    media: m@,
                    next: old(self)@.next,
                }),
                Playlist::Master(_) => r == Err::<(), HlsError>(HlsError::ChangedToMaster)
                    && final(self)@ == old(self)@,
            },
    {
        match playlist {
            Playlist::Media(m) => {
                self.url = url;
                self.media = m;
                Ok(())
            },
            Playlist::Master(_) => Err(HlsError::ChangedToMaster),
        }
    }

    /// The target duration of the playlist, in seconds.
    pub fn target(&self) -> (r: u64)
        ensures
            r == self@.media.target,
    {
        self.media.target
    }

    /// The playlist URL.
    pub fn url(&self) -> (r: &str)
        ensures
            r@ == self@.url,
    {
        self.url.as_str()
    }
}

/// The largest initialization section, in bytes.
pub const MAX_MAP: usize = 1048576;

/// The size of an AES-128 key resource, in bytes.
pub const KEY_LEN: usize = 16;

/// The longest a live playlist may go without progress: three target durations, and at
/// least 30 seconds, in milliseconds.
pub open spec fn stall_limit_ms(target: u64) -> int {
    let t = 3 * target;
    (if t > 30 { t } else { 30 }) * 1000
}

/// Whether a live playlist that made no progress for `idle_ms` milliseconds has stalled.
pub fn stalled(target: u64, idle_ms: u128) -> (r: bool)
    ensures
        r == (idle_ms > stall_limit_ms(target)),
{
    let t: u128 = 3 * (target as u128);
    let limit: u128 = if t > 30 {
        t
    } else {
        30
    };
    idle_ms > limit * 1000
}

/// How long to wait between reloads of a live playlist: half a target duration, in
/// milliseconds.
pub fn reload_wait_ms(target: u64) -> (r: u128)
    ensures
        r == target * 500,
{
    (target as u128) * 500
}

/// The `Range` header value for `length` bytes from `offset`.
pub open spec fn range_header_spec(offset: u64, length: u64) -> Seq<char> {
    "bytes="@ + decimal(offset as nat) + "-"@ + decimal((offset + length - 1) as nat)
}

/// The prefix that the `Content-Range` of a matching partial response starts with.
pub open spec fn content_range_prefix(offset: u64, length: u64) -> Seq<char> {
    "bytes "@ + decimal(offset as nat) + "-"@ + decimal((offset + length - 1) as nat) + "/"@
}

fn push_str(out: &mut Vec<char>, s: &str)
    ensures
        final(out)@ == old(out)@ + s@,
{
    let c = chars_of(s);
    let ghost before = out@;
    out.extend_from_slice(c.as_slice());
    assert(out@ =~= before + s@);
}

/// Formats the `Range` header value for a byte range.
pub fn range_header(offset: u64, length: u64) -> (r: String)
    requires
        1 <= length,
        offset + length <= u64::MAX,
    ensures
        r@ == range_header_spec(offset, length),
{
    let mut out: Vec<char> = Vec::new();
    push_str(&mut out, "bytes=");
    push_decimal(&mut out, offset);
    push_str(&mut out, "-");
    push_decimal(&mut out, offset + length - 1);
    assert(out@ =~= range_header_spec(offset, length));
    string_of(out.as_slice())
}

/// Checks a request before it is sent: a byte range may not exceed the size limit.
pub fn check_request(range: Option<(u64, u64)>, max: usize) -> (r: Result<(), HlsError>)
    ensures
        r is Err <==> (range matches Some((o, n)) && n > max),
        r is Err ==> r == Err::<(), HlsError>(HlsError::TooLarge),
{
    match range {
        Some((_, n)) => if n > max as u64 {
            Err(HlsError::TooLarge)
        } else {
            Ok(())
        },
        None => Ok(()),
    }
}

/// Checks the status and `Content-Range` of the response to a byte-range request: it must
/// be 206 with the requested range.
pub fn check_partial(offset: u64, length: u64, status: u16, content_range: Option<&str>) -> (r:
    Result<(), HlsError>)
    requires
        1 <= length,
        offset + length <= u64::MAX,
    ensures
        r is Ok <==> status == 206 && (content_range matches Some(c) && starts_with(
            c@,
            content_range_prefix(offset, length),
        )),
        r is Err ==> r == Err::<(), HlsError>(HlsError::RangeIgnored),
{
    let mut expected: Vec<char> = Vec::new();
    push_str(&mut expected, "bytes ");
    push_decimal(&mut expected, offset);
    push_str(&mut expected, "-");
    push_decimal(&mut expected, offset + length - 1);
    push_str(&mut expected, "/");
    assert(expected@ =~= content_range_prefix(offset, length));
    let ok = match content_range {
        Some(c) => starts_with_slice(chars_of(c).as_slice(), expected.as_slice()),
        None => false,
    };
    if status != 206 || !ok {
        return Err(HlsError::RangeIgnored);
    }
    Ok(())
}

/// Checks a downloaded body: at most `max` bytes, and exactly the requested length of a
/// byte range.
pub fn check_body(len: usize, max: usize, range: Option<(u64, u64)>) -> (r: Result<(), HlsError>)
    ensures
        len > max ==> r == Err::<(), HlsError>(HlsError::TooLarge),
        len <= max && (range matches Some((o, n)) && n != len) ==> r == Err::<(), HlsError>(
            HlsError::Truncated,
        ),
        r is Ok <==> len <= max && !(range matches Some((o, n)) && n != len),
{
    if len > max {
        return Err(HlsError::TooLarge);
    }
    match range {
        Some((_, n)) => if n != len as u64 {
            Err(HlsError::Truncated)
        } else {
            Ok(())
        },
        None => Ok(()),
    }
}

/// What AES-128-CBC decryption with PKCS#7 unpadding yields for `data` under `key` and
/// `iv`, or `None` where the padding is malformed.
pub uninterp spec fn aes128_cbc_decrypt(key: Seq<u8>, iv: Seq<u8>, data: Seq<u8>) -> Option<Seq<u8>>;

/// `cbc::Decryptor::<aes::Aes128>::decrypt_padded_mut::<Pkcs7>`: decrypts and unpads. The
/// contract names the result (`aes128_cbc_decrypt`) and states the one fact the cipher's
/// documentation gives: input that is not a whole number of 16-byte blocks fails.
#[verifier::external_body]
fn aes128_cbc_pkcs7_decrypt(key: &[u8; 16], iv: &[u8; 16], data: &[u8]) -> (r: Option<Vec<u8>>)
    ensures
        r matches Some(p) ==> aes128_cbc_decrypt(key@, iv@, data@) == Some(p@),
        r is None ==> aes128_cbc_decrypt(key@, iv@, data@) is None,
        data@.len() % 16 != 0 ==> r is None,
{
    let mut buf = data.to_vec();
    match cbc::Decryptor::<aes::Aes128>::new(key.into(), iv.into()).decrypt_padded_mut::<
        cbc::cipher::block_padding::Pkcs7,
    >(&mut buf) {
        Ok(plain) => Some(plain.to_vec()),
        Err(_) => None,
    }
}

/// The IV of a segment: the key's explicit IV, or else the segment's sequence number as a
/// 128-bit big-endian number.
pub open spec fn segment_iv(iv: Option<Seq<u8>>, sequence: u64) -> Seq<u8> {
    match iv {
        Some(v) => v,
        None => be_bytes(sequence as u128),
    }
}

/// Decrypts an AES-128 segment or initialization section with the fetched key bytes.
pub fn decrypt(data: &[u8], key: &[u8], iv: Option<[u8; 16]>, sequence: u64) -> (r: Result<
    Vec<u8>,
    HlsError,
>)
    ensures
        key@.len() != 16 ==> r == Err::<Vec<u8>, HlsError>(HlsError::KeyLength),
        key@.len() == 16 ==> match aes128_cbc_decrypt(
            key@,
            segment_iv(
                match iv {
                    Some(a) => Some(a@),
                    None => None,
                },
                sequence,
            ),
            data@,
        ) {
            Some(p) => r matches Ok(v) && v@ == p,
            None => r == Err::<Vec<u8>, HlsError>(HlsError::Padding),
        },
{
    if key.len() != 16 {
        return Err(HlsError::KeyLength);
    }
    let k: [u8; 16] = [
        key[0],
        key[1],
        key[2],
        key[3],
        key[4],
        key[5],
        key[6],
        key[7],
        key[8],
        key[9],
        key[10],
        key[11],
        key[12],
        key[13],
        key[14],
        key[15],
    ];
    assert(k@ =~= key@);
    let iv = match iv {
        Some(a) => a,
        None => u128_be_bytes(sequence as u128),
    };
    match aes128_cbc_pkcs7_decrypt(&k, &iv, data) {
        Some(p) => Ok(p),
        None => Err(HlsError::Padding),
    }
}

/// What a fetched segment becomes before decoding.
#[derive(Debug)]
pub enum Assembled {
    /// Bytes ready for the decoder.
    Ready(Vec<u8>),
    /// An MPEG-TS segment whose audio must first be extracted.
    TransportStream(Vec<u8>),
}

/// Puts a fetched (and decrypted) segment together with its initialization section, if
/// any; a segment without one that starts with the MPEG-TS sync byte is a transport stream.
pub fn assemble(segment: Vec<u8>, map: Option<Vec<u8>>) -> (r: Assembled)
    ensures
        match map {
            Some(m) => r matches Assembled::Ready(b) && b@ == m@ + segment@,
            None => if segment@.len() > 0 && segment@[0] == 0x47 {
                r matches Assembled::TransportStream(b) && b@ == segment@
            } else {
                r matches Assembled::Ready(b) && b@ == segment@
            },
        },
{
    match map {
        Some(mut m) => {
            let ghost mv = m@;
            let mut s = segment;
            m.append(&mut s);
            Assembled::Ready(m)
        },
        None => if segment.len() > 0 && segment[0] == 0x47 {
            Assembled::TransportStream(segment)
        } else {
            Assembled::Ready(segment)
        },
    }
}

} // verus!
