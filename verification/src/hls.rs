//! A bounded, sequential HLS audio receiver (RFC 8216): playlist parsing and the
//! decisions of a media session.
use crate::num::NumError;
use crate::web::UrlError;
use vstd::prelude::*;

pub mod attrs;
pub mod playlist;
pub mod reader;
pub mod session;
pub mod ts;

verus! {

/// Why an HLS playlist or resource is refused.
#[derive(Debug, Clone, Copy, PartialEq, Eq)]
pub enum HlsError {
    /// Over 64 KiB, or not starting with `#EXTM3U`.
    InvalidPlaylist,
    AttrInvalid,
    AttrUnterminated,
    AttrDuplicate,
    AttrSeparator,
    IvNotHex,
    IvLength,
    IvNumber(NumError),
    /// A number that is no `u64`.
    Number(NumError),
    RangeLength,
    RangeImplicit,
    RangeOverflow,
    /// A URI that does not resolve against the playlist URL.
    UrlJoin,
    /// A URI that resolves to no HTTP(S) stream URL.
    Url(UrlError),
    TargetDuration,
    LateSequence,
    SegmentDuration,
    /// An `#EXTINF` without a duration.
    DurationEmpty,
    /// An `#EXTINF` duration that is no number.
    DurationInvalid,
    KeyMissingUri,
    UnsupportedKey,
    MapMissingUri,
    MapNeedsIv,
    LowLatency,
    MissingExtinf,
    SequenceOverflow,
    MissingBandwidth,
    Unfinished,
    Mixed,
    MissingTarget,
    /// A reload turned the media playlist into a master playlist.
    ChangedToMaster,
    /// The live playlist gained no segment for too long.
    Stalled,
    /// A resource larger than its limit.
    TooLarge,
    /// The server answered a byte-range request with something else.
    RangeIgnored,
    /// The body of a byte-range response is not the requested length.
    Truncated,
    /// The key resource is not 16 bytes.
    KeyLength,
    /// The decrypted segment's padding is malformed.
    Padding,
    /// A transport stream segment that is not whole sound packets.
    TsFraming,
    /// A transport stream segment with damaged or no supported audio.
    TsAudio,
}

/// The text of an HLS error.
pub open spec fn hls_error_text(e: HlsError) -> Seq<char> {
    match e {
        HlsError::InvalidPlaylist => "invalid HLS playlist"@,
        HlsError::AttrInvalid => "invalid HLS attribute"@,
        HlsError::AttrUnterminated => "unterminated HLS attribute"@,
        HlsError::AttrDuplicate => "duplicate HLS attribute"@,
        HlsError::AttrSeparator => "invalid HLS attribute separator"@,
        HlsError::IvNotHex => "HLS IV must be hexadecimal"@,
        HlsError::IvLength => "invalid HLS IV length"@,
        HlsError::IvNumber(n) => crate::num::num_error_text(n),
        HlsError::Number(n) => crate::num::num_error_text(n),
        HlsError::RangeLength => "invalid HLS byte range length"@,
        HlsError::RangeImplicit => "implicit HLS byte range needs a preceding range on the same URI"@,
        HlsError::RangeOverflow => "HLS byte range overflow"@,
        HlsError::UrlJoin => "relative URL cannot be resolved against the playlist URL"@,
        HlsError::Url(u) => crate::web::url_error_text(u),
        HlsError::TargetDuration => "invalid HLS target duration"@,
        HlsError::LateSequence => "late HLS media sequence"@,
        HlsError::SegmentDuration => "invalid HLS segment duration"@,
        HlsError::DurationEmpty => "cannot parse float from empty string"@,
        HlsError::DurationInvalid => "invalid float literal"@,
        HlsError::KeyMissingUri => "HLS key missing URI"@,
        HlsError::UnsupportedKey => "unsupported HLS encryption (only identity AES-128 is supported)"@,
        HlsError::MapMissingUri => "HLS map missing URI"@,
        HlsError::MapNeedsIv => "encrypted HLS map requires explicit IV"@,
        HlsError::LowLatency => "low-latency/delta or I-frame-only HLS is not supported"@,
        HlsError::MissingExtinf => "HLS segment missing EXTINF"@,
        HlsError::SequenceOverflow => "HLS sequence overflow"@,
        HlsError::MissingBandwidth => "HLS variant missing bandwidth"@,
        HlsError::Unfinished => "unfinished HLS segment/variant"@,
        HlsError::Mixed => "mixed HLS master and media playlist"@,
        HlsError::MissingTarget => "HLS media playlist missing target duration"@,
        HlsError::ChangedToMaster => "HLS media playlist changed into a master"@,
        HlsError::Stalled => "HLS playlist stopped advancing"@,
        HlsError::TooLarge => "HLS resource exceeds size limit"@,
        HlsError::RangeIgnored => "server did not honor HLS byte range"@,
        HlsError::Truncated => "truncated HLS byte range"@,
        HlsError::KeyLength => "HLS AES key must be 16 bytes"@,
        HlsError::Padding => "invalid AES-128 HLS segment padding"@,
        HlsError::TsFraming => "invalid, truncated, or scrambled MPEG-TS segment"@,
        HlsError::TsAudio => "MPEG-TS segment has damaged or unsupported audio"@,
    }
}

impl HlsError {
    /// The text shown to the user.
    pub fn message(&self) -> (r: &'static str)
        ensures
            r@ == hls_error_text(*self),
    {
        match self {
            HlsError::InvalidPlaylist => "invalid HLS playlist",
            HlsError::AttrInvalid => "invalid HLS attribute",
            HlsError::AttrUnterminated => "unterminated HLS attribute",
            HlsError::AttrDuplicate => "duplicate HLS attribute",
            HlsError::AttrSeparator => "invalid HLS attribute separator",
            HlsError::IvNotHex => "HLS IV must be hexadecimal",
            HlsError::IvLength => "invalid HLS IV length",
            HlsError::IvNumber(e) => e.message(),
            HlsError::Number(e) => e.message(),
            HlsError::RangeLength => "invalid HLS byte range length",
            HlsError::RangeImplicit => "implicit HLS byte range needs a preceding range on the same URI",
            HlsError::RangeOverflow => "HLS byte range overflow",
            HlsError::UrlJoin => "relative URL cannot be resolved against the playlist URL",
            HlsError::Url(e) => e.message(),
            HlsError::TargetDuration => "invalid HLS target duration",
            HlsError::LateSequence => "late HLS media sequence",
            HlsError::SegmentDuration => "invalid HLS segment duration",
            HlsError::DurationEmpty => "cannot parse float from empty string",
            HlsError::DurationInvalid => "invalid float literal",
            HlsError::KeyMissingUri => "HLS key missing URI",
            HlsError::UnsupportedKey => "unsupported HLS encryption (only identity AES-128 is supported)",
            HlsError::MapMissingUri => "HLS map missing URI",
            HlsError::MapNeedsIv => "encrypted HLS map requires explicit IV",
            HlsError::LowLatency => "low-latency/delta or I-frame-only HLS is not supported",
            HlsError::MissingExtinf => "HLS segment missing EXTINF",
            HlsError::SequenceOverflow => "HLS sequence overflow",
            HlsError::MissingBandwidth => "HLS variant missing bandwidth",
            HlsError::Unfinished => "unfinished HLS segment/variant",
            HlsError::Mixed => "mixed HLS master and media playlist",
            HlsError::MissingTarget => "HLS media playlist missing target duration",
            HlsError::ChangedToMaster => "HLS media playlist changed into a master",
            HlsError::Stalled => "HLS playlist stopped advancing",
            HlsError::TooLarge => "HLS resource exceeds size limit",
            HlsError::RangeIgnored => "server did not honor HLS byte range",
            HlsError::Truncated => "truncated HLS byte range",
            HlsError::KeyLength => "HLS AES key must be 16 bytes",
            HlsError::Padding => "invalid AES-128 HLS segment padding",
            HlsError::TsFraming => "invalid, truncated, or scrambled MPEG-TS segment",
            HlsError::TsAudio => "MPEG-TS segment has damaged or unsupported audio",
        }
    }
}

} // verus!
