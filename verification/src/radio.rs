//! Internet-radio reception: PLS/M3U playlists, playlist resolution and ICY metadata.
use crate::hls::HlsError;
use crate::num::NumError;
use crate::web::UrlError;
use vstd::prelude::*;

pub mod icy;
pub mod pls;
pub mod resolver;
pub mod transport;

verus! {

/// What the receiver shows: a status message and the current track title.
#[derive(Debug, Default, PartialEq)]
pub struct Status {
    pub message: String,
    pub title: String,
}

/// Why reception failed.
#[derive(Debug, PartialEq, Eq)]
pub enum RadioError {
    /// An invalid stream or playlist URL.
    Url(UrlError),
    /// An HLS playlist was refused.
    Hls(HlsError),
    /// A PLS or M3U playlist names no usable HTTP(S) entry.
    NoEntries,
    /// A playlist names no, or more than 64, alternatives.
    Alternatives,
    /// A playlist is over 64 KiB.
    PlaylistTooLarge,
    /// A playlist is not UTF-8.
    NotUtf8,
    /// Playlist reception was cancelled.
    Cancelled,
    /// Playlist reception took over 30 seconds.
    TimedOut,
    /// Resolution went five playlists deep.
    TooDeep,
    /// Resolution would take more than 32 requests.
    Budget,
    /// A playlist entry was met before.
    Cycle,
    /// The `icy-metaint` header is no number.
    Metaint(NumError),
    /// The `icy-metaint` header is zero.
    MetaintZero,
    /// A metadata encoding label that names no encoding.
    UnknownEncoding(String),
    /// A request failed; the text says why.
    Transport(String),
}

/// The text of a reception error.
pub open spec fn radio_error_text(e: RadioError) -> Seq<char> {
    match e {
        RadioError::Url(u) => crate::web::url_error_text(u),
        RadioError::Hls(h) => crate::hls::hls_error_text(h),
        RadioError::NoEntries => "playlist contains no HTTP(S) stream entries"@,
        RadioError::Alternatives => "playlist must contain 1..64 stream alternatives"@,
        RadioError::PlaylistTooLarge => "playlist exceeds 64 KiB"@,
        RadioError::NotUtf8 => "playlist must be UTF-8"@,
        RadioError::Cancelled => "playlist reception cancelled"@,
        RadioError::TimedOut => "playlist reception timed out"@,
        RadioError::TooDeep => "playlist nesting depth exceeded"@,
        RadioError::Budget => "playlist resolution budget exceeded"@,
        RadioError::Cycle => "playlist cycle or repeated entry"@,
        RadioError::Metaint(n) => crate::num::num_error_text(n),
        RadioError::MetaintZero => "icy-metaint must be positive"@,
        RadioError::UnknownEncoding(l) => "unknown metadata encoding "@ + l@,
        RadioError::Transport(t) => t@,
    }
}

impl RadioError {
    /// The text shown to the user.
    pub fn message(&self) -> (r: String)
        ensures
            r@ == radio_error_text(*self),
    {
        match self {
            RadioError::Url(e) => String::from_str(e.message()),
            RadioError::Hls(e) => String::from_str(e.message()),
            RadioError::NoEntries => String::from_str("playlist contains no HTTP(S) stream entries"),
            RadioError::Alternatives => String::from_str(
                "playlist must contain 1..64 stream alternatives",
            ),
            RadioError::PlaylistTooLarge => String::from_str("playlist exceeds 64 KiB"),
            RadioError::NotUtf8 => String::from_str("playlist must be UTF-8"),
            RadioError::Cancelled => String::from_str("playlist reception cancelled"),
            RadioError::TimedOut => String::from_str("playlist reception timed out"),
            RadioError::TooDeep => String::from_str("playlist nesting depth exceeded"),
            RadioError::Budget => String::from_str("playlist resolution budget exceeded"),
            RadioError::Cycle => String::from_str("playlist cycle or repeated entry"),
            RadioError::Metaint(e) => String::from_str(e.message()),
            RadioError::MetaintZero => String::from_str("icy-metaint must be positive"),
            RadioError::UnknownEncoding(l) => String::from_str("unknown metadata encoding ").concat(
                l.as_str(),
            ),
            RadioError::Transport(s) => s.clone(),
        }
    }
}

} // verus!
