use cbc::cipher::{block_padding::Pkcs7, BlockEncryptMut, KeyIvInit};
use rxer::hls::session::decrypt;
use rxer::hls::playlist::Duration;
use rxer::hls::reader::extinf_values;
use rxer::hls::HlsError;
use rxer::radio::resolver::{
    classify, is_hls, parse_metaint, Expansion, Kind, PlaylistReader, ResolveStep, Resolver,
};
use rxer::radio::transport::StatusLine;
use rxer::radio::RadioError;

/// Resolves `start` against a table of playlists, returning the direct URL reached and the
/// number of requests made.
fn resolve(start: &str, playlists: &dyn Fn(&str) -> Option<String>) -> (Result<String, RadioError>, usize) {
    let mut resolver = Resolver::new(start, 0).unwrap();
    let mut requests = 0;
    loop {
        match resolver.step() {
            ResolveStep::Fetch(url, depth) => {
                requests += 1;
                let (base, kind) = classify(&url, "").unwrap();
                match (kind, playlists(&url)) {
                    (Kind::Direct, _) => return (Ok(url), requests),
                    (Kind::Playlist(pls), Some(text)) => {
                        match resolver.expand(&text, pls, &base, &[], depth) {
                            Expansion::Queued | Expansion::Failed => {}
                            Expansion::Media(_) => return (Ok(url), requests),
                        }
                    }
                    (Kind::Playlist(_), None) => resolver.fail(RadioError::Transport("404".into())),
                }
            }
            ResolveStep::Skipped => {}
            ResolveStep::Exhausted(e) => {
                return (Err(e.unwrap_or(RadioError::Transport("none".into()))), requests)
            }
            ResolveStep::OverBudget => return (Err(RadioError::Budget), requests),
        }
    }
}

/// Reads each `#EXTINF` duration as the receiver does.
fn durations(text: &str) -> Vec<Duration> {
    extinf_values(text)
        .iter()
        .map(|v| match v.parse::<f64>() {
            Ok(n) if n.is_finite() && n > 0.0 && n <= 3600.0 => Duration::Valid,
            Ok(_) => Duration::OutOfRange,
            Err(_) if v.is_empty() => Duration::Empty,
            Err(_) => Duration::Invalid,
        })
        .collect()
}

/// A resource served to the resolver: a playlist of some type, an audio stream that
/// decodes or not, or a failed request.
enum Served {
    Playlist(&'static str, &'static str),
    Audio(bool),
    Missing,
}

/// Resolves `start`, failing over past requests that fail and streams that do not
/// decode; returns what was played and the paths requested.
fn play(start: &str, serve: &dyn Fn(&str) -> Served) -> (Option<String>, Vec<String>) {
    let mut resolver = Resolver::new(start, 0).unwrap();
    let mut requests = Vec::new();
    loop {
        match resolver.step() {
            ResolveStep::Fetch(url, depth) => {
                let path = url.trim_start_matches("http://h").to_string();
                requests.push(path.clone());
                match serve(&path) {
                    Served::Missing => resolver.fail(RadioError::Transport("404".into())),
                    Served::Audio(true) => return (Some(path), requests),
                    Served::Audio(false) => resolver.fail(RadioError::Transport("decoder".into())),
                    Served::Playlist(text, mime) => {
                        let (base, kind) = classify(&url, mime).unwrap();
                        let Kind::Playlist(pls) = kind else { panic!("{path}") };
                        match resolver.expand(text, pls, &base, &durations(text), depth) {
                            Expansion::Queued | Expansion::Failed => {}
                            Expansion::Media(_) => return (Some(path), requests),
                        }
                    }
                }
            }
            ResolveStep::Skipped => {}
            ResolveStep::Exhausted(_) | ResolveStep::OverBudget => return (None, requests),
        }
    }
}

#[test]
fn follows_audio_rendition_and_fails_over_http_and_decoder_errors() {
    let serve = |path: &str| match path {
        "/list.pls" => Served::Playlist(
            "[playlist]\nFile1=/missing\nFile2=/junk\nFile3=/master.m3u8",
            "audio/x-scpls",
        ),
        "/missing" => Served::Missing,
        "/junk" => Served::Audio(false),
        "/master.m3u8" => Served::Playlist(
            "#EXTM3U\n#EXT-X-MEDIA:TYPE=AUDIO,GROUP-ID=\"radio\",NAME=\"a,b\",DEFAULT=YES,URI=\"audio.m3u8\"\n#EXT-X-STREAM-INF:BANDWIDTH=100000,CODECS=\"avc1.42e01e,mp4a.40.2\",AUDIO=\"radio\"\nvideo.m3u8",
            "application/vnd.apple.mpegurl",
        ),
        "/audio.m3u8" => Served::Playlist(
            "#EXTM3U\n#EXT-X-TARGETDURATION:1\n#EXTINF:1,\ntone.aac\n#EXT-X-ENDLIST",
            "application/vnd.apple.mpegurl",
        ),
        _ => panic!("unexpected request {path}"),
    };
    let (played, requests) = play("http://h/list.pls", &serve);
    assert_eq!(played.as_deref(), Some("/audio.m3u8"));
    assert_eq!(
        requests,
        ["/list.pls", "/missing", "/junk", "/master.m3u8", "/audio.m3u8"]
    );
}

#[test]
fn exhausted_nested_branch_does_not_hide_a_working_alternative() {
    let playlists = |url: &str| -> Option<String> {
        let path = url.trim_start_matches("http://h");
        if path == "/root.m3u" {
            Some("/depth0.m3u\n/good.aac".into())
        } else {
            let n: usize = path
                .trim_start_matches("/depth")
                .trim_end_matches(".m3u")
                .parse()
                .ok()?;
            Some(format!("/depth{}.m3u", n + 1))
        }
    };
    let (reached, requests) = resolve("http://h/root.m3u", &playlists);
    assert_eq!(reached.unwrap(), "http://h/good.aac");
    assert!(requests <= 7);
}

#[test]
fn playlist_cycles_are_refused() {
    let playlists = |_: &str| -> Option<String> { Some("/list.m3u".into()) };
    let (reached, _) = resolve("http://h/list.m3u", &playlists);
    assert_eq!(reached, Err(RadioError::Cycle));
    assert_eq!(RadioError::Cycle.message(), "playlist cycle or repeated entry");
}

#[test]
fn responses_are_classified_by_type_or_extension() {
    let (_, kind) = classify("https://example.org/a", "audio/x-scpls; charset=utf-8").unwrap();
    assert_eq!(kind, Kind::Playlist(true));
    let (_, kind) = classify("https://example.org/LIST.M3U8", "").unwrap();
    assert_eq!(kind, Kind::Playlist(false));
    let (base, kind) = classify("https://example.org/stream", "audio/aac").unwrap();
    assert_eq!(kind, Kind::Direct);
    assert_eq!(base.as_str(), "https://example.org/stream");
    assert!(classify("file:///x", "").is_err());
    assert!(is_hls("#EXTM3U\n  #EXT-X-TARGETDURATION:1"));
    assert!(!is_hls("#EXTM3U\nstream"));
}

#[test]
fn metaint_headers_must_be_positive_numbers() {
    assert_eq!(parse_metaint(None), Ok(None));
    assert_eq!(parse_metaint(Some("16000")), Ok(Some(16000)));
    assert!(matches!(parse_metaint(Some("invalid")), Err(RadioError::Metaint(_))));
    assert!(matches!(parse_metaint(Some("")), Err(RadioError::Metaint(_))));
}

#[test]
fn playlist_bodies_are_bounded_and_utf8() {
    let mut r = PlaylistReader::new();
    assert_eq!(r.push(b"#EXTM3U\n"), Ok(()));
    assert_eq!(r.push(&vec![b'a'; 65536]), Err(RadioError::PlaylistTooLarge));
    assert_eq!(r.finish().unwrap(), "#EXTM3U\n");
    let mut bad = PlaylistReader::new();
    bad.push(&[0xff, 0xfe]).unwrap();
    assert_eq!(bad.finish(), Err(RadioError::NotUtf8));
}

#[test]
fn plays_fragmented_legacy_icy_status_line() {
    let mut line = StatusLine::new();
    assert_eq!(line.take(b"IC"), (2, None));
    assert_eq!(line.take(b"Y 200 OK"), (2, Some(b"HTTP/1.0 ".to_vec())));
    assert!(line.started());
    let mut http = StatusLine::new();
    assert_eq!(http.take(b"HTTP/1.1 200 OK"), (4, Some(b"HTTP".to_vec())));
}

#[test]
fn decrypts_aes128_with_sequence_iv() {
    let key = [7u8; 16];
    let iv = 7u128.to_be_bytes();
    let plain = b"audio payload of some length".to_vec();
    let mut data = plain.clone();
    data.resize(data.len() + 16, 0);
    let data = cbc::Encryptor::<aes::Aes128>::new(&key.into(), &iv.into())
        .encrypt_padded_mut::<Pkcs7>(&mut data, plain.len())
        .unwrap()
        .to_vec();
    assert_ne!(data, plain);
    assert_eq!(decrypt(&data, &key, None, 7).unwrap(), plain);
    assert_eq!(decrypt(&data, &key, Some(iv), 0).unwrap(), plain);
    assert_ne!(decrypt(&data, &key, None, 8).ok(), Some(plain.clone()));
    assert_eq!(decrypt(&data, &key[..15], None, 7), Err(HlsError::KeyLength));
    assert_eq!(decrypt(&data[..17], &key, None, 7), Err(HlsError::Padding));
}
