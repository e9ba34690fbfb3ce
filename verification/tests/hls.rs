use rxer::hls::attrs::{attr, attr_lookup, iv};
use rxer::hls::playlist::{Duration, Playlist};
use rxer::hls::reader::{extinf_values, parse};
use rxer::hls::session::{
    check_body, check_partial, check_request, range_header, reload_wait_ms, stalled, Session,
    SessionStep,
};
use rxer::hls::ts::{check_framing, Consumer, Extraction};
use rxer::hls::HlsError;
use rxer::web::{validate_url, WebUrl};

fn base() -> WebUrl {
    validate_url("https://example.org/radio/live.m3u8").unwrap()
}

/// Reads each `#EXTINF` duration as the receiver does: a finite number of seconds in
/// (0, 3600].
fn durations(text: &str) -> Vec<Duration> {
    extinf_values(text)
        .iter()
        .map(|v| match v.parse::<f64>() {
            Ok(n) if n.is_finite() && n > 0.0 && n <= 3600.0 => Duration::Valid,
            Ok(_) => Duration::OutOfRange,
            Err(_) if v.is_empty() => Duration::Empty,
            Err(_) => Duration::Invalid,
        })
        .collect()
}

fn parse_text(text: &str) -> Result<Playlist, HlsError> {
    parse(text, &base(), &durations(text))
}

/// Extraction of a segment whose packets carry no audio.
fn extract_without_audio(bytes: &[u8]) -> Result<Vec<u8>, HlsError> {
    if !check_framing(bytes) {
        return Err(HlsError::TsFraming);
    }
    Extraction::new().finish()
}

#[test]
fn parses_ranges_keys_maps_and_quoted_attributes() {
    let a = attr("CODECS=\"avc1,mp4a\",BANDWIDTH=42").unwrap();
    assert_eq!(attr_lookup(&a, "CODECS").unwrap(), "avc1,mp4a");
    let text = "#EXTM3U\n#EXT-X-TARGETDURATION:2\n#EXT-X-MEDIA-SEQUENCE:7\n#EXT-X-KEY:METHOD=AES-128,URI=\"key\",IV=0x02\n#EXT-X-MAP:URI=\"init\",BYTERANGE=\"100@0\"\n#EXT-X-BYTERANGE:32@0\n#EXTINF:1,\nall\n#EXT-X-KEY:METHOD=NONE\n#EXT-X-BYTERANGE:32\n#EXTINF:1,\nall\n#EXT-X-ENDLIST";
    let Playlist::Media(media) = parse_text(text).unwrap() else {
        panic!()
    };
    assert_eq!(media.segments[0].sequence, 7);
    assert_eq!(media.segments[1].resource.range, Some((32, 32)));
    assert!(media.segments[1].key.is_none());
    assert_eq!(
        media.segments[1]
            .init
            .as_ref()
            .unwrap()
            .key
            .as_ref()
            .unwrap()
            .iv
            .unwrap()[15],
        2
    );
}

#[test]
fn rejects_unsupported_or_malformed_hls() {
    for extra in [
        "#EXT-X-KEY:METHOD=SAMPLE-AES,URI=\"key\"",
        "#EXT-X-PART:DURATION=1,URI=\"part\"",
        "#EXT-X-KEY:METHOD=AES-128,URI=\"key\"\n#EXT-X-MAP:URI=\"init\"",
        "#EXT-X-BYTERANGE:16",
        "#EXT-X-BYTERANGE:16@18446744073709551615",
    ] {
        assert!(
            parse_text(&format!(
                "#EXTM3U\n#EXT-X-TARGETDURATION:1\n{extra}\n#EXTINF:1,\nsegment"
            ))
            .is_err(),
            "{extra}"
        );
    }
    assert!(attr("URI=\"unfinished").is_err());
    assert!(attr("URI=a,URI=b").is_err());
    assert!(iv("0xnothex").is_err());
    assert!(parse_text("#EXTM3U\n#EXT-X-TARGETDURATION:0").is_err());
}

#[test]
fn rejects_bad_transport_stream_framing() {
    assert!(extract_without_audio(&[]).is_err());
    assert!(extract_without_audio(&[0x47; 187]).is_err());
    assert!(extract_without_audio(&[0; 188]).is_err());
}

#[test]
fn framing_accepts_whole_clean_packets_only() {
    let mut packet = vec![0u8; 188];
    packet[0] = 0x47;
    assert!(check_framing(&packet));
    let mut two = packet.clone();
    two.extend(&packet);
    assert!(check_framing(&two));
    two[188 + 1] = 0x80; // transport error indicator
    assert!(!check_framing(&two));
    let mut scrambled = packet.clone();
    scrambled[3] = 0x40;
    assert!(!check_framing(&scrambled));
    assert_eq!(extract_without_audio(&[0; 188]), Err(HlsError::TsFraming));
    assert_eq!(extract_without_audio(&packet), Err(HlsError::TsAudio));
}

#[test]
fn the_first_audio_stream_is_extracted() {
    let mut x = Extraction::new();
    assert!(!x.select(0x1b, 256)); // video
    assert!(x.select(0x0f, 257)); // ADTS
    assert!(x.select(0x0f, 257));
    assert!(!x.select(0x03, 258)); // a second audio stream
    let mut c = Consumer;
    c.begin_packet(&mut x, Some(&[1, 2]));
    c.continue_packet(&mut x, &[3]);
    assert_eq!(x.finish(), Ok(vec![1, 2, 3]));
    let mut broken = Extraction::new();
    c.begin_packet(&mut broken, Some(&[1]));
    c.continuity_error(&mut broken);
    assert_eq!(broken.finish(), Err(HlsError::TsAudio));
    let mut unparsed = Extraction::new();
    c.begin_packet(&mut unparsed, None);
    assert_eq!(unparsed.finish(), Err(HlsError::TsAudio));
}

#[test]
fn live_sessions_start_near_the_end_and_resume_at_a_checkpoint() {
    let text = "#EXTM3U\n#EXT-X-TARGETDURATION:4\n#EXT-X-MEDIA-SEQUENCE:10\n#EXTINF:4,\na\n#EXTINF:4,\nb\n#EXTINF:4,\nc\n#EXTINF:4,\nd";
    let Playlist::Media(media) = parse_text(text).unwrap() else {
        panic!()
    };
    let mut session = Session::new("https://example.org/radio/live.m3u8".into(), media);
    assert_eq!(session.checkpoint().1, 11);
    let SessionStep::Fetch(s) = session.poll() else {
        panic!()
    };
    assert_eq!(s.sequence, 11);
    assert!(s.resource.url.ends_with("/radio/b"));
    session.complete(11);
    assert_eq!(session.checkpoint().1, 12);
    session.resume("https://example.org/radio/live.m3u8", 13);
    assert_eq!(session.checkpoint().1, 13);
    session.resume("https://example.org/other.m3u8", 10);
    assert_eq!(session.checkpoint().1, 13);
    session.complete(13);
    assert!(matches!(session.poll(), SessionStep::Reload));
}

#[test]
fn requests_and_verifies_byte_ranges() {
    assert_eq!(range_header(8, 16), "bytes=8-23");
    assert_eq!(check_request(Some((0, 100)), 50), Err(HlsError::TooLarge));
    assert_eq!(check_request(None, 50), Ok(()));
    assert_eq!(check_partial(8, 16, 206, Some("bytes 8-23/100")), Ok(()));
    assert_eq!(
        check_partial(8, 16, 200, Some("bytes 8-23/100")),
        Err(HlsError::RangeIgnored)
    );
    assert_eq!(check_partial(8, 16, 206, None), Err(HlsError::RangeIgnored));
    assert_eq!(check_body(60, 50, None), Err(HlsError::TooLarge));
    assert_eq!(check_body(15, 50, Some((8, 16))), Err(HlsError::Truncated));
    assert_eq!(check_body(16, 50, Some((8, 16))), Ok(()));
    assert_eq!(reload_wait_ms(4), 2000);
    assert!(!stalled(4, 30_000));
    assert!(stalled(4, 30_001));
    assert!(stalled(20, 60_001));
    assert!(!stalled(20, 60_000));
}

#[test]
fn segment_durations_are_checked() {
    for (duration, error) in [
        ("0", HlsError::SegmentDuration),
        ("3601", HlsError::SegmentDuration),
        ("inf", HlsError::SegmentDuration),
        ("", HlsError::DurationEmpty),
        ("abc", HlsError::DurationInvalid),
    ] {
        let text = format!("#EXTM3U\n#EXT-X-TARGETDURATION:1\n#EXTINF:{duration},\nsegment");
        assert_eq!(parse_text(&text).unwrap_err(), error, "{duration}");
    }
    assert_eq!(HlsError::DurationInvalid.message(), "invalid float literal");
    let text = "#EXTM3U\n#EXT-X-TARGETDURATION:1\n#EXTINF:3600,\nsegment";
    assert!(parse_text(text).is_ok());
}

#[test]
fn master_playlists_list_variants_by_bandwidth() {
    let text = "#EXTM3U\n#EXT-X-STREAM-INF:BANDWIDTH=200\nhigh.m3u8\n#EXT-X-STREAM-INF:BANDWIDTH=100\nlow.m3u8";
    let Playlist::Master(urls) = parse_text(text).unwrap() else {
        panic!()
    };
    assert_eq!(
        urls,
        vec![
            "https://example.org/radio/low.m3u8".to_string(),
            "https://example.org/radio/high.m3u8".to_string()
        ]
    );
    assert_eq!(parse_text("not a playlist").unwrap_err(), HlsError::InvalidPlaylist);
}
