use rxer::radio::icy::{block_size, stream_title, IcyState};
use rxer::radio::pls::playlist;
use rxer::radio::RadioError;
use rxer::web::validate_url;
use std::io::Read;

/// Reads audio through the ICY state as the receiver does, collecting stream titles.
struct Icy<'a> {
    inner: &'a [u8],
    state: IcyState,
    title: String,
}

impl Read for Icy<'_> {
    fn read(&mut self, buf: &mut [u8]) -> std::io::Result<usize> {
        if buf.is_empty() {
            return Ok(0);
        }
        if self.state.needs_metadata() {
            let mut length = [0];
            self.inner.read_exact(&mut length)?;
            let mut block = vec![0; block_size(length[0])];
            self.inner.read_exact(&mut block)?;
            if let Some(title) = self.state.metadata(&block) {
                self.title = title;
            }
        }
        let limit = self.state.audio_limit(buf.len());
        let count = self.inner.read(&mut buf[..limit])?;
        self.state.consumed(count);
        Ok(count)
    }
}

#[test]
fn playlists_resolve_relative_entries() {
    let base = validate_url("https://example.org/radio/list.pls").unwrap();
    assert_eq!(
        playlist(
            "[playlist]\nFile2=https://example.org/two\nFile1=../one",
            true,
            &base
        )
        .unwrap()[0]
            .as_str(),
        "https://example.org/one"
    );
    assert_eq!(
        playlist("#EXTM3U\n#EXTINF:-1,Station\nstream", false, &base).unwrap()[0].as_str(),
        "https://example.org/radio/stream"
    );
    assert!(playlist("file:///tmp/audio", false, &base).is_err());
}

#[test]
fn icy_strips_blocks_with_short_reads_and_sanitizes_title() {
    let mut data = b"abc\x02".to_vec();
    let mut meta = b"StreamTitle='hi\x1b';StreamUrl='x';".to_vec();
    meta.resize(32, 0);
    data.extend(meta);
    data.extend(b"def\x00ghi");
    let mut reader = Icy {
        inner: &data[..],
        state: IcyState::new(Some(3)).unwrap(),
        title: String::new(),
    };
    let mut out = Vec::new();
    for _ in 0..9 {
        let mut b = [0];
        reader.read_exact(&mut b).unwrap();
        out.push(b[0]);
    }
    assert_eq!(out, b"abcdefghi");
    assert_eq!(reader.title, "hi");
    assert!(reader.read(&mut [0]).is_err()); // missing length byte
    assert!(matches!(IcyState::new(Some(0)), Err(RadioError::MetaintZero)));
}

#[test]
fn decodes_legacy_metadata_and_honors_explicit_encoding() {
    for (title, encoding, expected) in [
        (b"Caf\xe9".as_slice(), None, "Café"),
        ("音楽".as_bytes(), None, "音楽"),
        (
            b"\xcf\xf0\xe8\xe2\xe5\xf2".as_slice(),
            Some("windows-1251"),
            "Привет",
        ),
    ] {
        let mut metadata = b"StreamTitle='".to_vec();
        metadata.extend(title);
        metadata.extend(b"';");
        let blocks = metadata.len().div_ceil(16);
        metadata.resize(blocks * 16, 0);
        let mut data = vec![b'a', blocks as u8];
        data.extend(metadata);
        data.push(b'b');
        let state = IcyState::new(Some(1))
            .unwrap()
            .with_encoding(encoding.map(str::to_string))
            .unwrap();
        let mut reader = Icy {
            inner: &data[..],
            state,
            title: String::new(),
        };
        let mut audio = [0; 2];
        reader.read_exact(&mut audio).unwrap();
        assert_eq!(&audio, b"ab");
        assert_eq!(reader.title, expected);
    }
}

#[test]
fn unknown_metadata_encoding_is_refused() {
    let state = IcyState::new(None).unwrap();
    assert_eq!(
        state.with_encoding(Some("no-such".to_string())).err(),
        Some(RadioError::UnknownEncoding("no-such".to_string()))
    );
}

#[test]
fn stream_titles_are_cut_to_512_characters() {
    let long = "x".repeat(600);
    let text = format!("StreamTitle='{long}';");
    assert_eq!(stream_title(&text).unwrap().chars().count(), 512);
    assert_eq!(stream_title("StreamTitle='a\u{1}b';").unwrap(), "ab");
    assert_eq!(stream_title("StreamTitle='open"), None);
    assert_eq!(stream_title("nothing"), None);
    assert_eq!(block_size(255), 4080);
}

#[test]
fn pls_prefers_lowest_file_number_and_m3u_first_entry() {
    let base = validate_url("https://example.org/radio/list.pls").unwrap();
    let urls = playlist(
        "[playlist]\nFile3=https://example.org/three\nFile1=https://example.org/one\nFile2=ftp://x",
        true,
        &base,
    )
    .unwrap();
    let urls: Vec<&str> = urls.iter().map(|u| u.as_str()).collect();
    assert_eq!(urls, vec!["https://example.org/one", "https://example.org/three"]);
    assert_eq!(
        playlist("[playlist]\nNumberOfEntries=0", true, &base),
        Err(RadioError::NoEntries)
    );
}
