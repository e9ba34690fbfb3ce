# rxer

A lean terminal internet-radio receiver. The library (`src/`) holds the logic, with
contracts proved by Verus; the program (`app/`) holds the I/O around it.

- `cli`: the command line.
- `config`: station configuration, overlay and checks.
- `web`: stream URLs (parsed and joined by the `url` crate).
- `radio`: PLS/M3U playlists, playlist resolution, ICY metadata, the legacy ICY status line.
- `hls`: HLS playlists, the media session, byte ranges, AES-128 segments, MPEG-TS framing.
- `audio`: the sample source, priming, retries with backoff, decoder spans.
- `output`: track titles and event rows.
- `builds`: the choice of a local `--dev` or `--release` build.
- `text`, `num`: character and digit-string helpers.

`app/` performs the requests, decoding, playback and terminal display, and hands the
library plain values.
