//! MPEG transport stream segments: the framing check made before demultiplexing, the
//! choice of the one audio elementary stream to extract, and the collection of its
//! payload.
use super::HlsError;
use vstd::prelude::*;

verus! {

/// The length of a transport stream packet.
pub const PACKET_LEN: usize = 188;

/// Stream type of MPEG-2 AAC audio with ADTS framing (ISO/IEC 13818-7).
pub const STREAM_ADTS: u8 = 0x0f;

/// Stream type of MPEG-1 audio (ISO/IEC 11172-3).
pub const STREAM_MPEG1_AUDIO: u8 = 0x03;

/// Stream type of MPEG-2 audio (ISO/IEC 13818-3).
pub const STREAM_MPEG2_AUDIO: u8 = 0x04;

/// A packet that starts with the sync byte, has no transport error and is not scrambled.
pub open spec fn packet_ok(p: Seq<u8>) -> bool {
    &&& p[0] == 0x47u8
    &&& p[1] & 0x80u8 == 0u8
    &&& p[3] & 0xc0u8 == 0u8
}

/// Whether `b` is a whole number of packets, each of them sound.
pub open spec fn framing_ok(b: Seq<u8>) -> bool {
    &&& b.len() % 188 == 0
    &&& forall|k: int|
        0 <= k < b.len() / 188 ==> packet_ok(#[trigger] b.subrange(188 * k, 188 * k + 188))
}

/// Checks the framing of a segment before it is demultiplexed.
pub fn check_framing(bytes: &[u8]) -> (r: bool)
    ensures
        r == framing_ok(bytes@),
{
    let n = bytes.len();
    if n % PACKET_LEN != 0 {
        return false;
    }
    let count = n / PACKET_LEN;
    let mut k: usize = 0;
    while k < count
        invariant
            n == bytes@.len(),
            n % 188 == 0,
            count == n / 188,
            k <= count,
            forall|j: int|
                0 <= j < k ==> packet_ok(#[trigger] bytes@.subrange(188 * j, 188 * j + 188)),
        decreases count - k,
    {
        assert(188 * k + 188 <= n) by (nonlinear_arith)
            requires
                k < count,
                count == n / 188,
                n % 188 == 0,
        ;
        let at = PACKET_LEN * k;
        let ghost p = bytes@.subrange(188 * k, 188 * k + 188);
        assert(p[0] == bytes@[at as int] && p[1] == bytes@[at + 1] && p[3] == bytes@[at + 3]);
        if bytes[at] != 0x47 || bytes[at + 1] & 0x80 != 0 || bytes[at + 3] & 0xc0 != 0 {
            assert(!packet_ok(p));
            return false;
        }
        k = k + 1;
    }
    true
}

/// Whether a stream type is one of the supported audio stream types.
pub open spec fn is_audio_stream(stream_type: u8) -> bool {
    stream_type == STREAM_ADTS || stream_type == STREAM_MPEG1_AUDIO || stream_type
        == STREAM_MPEG2_AUDIO
}

/// What the demultiplexer collects from one segment.
pub struct Extraction {
    selected: Option<u16>,
    output: Vec<u8>,
    broken: bool,
}

/// The extraction as the library models it.
pub struct ExtractionView {
    /// The PID of the audio stream chosen, once one was announced.
    pub selected: Option<u16>,
    /// The payload collected.
    pub output: Seq<u8>,
    /// Whether a packet header was unusable or a continuity error occurred.
    pub broken: bool,
}

impl View for Extraction {
    type V = ExtractionView;

    closed spec fn view(&self) -> ExtractionView {
        ExtractionView { selected: self.selected, output: self.output@, broken: self.broken }
    }
}

impl Extraction {
    /// An extraction that has seen nothing.
    pub fn new() -> (r: Extraction)
        ensures
            r@.selected is None,
            r@.output.len() == 0,
            !r@.broken,
    {
        Extraction { selected: None, output: Vec::new(), broken: false }
    }

    /// Decides whether the elementary stream `pid` announced with `stream_type` is the
    /// one to extract: a supported audio stream, and the first such (or the same again).
    pub fn select(&mut self, stream_type: u8, pid: u16) -> (r: bool)
        ensures
            r == (is_audio_stream(stream_type) && (old(self)@.selected is None || old(
                self,
            )@.selected == Some(pid))),
            r ==> final(self)@ == (ExtractionView { selected: Some(pid), ..old(self)@ }),
            !r ==> final(self)@ == old(self)@,
    {
        let audio = stream_type == STREAM_ADTS || stream_type == STREAM_MPEG1_AUDIO || stream_type
            == STREAM_MPEG2_AUDIO;
        let free = match self.selected {
            None => true,
            Some(p) => p == pid,
        };
        if audio && free {
            self.selected = Some(pid);
            true
        } else {
            false
        }
    }

    /// The payload of a segment, refused when a packet was damaged or no audio was found.
    pub fn finish(self) -> (r: Result<Vec<u8>, HlsError>)
        ensures
            self@.broken || self@.output.len() == 0 ==> r == Err::<Vec<u8>, HlsError>(
                HlsError::TsAudio,
            ),
            !(self@.broken || self@.output.len() == 0) ==> (r matches Ok(v) && v@ == self@.output),
    {
        if self.broken || self.output.len() == 0 {
            Err(HlsError::TsAudio)
        } else {
            Ok(self.output)
        }
    }
}

/// The consumer of the selected elementary stream: appends each PES payload to the
/// extraction.
pub struct Consumer;

impl Consumer {
    /// A PES packet begins; `payload` is its payload, or `None` when its header could not
    /// be parsed, which breaks the extraction.
    pub fn begin_packet(&mut self, context: &mut Extraction, payload: Option<&[u8]>)
        ensures
            payload matches Some(p) ==> final(context)@ == (ExtractionView {
                output: old(context)@.output + p@,
                ..old(context)@
            }),
            payload is None ==> final(context)@ == (ExtractionView {
                broken: true,
                ..old(context)@
            }),
    {
        match payload {
            Some(p) => {
                let ghost before = context.output@;
                context.output.extend_from_slice(p);
                assert(context.output@ =~= before + p@);
            },
            None => context.broken = true,
        }
    }

    /// More bytes of the current PES packet.
    pub fn continue_packet(&mut self, context: &mut Extraction, bytes: &[u8])
        ensures
            final(context)@ == (ExtractionView {
                output: old(context)@.output + bytes@,
                ..old(context)@
            }),
    {
        let ghost before = context.output@;
        context.output.extend_from_slice(bytes);
        assert(context.output@ =~= before + bytes@);
    }

    /// A continuity counter skipped: the extraction is broken.
    pub fn continuity_error(&mut self, context: &mut Extraction)
        ensures
            final(context)@ == (ExtractionView { broken: true, ..old(context)@ }),
    {
        context.broken = true;
    }
}

} // verus!
