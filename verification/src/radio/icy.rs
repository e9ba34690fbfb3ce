//! ICY (SHOUTcast) metadata: the byte accounting that separates metadata blocks from
//! audio, and the stream title carried in a block.
use super::RadioError;
use crate::text::{
    chars_of, find, find_from, is_control, is_ctrl, lemma_find_from, matches_at, split_once,
    split_once_slice, string_of,
};
use vstd::prelude::*;

verus! {

/// What `encoding_rs::Encoding::for_label` finds for `label`: whether it names an encoding.
pub uninterp spec fn encoding_label_known(label: Seq<char>) -> bool;

/// What `encoding_rs::Encoding::decode` yields for `bytes` in the encoding that `label`
/// names (byte order marks honoured, malformed input replaced).
pub uninterp spec fn encoding_decode(label: Seq<char>, bytes: Seq<u8>) -> Seq<char>;

/// `encoding_rs::Encoding::for_label`: whether `label` names an encoding of the Encoding
/// Standard. The contract names the answer, and states what the crate documents of the
/// two labels the library falls back on: `utf-8` and `windows-1252` are known.
#[verifier::external_body]
pub(crate) fn encoding_known(label: &str) -> (r: bool)
    ensures
        r == encoding_label_known(label@),
        label@ == "utf-8"@ || label@ == "windows-1252"@ ==> r,
{
    encoding_rs::Encoding::for_label(label.as_bytes()).is_some()
}

/// `encoding_rs::Encoding::decode`, in the encoding that `label` names. The contract
/// names the result; the decoders themselves are not restated.
#[verifier::external_body]
fn decode_as(label: &str, bytes: &[u8]) -> (r: String)
    requires
        encoding_label_known(label@),
    ensures
        r@ == encoding_decode(label@, bytes@),
{
    match encoding_rs::Encoding::for_label(label.as_bytes()) {
        Some(e) => e.decode(bytes).0.into_owned(),
        None => String::new(),
    }
}

/// `std::str::from_utf8(..).is_ok()`: whether `bytes` are valid UTF-8, as vstd's
/// `valid_utf8` models it.
#[verifier::external_body]
fn is_utf8(bytes: &[u8]) -> (r: bool)
    ensures
        r == vstd::utf8::valid_utf8(bytes@),
{
    std::str::from_utf8(bytes).is_ok()
}

/// The longest title kept, in characters.
pub const MAX_TITLE: usize = 512;

/// The largest metadata block: one length byte in units of 16 bytes.
pub const MAX_BLOCK: usize = 4080;

/// `s` without its control characters.
pub open spec fn remove_ctrl(s: Seq<char>) -> Seq<char>
    decreases s.len(),
{
    if s.len() == 0 {
        seq![]
    } else {
        remove_ctrl(s.drop_last()) + if is_ctrl(s.last()) {
            seq![]
        } else {
            seq![s.last()]
        }
    }
}

/// The stream title in decoded metadata: the text between `StreamTitle='` and the next
/// `';`, without control characters, cut to 512 characters.
pub open spec fn title_spec(text: Seq<char>) -> Option<Seq<char>> {
    match split_once(text, "StreamTitle='"@) {
        None => None,
        Some((_, rest)) => match split_once(rest, "';"@) {
            None => None,
            Some((t, _)) => {
                let clean = remove_ctrl(t);
                Some(
                    if clean.len() > MAX_TITLE {
                        clean.take(MAX_TITLE as int)
                    } else {
                        clean
                    },
                )
            },
        },
    }
}

/// A text without control characters loses nothing to their removal.
proof fn lemma_remove_ctrl_clean(t: Seq<char>)
    requires
        forall|i: int| 0 <= i < t.len() ==> !is_ctrl(#[trigger] t[i]),
    ensures
        remove_ctrl(t) == t,
    decreases t.len(),
{
    if t.len() > 0 {
        lemma_remove_ctrl_clean(t.drop_last());
        assert(t.drop_last().push(t.last()) =~= t);
    }
}

/// A match with none before it is the first.
proof fn lemma_find_first(s: Seq<char>, p: Seq<char>, i: int, j: int)
    requires
        0 <= i <= j,
        matches_at(s, p, j),
        forall|k: int| i <= k < j ==> !matches_at(s, p, k),
    ensures
        find_from(s, p, i) == Some(j),
    decreases j - i,
{
    if i < j {
        lemma_find_first(s, p, i + 1, j);
    }
}

/// The title is everything between `StreamTitle='` and the first `';` after it: a title
/// without `';` and without control characters, of at most 512 characters, comes out
/// exactly as sent, apostrophes included, whatever follows it.
pub proof fn lemma_title_between_quotes(t: Seq<char>, rest: Seq<char>)
    requires
        find(t, "';"@) is None,
        forall|i: int| 0 <= i < t.len() ==> !is_ctrl(#[trigger] t[i]),
        t.len() <= MAX_TITLE,
    ensures
        title_spec("StreamTitle='"@ + t + "';"@ + rest) == Some(t),
{
    reveal_strlit("';");
    let open = "StreamTitle='"@;
    let close = "';"@;
    let text = open + t + close + rest;
    assert(text.subrange(0, open.len() as int) =~= open);
    assert(matches_at(text, open, 0));
    lemma_find_first(text, open, 0, 0);
    let after = text.skip(open.len() as int);
    assert(after =~= t + close + rest);
    assert(split_once(text, open) == Some((text.take(0), after)));
    lemma_find_from(t, close, 0);
    assert(after.subrange(t.len() as int, t.len() as int + 2) =~= close);
    assert forall|k: int| 0 <= k < t.len() implies !matches_at(after, close, k) by {
        if k + 2 <= t.len() {
            assert(after.subrange(k, k + 2) =~= t.subrange(k, k + 2));
            assert(!matches_at(t, close, k));
        } else {
            assert(after[k + 1] == '\'');
            assert(close[1] == ';');
            if matches_at(after, close, k) {
                assert(after.subrange(k, k + 2)[1] == close[1]);
            }
        }
    }
    lemma_find_first(after, close, 0, t.len() as int);
    assert(after.take(t.len() as int) =~= t);
    lemma_remove_ctrl_clean(t);
}

/// The text of a metadata block: in the configured encoding, else UTF-8 where the block
/// is valid UTF-8 and Windows-1252 otherwise.
pub open spec fn block_text(label: Option<Seq<char>>, bytes: Seq<u8>) -> Seq<char> {
    match label {
        Some(l) => encoding_decode(l, bytes),
        None => if vstd::utf8::valid_utf8(bytes) {
            encoding_decode("utf-8"@, bytes)
        } else {
            encoding_decode("windows-1252"@, bytes)
        },
    }
}

/// Extracts the stream title from decoded metadata text.
pub fn stream_title(text: &str) -> (r: Option<String>)
    ensures
        r matches Some(s) ==> title_spec(text@) == Some(s@),
        r is None ==> title_spec(text@) is None,
{
    let chars = chars_of(text);
    let open = chars_of("StreamTitle='");
    let close = chars_of("';");
    let rest = match split_once_slice(chars.as_slice(), open.as_slice()) {
        Some((_, rest)) => rest,
        None => return None,
    };
    let t = match split_once_slice(rest, close.as_slice()) {
        Some((t, _)) => t,
        None => return None,
    };
    let mut clean: Vec<char> = Vec::new();
    let mut i: usize = 0;
    while i < t.len()
        invariant
            i <= t@.len(),
            clean@ =~= remove_ctrl(t@.take(i as int)),
        decreases t@.len() - i,
    {
        assert(t@.take(i + 1).drop_last() =~= t@.take(i as int));
        if !is_control(t[i]) {
            clean.push(t[i]);
        }
        i = i + 1;
    }
    assert(t@.take(i as int) =~= t@);
    if clean.len() > MAX_TITLE {
        Some(string_of(&clean.as_slice()[0..MAX_TITLE]))
    } else {
        Some(string_of(clean.as_slice()))
    }
}

/// The ICY state as the library models it: the audio byte count between metadata blocks
/// (none without ICY), the audio bytes left before the next block, and the configured
/// encoding label.
pub struct IcyView {
    pub interval: Option<usize>,
    pub remaining: usize,
    pub encoding: Option<Seq<char>>,
    /// The audio bytes handed out so far.
    pub audio: nat,
    /// The metadata blocks taken so far.
    pub blocks: nat,
}

/// The count of a stream with ICY metadata: after `blocks` blocks, `blocks` whole
/// intervals of audio and the part of the current one already read were handed out.
pub open spec fn icy_counts(v: IcyView) -> bool {
    v.interval matches Some(n) ==> v.audio == v.blocks * n + (n - v.remaining)
}

/// Separates ICY metadata blocks from the audio of a stream.
pub struct IcyState {
    interval: Option<usize>,
    remaining: usize,
    encoding: Option<String>,
    audio: Ghost<nat>,
    blocks: Ghost<nat>,
}

impl View for IcyState {
    type V = IcyView;

    closed spec fn view(&self) -> IcyView {
        IcyView {
            interval: self.interval,
            remaining: self.remaining,
            encoding: match &self.encoding {
                Some(s) => Some(s@),
                None => None,
            },
            audio: self.audio@,
            blocks: self.blocks@,
        }
    }
}

impl IcyState {
    /// The invariant: the audio still due never exceeds the interval, and a configured
    /// encoding is known.
    pub closed spec fn wf(&self) -> bool {
        &&& (self.interval matches Some(n) ==> n > 0 && self.remaining <= n)
        &&& (self.interval is None ==> self.remaining == 0)
        &&& (self.encoding matches Some(l) ==> encoding_label_known(l@))
        &&& icy_counts(self@)
    }

    /// The state for a stream with `icy-metaint` `interval`; zero is refused.
    pub fn new(interval: Option<usize>) -> (r: Result<IcyState, RadioError>)
        ensures
            interval == Some(0usize) ==> r == Err::<IcyState, RadioError>(RadioError::MetaintZero),
            interval != Some(0usize) ==> (r matches Ok(s) && s.wf() && s@ == (IcyView {
                interval,
                remaining: match interval {
                    Some(n) => n,
                    None => 0,
                },
                encoding: None,
                audio: 0,
                blocks: 0,
            })),
    {
        match interval {
            Some(0) => Err(RadioError::MetaintZero),
            Some(n) => Ok(
                IcyState {
                    interval,
                    remaining: n,
                    encoding: None,
                    audio: Ghost(0),
                    blocks: Ghost(0),
                },
            ),
            None => Ok(
                IcyState {
                    interval: None,
                    remaining: 0,
                    encoding: None,
                    audio: Ghost(0),
                    blocks: Ghost(0),
                },
            ),
        }
    }

    /// Decodes metadata in the encoding labelled `label` rather than detecting it; an
    /// unknown label is refused.
    pub fn with_encoding(self, label: Option<String>) -> (r: Result<IcyState, RadioError>)
        requires
            self.wf(),
        ensures
            match label {
                None => r matches Ok(s) && s.wf() && s@ == (IcyView { encoding: None, ..self@ }),
                Some(l) => if encoding_label_known(l@) {
                    r matches Ok(s) && s.wf() && s@ == (IcyView { encoding: Some(l@), ..self@ })
                } else {
                    r == Err::<IcyState, RadioError>(RadioError::UnknownEncoding(l))
                },
            },
    {
        match label {
            None => Ok(IcyState { encoding: None, ..self }),
            Some(l) => if encoding_known(l.as_str()) {
                Ok(IcyState { encoding: Some(l), ..self })
            } else {
                Err(RadioError::UnknownEncoding(l))
            },
        }
    }

    /// Whether the stream carries ICY metadata blocks.
    pub fn has_interval(&self) -> (r: bool)
        ensures
            r == self@.interval is Some,
    {
        self.interval.is_some()
    }

    /// Whether a metadata block comes before any more audio.
    pub fn needs_metadata(&self) -> (r: bool)
        ensures
            r == (self@.interval is Some && self@.remaining == 0),
    {
        self.interval.is_some() && self.remaining == 0
    }

    /// How many audio bytes a read into a buffer of `len` bytes may take: all of them
    /// without ICY, else no more than are due before the next block.
    pub fn audio_limit(&self, len: usize) -> (r: usize)
        ensures
            r == match self@.interval {
                None => len,
                Some(_) => if len < self@.remaining {
                    len
                } else {
                    self@.remaining
                },
            },
    {
        match self.interval {
            None => len,
            Some(_) => if len < self.remaining {
                len
            } else {
                self.remaining
            },
        }
    }

    /// Records that `count` audio bytes were read.
    pub fn consumed(&mut self, count: usize)
        requires
            old(self).wf(),
            old(self)@.interval is Some ==> count <= old(self)@.remaining,
        ensures
            final(self).wf(),
            final(self)@ == (IcyView {
                remaining: match old(self)@.interval {
                    None => 0,
                    Some(_) => (old(self)@.remaining - count) as usize,
                },
                audio: old(self)@.audio + count as nat,
                ..old(self)@
            }),
    {
        if self.interval.is_some() {
            self.remaining = self.remaining - count;
        }
        self.audio = Ghost(self.audio@ + count as nat);
    }

    /// Takes a metadata block (whose length byte said `block.len() / 16` units): the audio
    /// count starts over, and the block's stream title, if any, is returned.
    pub fn metadata(&mut self, block: &[u8]) -> (r: Option<String>)
        requires
            old(self).wf(),
            old(self)@.interval is Some,
            old(self)@.remaining == 0,
        ensures
            final(self).wf(),
            final(self)@ == (IcyView {
                remaining: old(self)@.interval->0,
                blocks: old(self)@.blocks + 1,
                ..old(self)@
            }),
            block@.len() == 0 ==> r is None,
            block@.len() > 0 ==> match title_spec(block_text(old(self)@.encoding, block@)) {
                Some(t) => r matches Some(s) && s@ == t,
                None => r is None,
            },
    {
        self.remaining = match self.interval {
            Some(n) => n,
            None => 0,
        };
        proof {
            let n = self.interval->0 as nat;
            let b = self.blocks@;
            assert(b * n + n == (b + 1) * n) by (nonlinear_arith);
        }
        self.blocks = Ghost(self.blocks@ + 1);
        if block.len() == 0 {
            return None;
        }
        let text = match &self.encoding {
            Some(l) => decode_as(l.as_str(), block),
            // The lookups of the fallback labels establish that they name encodings.
            None => if is_utf8(block) {
                let _known = encoding_known("utf-8");
                decode_as("utf-8", block)
            } else {
                let _known = encoding_known("windows-1252");
                decode_as("windows-1252", block)
            },
        };
        stream_title(text.as_str())
    }
}

/// A stream with ICY metadata carries exactly one interval of audio before each block:
/// when a block is due, the audio handed out so far is one whole interval per block, the
/// due one included.
pub proof fn lemma_blocks_follow_whole_intervals(v: IcyView)
    requires
        icy_counts(v),
        v.interval matches Some(n) && v.remaining <= n,
    ensures
        v.remaining == 0 ==> v.audio == (v.blocks + 1) * v.interval->0,
{
    let n = v.interval->0 as nat;
    let b = v.blocks;
    assert(b * n + n == (b + 1) * n) by (nonlinear_arith);
}

/// The size of a metadata block whose length byte is `length`: 16 bytes per unit.
pub fn block_size(length: u8) -> (r: usize)
    ensures
        r == length * 16,
        r <= MAX_BLOCK,
{
    length as usize * 16
}

} // verus!
