//! The decisions of playback and of the reception worker: the nonblocking sample source
//! that bridges starvation with frame-aligned silence, priming, retries with backoff, and
//! decoder span accounting.
use crate::num::{decimal, push_decimal};
use crate::text::{chars_of, string_of};
use vstd::prelude::*;

verus! {

/// What the sample source emits.
#[derive(Debug, PartialEq, Eq)]
pub enum Emit<T> {
    /// A decoded sample.
    Sample(T),
    /// A silent sample, while the queue is starved.
    Silence,
    /// The stream ended.
    End,
}

/// The result of a nonblocking read of the sample queue.
#[derive(Debug)]
pub enum Poll<T> {
    /// A block of samples.
    Chunk(Vec<T>),
    /// Nothing queued yet.
    Empty,
    /// The worker is gone.
    Disconnected,
}

/// The sample source as the library models it.
pub struct PlaybackView<T> {
    /// The samples of the current block not yet emitted.
    pub pending: Seq<T>,
    /// Silent samples still owed to finish the current frame.
    pub silence_left: usize,
    /// A block held back until playback resumes.
    pub refill: Option<Seq<T>>,
    /// Whether playback waits for a second block after starvation.
    pub buffering: bool,
    pub channels: u16,
    /// How many samples were emitted.
    pub emitted: nat,
    /// The real samples emitted, in order (silence left out).
    pub played: Seq<T>,
    /// The samples of every block received, in order.
    pub received: Seq<T>,
}

/// The fields of a sample source.
struct PlaybackState<T> {
    pending: Vec<T>,
    pos: usize,
    silence_left: usize,
    refill: Option<Vec<T>>,
    buffering: bool,
    channels: u16,
    emitted: Ghost<nat>,
    played: Ghost<Seq<T>>,
    received: Ghost<Seq<T>>,
}

impl<T: Copy> View for PlaybackState<T> {
    type V = PlaybackView<T>;

    closed spec fn view(&self) -> PlaybackView<T> {
        PlaybackView {
            pending: self.pending@.skip(self.pos as int),
            silence_left: self.silence_left,
            refill: match &self.refill {
                Some(v) => Some(v@),
                None => None,
            },
            buffering: self.buffering,
            channels: self.channels,
            emitted: self.emitted@,
            played: self.played@,
            received: self.received@,
        }
    }
}

/// The samples of an optional block.
pub open spec fn block_or_empty<T>(b: Option<Seq<T>>) -> Seq<T> {
    match b {
        Some(s) => s,
        None => Seq::empty(),
    }
}

/// Order: the samples played, then those of the current block still pending, then those
/// of a held-back block, are exactly the samples received, in order; none is dropped,
/// repeated or reordered.
pub open spec fn in_order<T>(p: PlaybackView<T>) -> bool {
    p.played + p.pending + block_or_empty(p.refill) == p.received
}

/// Whether a block holds whole frames.
pub open spec fn whole_frames<T>(s: Seq<T>, channels: u16) -> bool {
    channels > 0 && (s.len() as int) % (channels as int) == 0
}

/// Frame alignment: what was emitted, with what the current block and the current silent
/// frame still owe, is a whole number of frames, and a held-back block holds whole frames.
pub open spec fn aligned<T>(p: PlaybackView<T>) -> bool {
    &&& p.channels > 0
    &&& ((p.emitted + p.pending.len() + p.silence_left) as int) % (p.channels as int) == 0
    &&& (p.refill matches Some(r) ==> whole_frames(r, p.channels))
}

/// Whether the source can emit without reading the queue.
pub open spec fn has_local<T>(p: PlaybackView<T>) -> bool {
    p.pending.len() > 0 || p.silence_left > 0 || (!p.buffering && p.refill is Some)
}

impl<T: Copy> PlaybackState<T> {
    spec fn wf(&self) -> bool {
        &&& self.pos <= self.pending@.len()
        &&& self.channels > 0
    }

    /// A source for `channels`-channel audio that first plays `pending`.
    fn new(channels: u16, pending: Vec<T>) -> (r: PlaybackState<T>)
        requires
            channels > 0,
        ensures
            r.wf(),
            r@ == (PlaybackView {
                pending: pending@,
                silence_left: 0,
                refill: None::<Seq<T>>,
                buffering: false,
                channels,
                emitted: 0,
                played: Seq::<T>::empty(),
                received: pending@,
            }),
            in_order(r@),
    {
        let ghost pv = pending@;
        let r = PlaybackState {
            pending,
            pos: 0,
            silence_left: 0,
            refill: None,
            buffering: false,
            channels,
            emitted: Ghost(0),
            played: Ghost(Seq::empty()),
            received: Ghost(pv),
        };
        assert(r.pending@.skip(0) =~= r.pending@);
        assert(Seq::<T>::empty() + pv + Seq::<T>::empty() =~= pv);
        r
    }

    fn start_block(&mut self, block: Vec<T>) -> (r: Emit<T>)
        requires
            old(self).wf(),
        ensures
            final(self).wf(),
            final(self).channels == old(self).channels,
            final(self).silence_left == old(self).silence_left,
            final(self).refill == old(self).refill,
            final(self).buffering == old(self).buffering,
            final(self)@.received == old(self)@.received,
            block@.len() > 0 ==> r == Emit::Sample(block@[0]) && final(self)@.pending
                == block@.drop_first() && final(self)@.emitted == old(self)@.emitted + 1
                && final(self)@.played == old(self)@.played.push(block@[0]),
            block@.len() == 0 ==> r == Emit::<T>::End && final(self)@.pending == block@
                && final(self)@.emitted == old(self)@.emitted && final(self)@.played == old(
                self,
            )@.played,
    {
        let ghost b = block@;
        self.pending = block;
        self.pos = 0;
        if self.pending.len() > 0 {
            let s = self.pending[0];
            self.pos = 1;
            self.emitted = Ghost(self.emitted@ + 1);
            self.played = Ghost(self.played@.push(s));
            assert(self.pending@.skip(1) =~= b.drop_first());
            Emit::Sample(s)
        } else {
            assert(self.pending@.skip(0) =~= b);
            Emit::End
        }
    }

    /// Emits without reading the queue, when it can: the next pending sample, the next
    /// silent sample of the current frame, or the first sample of a held-back block once
    /// playback resumed. `None` when the queue must be read.
    fn local(&mut self) -> (r: Option<Emit<T>>)
        requires
            old(self).wf(),
        ensures
            final(self).wf(),
            final(self)@.channels == old(self)@.channels,
            r is None <==> !has_local(old(self)@),
            r is None ==> final(self)@ == old(self)@,
            old(self)@.pending.len() > 0 ==> r == Some(Emit::Sample(old(self)@.pending[0]))
                && final(self)@ == (PlaybackView {
                pending: old(self)@.pending.drop_first(),
                emitted: old(self)@.emitted + 1,
                played: old(self)@.played.push(old(self)@.pending[0]),
                ..old(self)@
            }),
            old(self)@.pending.len() == 0 && old(self)@.silence_left > 0 ==> r == Some(
                Emit::<T>::Silence,
            ) && final(self)@ == (PlaybackView {
                silence_left: (old(self)@.silence_left - 1) as usize,
                emitted: old(self)@.emitted + 1,
                ..old(self)@
            }),
            old(self)@.pending.len() == 0 && old(self)@.silence_left == 0 && !old(self)@.buffering
                && old(self)@.refill is Some ==> {
                let b = old(self)@.refill->0;
                &&& final(self)@.refill is None
                &&& final(self)@.buffering == old(self)@.buffering
                &&& final(self)@.silence_left == 0
                &&& b.len() > 0 ==> r == Some(Emit::Sample(b[0])) && final(self)@.pending
                    == b.drop_first() && final(self)@.emitted == old(self)@.emitted + 1
                &&& b.len() == 0 ==> r == Some(Emit::<T>::End) && final(self)@.pending == b
                    && final(self)@.emitted == old(self)@.emitted
            },
            final(self)@.received == old(self)@.received,
            final(self)@.played == match r {
                Some(Emit::Sample(x)) => old(self)@.played.push(x),
                _ => old(self)@.played,
            },
            aligned(old(self)@) ==> aligned(final(self)@),
            in_order(old(self)@) ==> in_order(final(self)@),
    {
        if self.pos < self.pending.len() {
            let s = self.pending[self.pos];
            let ghost before = self@;
            assert(self.pending@.skip(self.pos as int).drop_first() =~= self.pending@.skip(
                self.pos + 1,
            ));
            self.pos = self.pos + 1;
            self.emitted = Ghost(self.emitted@ + 1);
            self.played = Ghost(self.played@.push(s));
            proof {
                lemma_order_step(before.played, before.pending, block_or_empty(before.refill));
            }
            return Some(Emit::Sample(s));
        }
        if self.silence_left > 0 {
            self.silence_left = self.silence_left - 1;
            self.emitted = Ghost(self.emitted@ + 1);
            return Some(Emit::Silence);
        }
        if !self.buffering && self.refill.is_some() {
            let ghost before = self@;
            let block = match self.refill.take() {
                Some(b) => b,
                None => Vec::new(),
            };
            let r = self.start_block(block);
            proof {
                lemma_block_aligned(
                    before.emitted as int,
                    before.refill->0.len() as int,
                    before.channels as int,
                );
                let b = before.refill->0;
                assert(before.pending =~= Seq::<T>::empty());
                if b.len() > 0 {
                    lemma_order_step(before.played, b, Seq::empty());
                }
                assert(before.played + b + Seq::<T>::empty() =~= before.played + Seq::<T>::empty() + b);
            }
            return Some(r);
        }
        None
    }

    /// Emits after a nonblocking read of the queue, when `local` could not: a block starts
    /// playing (after starvation, only once a second block arrived, the first playing
    /// while the second is held back), starvation starts a silent frame, and a gone worker
    /// releases the held-back block or ends the stream.
    fn polled(&mut self, p: Poll<T>) -> (r: Emit<T>)
        requires
            old(self).wf(),
            !has_local(old(self)@),
        ensures
            final(self).wf(),
            final(self)@.channels == old(self)@.channels,
            match p {
                Poll::Chunk(c) => if old(self)@.buffering {
                    match old(self)@.refill {
                        Some(first) => final(self)@.refill == Some(c@) && !final(self)@.buffering
                            && (first.len() > 0 ==> r == Emit::Sample(first[0])
                            && final(self)@.pending == first.drop_first()) && (first.len() == 0
                            ==> r == Emit::<T>::End && final(self)@.pending == first),
                        None => r == Emit::<T>::Silence && final(self)@ == (PlaybackView {
                            refill: Some(c@),
                            silence_left: (old(self)@.channels - 1) as usize,
                            emitted: old(self)@.emitted + 1,
                            received: old(self)@.received + c@,
                            ..old(self)@
                        }),
                    }
                } else {
                    final(self)@.refill == old(self)@.refill && !final(self)@.buffering && (c@.len()
                        > 0 ==> r == Emit::Sample(c@[0]) && final(self)@.pending == c@.drop_first())
                        && (c@.len() == 0 ==> r == Emit::<T>::End && final(self)@.pending == c@)
                },
                Poll::Empty => r == Emit::<T>::Silence && final(self)@ == (PlaybackView {
                    buffering: true,
                    silence_left: (old(self)@.channels - 1) as usize,
                    emitted: old(self)@.emitted + 1,
                    ..old(self)@
                }),
                Poll::Disconnected => match old(self)@.refill {
                    None => r == Emit::<T>::End && final(self)@ == old(self)@,
                    Some(b) => final(self)@.refill is None && !final(self)@.buffering && (b.len()
                        > 0 ==> r == Emit::Sample(b[0]) && final(self)@.pending == b.drop_first())
                        && (b.len() == 0 ==> r == Emit::<T>::End && final(self)@.pending == b),
                },
            },
            final(self)@.silence_left > 0 ==> r == Emit::<T>::Silence,
            aligned(old(self)@) && (p matches Poll::Chunk(c) ==> whole_frames(c@, old(self)@.channels))
                ==> aligned(final(self)@),
            aligned(old(self)@) ==> (old(self)@.emitted as int) % (old(self)@.channels as int) == 0,
            final(self)@.received == match p {
                Poll::Chunk(c) => old(self)@.received + c@,
                _ => old(self)@.received,
            },
            final(self)@.played == match r {
                Emit::Sample(x) => old(self)@.played.push(x),
                _ => old(self)@.played,
            },
            in_order(old(self)@) ==> in_order(final(self)@),
    {
        let ghost before = self@;
        let c = self.channels as usize;
        proof {
            if aligned(before) {
                assert(before.pending.len() == 0 && before.silence_left == 0);
            }
        }
        match p {
            Poll::Chunk(chunk) => {
                let ghost cv = chunk@;
                if self.buffering {
                    let held = self.refill.take();
                    match held {
                        Some(first) => {
                            let ghost fv = first@;
                            self.refill = Some(chunk);
                            self.received = Ghost(self.received@ + cv);
                            self.buffering = false;
                            let r = self.start_block(first);
                            proof {
                                lemma_block_aligned(before.emitted as int, fv.len() as int, c as int);
                                assert(before.pending =~= Seq::<T>::empty());
                                if fv.len() > 0 {
                                    lemma_order_step(before.played, fv, cv);
                                }
                                assert(before.played + fv + cv =~= before.played + Seq::<T>::empty() + fv + cv);
                            }
                            r
                        },
                        None => {
                            self.refill = Some(chunk);
                            self.received = Ghost(self.received@ + cv);
                            self.silence_left = c - 1;
                            self.emitted = Ghost(self.emitted@ + 1);
                            proof {
                                assert(before.pending =~= Seq::<T>::empty());
                                assert(before.played + Seq::<T>::empty() + cv =~= before.played
                                    + Seq::<T>::empty() + Seq::<T>::empty() + cv);
                            }
                            proof {
                                lemma_block_aligned(before.emitted as int, c as int, c as int);
                            }
                            Emit::Silence
                        },
                    }
                } else {
                    self.received = Ghost(self.received@ + cv);
                    let r = self.start_block(chunk);
                    proof {
                        lemma_block_aligned(before.emitted as int, cv.len() as int, c as int);
                        assert(before.pending =~= Seq::<T>::empty());
                        assert(before.refill is None);
                        if cv.len() > 0 {
                            lemma_order_step(before.played, cv, Seq::empty());
                        }
                        assert(before.played + cv + Seq::<T>::empty() =~= before.played
                            + Seq::<T>::empty() + Seq::<T>::empty() + cv);
                    }
                    r
                }
            },
            Poll::Empty => {
                self.buffering = true;
                self.silence_left = c - 1;
                self.emitted = Ghost(self.emitted@ + 1);
                proof {
                    lemma_block_aligned(before.emitted as int, c as int, c as int);
                }
                Emit::Silence
            },
            Poll::Disconnected => {
                match self.refill.take() {
                    None => Emit::End,
                    Some(b) => {
                        let ghost bv = b@;
                        self.buffering = false;
                        let r = self.start_block(b);
                        proof {
                            lemma_block_aligned(before.emitted as int, bv.len() as int, c as int);
                            assert(before.pending =~= Seq::<T>::empty());
                            if bv.len() > 0 {
                                lemma_order_step(before.played, bv, Seq::empty());
                            }
                            assert(before.played + bv + Seq::<T>::empty() =~= before.played
                                + Seq::<T>::empty() + bv);
                        }
                        r
                    },
                }
            },
        }
    }
}

/// The sample source: emits queued samples, and silence in whole frames while starved.
pub struct Playback<T: Copy> {
    st: PlaybackState<T>,
}

impl<T: Copy> View for Playback<T> {
    type V = PlaybackView<T>;

    closed spec fn view(&self) -> PlaybackView<T> {
        self.st@
    }
}

impl<T: Copy> Playback<T> {
    /// Every source keeps its samples in order.
    #[verifier::type_invariant]
    spec fn keeps_order(self) -> bool {
        self.st.wf() && in_order(self@)
    }

    pub closed spec fn wf(&self) -> bool {
        self.st.wf()
    }

    /// A source with nothing to play.
    fn idle_state() -> (r: PlaybackState<T>)
        ensures
            r.wf(),
            in_order(r@),
    {
        PlaybackState::new(1, Vec::new())
    }

    /// A source for `channels`-channel audio that first plays `pending`.
    pub fn new(channels: u16, pending: Vec<T>) -> (r: Playback<T>)
        requires
            channels > 0,
        ensures
            r.wf(),
            r@ == (PlaybackView {
                pending: pending@,
                silence_left: 0,
                refill: None::<Seq<T>>,
                buffering: false,
                channels,
                emitted: 0,
                played: Seq::<T>::empty(),
                received: pending@,
            }),
            in_order(r@),
    {
        Playback { st: PlaybackState::new(channels, pending) }
    }

    /// Emits without reading the queue, when it can: the next pending sample, the next
    /// silent sample of the current frame, or the first sample of a held-back block once
    /// playback resumed. `None` when the queue must be read.
    pub fn local(&mut self) -> (r: Option<Emit<T>>)
        requires
            old(self).wf(),
        ensures
            final(self).wf(),
            final(self)@.channels == old(self)@.channels,
            r is None <==> !has_local(old(self)@),
            r is None ==> final(self)@ == old(self)@,
            old(self)@.pending.len() > 0 ==> r == Some(Emit::Sample(old(self)@.pending[0]))
                && final(self)@ == (PlaybackView {
                pending: old(self)@.pending.drop_first(),
                emitted: old(self)@.emitted + 1,
                played: old(self)@.played.push(old(self)@.pending[0]),
                ..old(self)@
            }),
            old(self)@.pending.len() == 0 && old(self)@.silence_left > 0 ==> r == Some(
                Emit::<T>::Silence,
            ) && final(self)@ == (PlaybackView {
                silence_left: (old(self)@.silence_left - 1) as usize,
                emitted: old(self)@.emitted + 1,
                ..old(self)@
            }),
            old(self)@.pending.len() == 0 && old(self)@.silence_left == 0 && !old(self)@.buffering
                && old(self)@.refill is Some ==> {
                let b = old(self)@.refill->0;
                &&& final(self)@.refill is None
                &&& final(self)@.buffering == old(self)@.buffering
                &&& final(self)@.silence_left == 0
                &&& b.len() > 0 ==> r == Some(Emit::Sample(b[0])) && final(self)@.pending
                    == b.drop_first() && final(self)@.emitted == old(self)@.emitted + 1
                &&& b.len() == 0 ==> r == Some(Emit::<T>::End) && final(self)@.pending == b
                    && final(self)@.emitted == old(self)@.emitted
            },
            final(self)@.received == old(self)@.received,
            final(self)@.played == match r {
                Some(Emit::Sample(x)) => old(self)@.played.push(x),
                _ => old(self)@.played,
            },
            aligned(old(self)@) ==> aligned(final(self)@),
            in_order(final(self)@),
    {
        proof {
            use_type_invariant(&*self);
        }
        let mut st = Playback::idle_state();
        std::mem::swap(&mut st, &mut self.st);
        let r = st.local();
        std::mem::swap(&mut st, &mut self.st);
        r
    }

    /// Emits after a nonblocking read of the queue, when `local` could not: a block starts
    /// playing (after starvation, only once a second block arrived, the first playing
    /// while the second is held back), starvation starts a silent frame, and a gone worker
    /// releases the held-back block or ends the stream.
    pub fn polled(&mut self, p: Poll<T>) -> (r: Emit<T>)
        requires
            old(self).wf(),
            !has_local(old(self)@),
        ensures
            final(self).wf(),
            final(self)@.channels == old(self)@.channels,
            match p {
                Poll::Chunk(c) => if old(self)@.buffering {
                    match old(self)@.refill {
                        Some(first) => final(self)@.refill == Some(c@) && !final(self)@.buffering
                            && (first.len() > 0 ==> r == Emit::Sample(first[0])
                            && final(self)@.pending == first.drop_first()) && (first.len() == 0
                            ==> r == Emit::<T>::End && final(self)@.pending == first),
                        None => r == Emit::<T>::Silence && final(self)@ == (PlaybackView {
                            refill: Some(c@),
                            silence_left: (old(self)@.channels - 1) as usize,
                            emitted: old(self)@.emitted + 1,
                            received: old(self)@.received + c@,
                            ..old(self)@
                        }),
                    }
                } else {
                    final(self)@.refill == old(self)@.refill && !final(self)@.buffering && (c@.len()
                        > 0 ==> r == Emit::Sample(c@[0]) && final(self)@.pending == c@.drop_first())
                        && (c@.len() == 0 ==> r == Emit::<T>::End && final(self)@.pending == c@)
                },
                Poll::Empty => r == Emit::<T>::Silence && final(self)@ == (PlaybackView {
                    buffering: true,
                    silence_left: (old(self)@.channels - 1) as usize,
                    emitted: old(self)@.emitted + 1,
                    ..old(self)@
                }),
                Poll::Disconnected => match old(self)@.refill {
                    None => r == Emit::<T>::End && final(self)@ == old(self)@,
                    Some(b) => final(self)@.refill is None && !final(self)@.buffering && (b.len()
                        > 0 ==> r == Emit::Sample(b[0]) && final(self)@.pending == b.drop_first())
                        && (b.len() == 0 ==> r == Emit::<T>::End && final(self)@.pending == b),
                },
            },
            final(self)@.silence_left > 0 ==> r == Emit::<T>::Silence,
            aligned(old(self)@) && (p matches Poll::Chunk(c) ==> whole_frames(c@, old(self)@.channels))
                ==> aligned(final(self)@),
            aligned(old(self)@) ==> (old(self)@.emitted as int) % (old(self)@.channels as int) == 0,
            final(self)@.received == match p {
                Poll::Chunk(c) => old(self)@.received + c@,
                _ => old(self)@.received,
            },
            final(self)@.played == match r {
                Emit::Sample(x) => old(self)@.played.push(x),
                _ => old(self)@.played,
            },
            in_order(final(self)@),
    {
        proof {
            use_type_invariant(&*self);
        }
        let mut st = Playback::idle_state();
        std::mem::swap(&mut st, &mut self.st);
        let r = st.polled(p);
        std::mem::swap(&mut st, &mut self.st);
        r
    }
}

/// Emitting the first of the pending samples keeps the samples in order.
proof fn lemma_order_step<T>(played: Seq<T>, pending: Seq<T>, rest: Seq<T>)
    requires
        pending.len() > 0,
    ensures
        played.push(pending[0]) + pending.drop_first() + rest == played + pending + rest,
{
    assert(played.push(pending[0]) + pending.drop_first() =~= played + pending);
}

/// Starting a block of `n` samples (a multiple of `c`) at a frame boundary keeps
/// emitted-plus-owed a whole number of frames.
proof fn lemma_block_aligned(e: int, n: int, c: int)
    requires
        c > 0,
        e >= 0,
        n >= 0,
    ensures
        e % c == 0 && n % c == 0 && n > 0 ==> (e + 1 + (n - 1)) % c == 0,
        e % c == 0 && n % c == 0 ==> (e + n) % c == 0,
        e % c == 0 ==> (e + 1 + (c - 1)) % c == 0,
{
    vstd::arithmetic::div_mod::lemma_add_mod_noop(e, n, c);
    vstd::arithmetic::div_mod::lemma_add_mod_noop(e, c, c);
    vstd::arithmetic::div_mod::lemma_mod_self_0(c);
    assert(0int % c == 0);
    assert(e + 1 + (n - 1) == e + n);
    assert(e + 1 + (c - 1) == e + c);
}

/// The samples a block of `frames` frames of `channels` channels holds.
pub open spec fn block_samples(frames: nat, channels: nat) -> nat {
    frames * channels
}

/// The largest block the worker decodes at once, in frames.
pub const BLOCK_FRAMES: usize = 2048;

/// Why one connection of the worker ended.
#[derive(Debug, PartialEq, Eq)]
pub enum WorkerError {
    /// The decoder ran out of samples.
    Ended,
    /// A block does not hold whole frames.
    IncompleteFrame,
    /// The sample rate or channel count changed.
    FormatChanged,
}

/// The text of a worker error.
pub open spec fn worker_error_text(e: WorkerError) -> Seq<char> {
    match e {
        WorkerError::Ended => "stream ended"@,
        WorkerError::IncompleteFrame => "incomplete audio frame"@,
        WorkerError::FormatChanged => "stream audio format changed; restart rxer"@,
    }
}

impl WorkerError {
    /// The text shown to the user.
    pub fn message(&self) -> (r: &'static str)
        ensures
            r@ == worker_error_text(*self),
    {
        match self {
            WorkerError::Ended => "stream ended",
            WorkerError::IncompleteFrame => "incomplete audio frame",
            WorkerError::FormatChanged => "stream audio format changed; restart rxer",
        }
    }
}

/// Whether a connection's format differs from the session's first one.
pub fn format_changed(first: Option<(u16, u32)>, now: (u16, u32)) -> (r: bool)
    ensures
        r == (first matches Some(f) && f != now),
{
    match first {
        Some(f) => f.0 != now.0 || f.1 != now.1,
        None => false,
    }
}

/// What to do with the blocks decoded so far.
#[derive(Debug)]
pub enum Primed<T> {
    /// Keep decoding: still priming.
    Continue,
    /// Queue these blocks, in order; then, if `ended`, the connection ends.
    Send(Vec<Vec<T>>, bool),
    /// The connection ends without sending.
    Fail(WorkerError),
}

/// The priming of one connection: blocks are held back until two are decoded.
pub struct Primer<T> {
    primed: Vec<Vec<T>>,
    buffering: bool,
    produced: usize,
}

/// The primer as the library models it.
pub struct PrimerView<T> {
    pub primed: Seq<Seq<T>>,
    pub buffering: bool,
    pub produced: usize,
}

/// Blocks that are nonempty and hold whole frames of `channels` channels: what the queue
/// may carry.
pub open spec fn sound_blocks<T>(bs: Seq<Seq<T>>, channels: u16) -> bool {
    forall|i: int| 0 <= i < bs.len() ==> (#[trigger] bs[i]).len() > 0 && whole_frames(bs[i], channels)
}

/// The samples of each block.
pub open spec fn blocks_view<T>(v: Seq<Vec<T>>) -> Seq<Seq<T>> {
    v.map_values(|b: Vec<T>| b@)
}

impl<T> View for Primer<T> {
    type V = PrimerView<T>;

    closed spec fn view(&self) -> PrimerView<T> {
        PrimerView {
            primed: blocks_view(self.primed@),
            buffering: self.buffering,
            produced: self.produced,
        }
    }
}

impl<T> Primer<T> {
    /// A primer for a new connection.
    pub fn new() -> (r: Primer<T>)
        ensures
            r@.primed.len() == 0,
            r@.buffering,
            r@.produced == 0,
    {
        Primer { primed: Vec::new(), buffering: true, produced: 0 }
    }

    /// The samples decoded on this connection (saturating).
    pub fn produced(&self) -> (r: usize)
        ensures
            r == self@.produced,
    {
        self.produced
    }

    /// Takes the next decoded block (empty when the decoder ended). Until two blocks are
    /// held, blocks are kept back; then everything held is sent, in order.
    pub fn accept(&mut self, block: Vec<T>, channels: u16) -> (r: Primed<T>)
        requires
            channels > 0,
            old(self)@.primed.len() < 2,
        ensures
            final(self)@.primed.len() < 2,
            block@.len() == 0 && old(self)@.primed.len() == 0 ==> r == Primed::<T>::Fail(
                WorkerError::Ended,
            ) && final(self)@ == old(self)@,
            !(block@.len() == 0 && old(self)@.primed.len() == 0) && (block@.len() as int) % (channels as int)
                != 0 ==> r == Primed::<T>::Fail(WorkerError::IncompleteFrame) && final(self)@ == old(
                self,
            )@,
            !(block@.len() == 0 && old(self)@.primed.len() == 0) && (block@.len() as int) % (channels as int)
                == 0 ==> {
                let held = if block@.len() > 0 {
                    old(self)@.primed.push(block@)
                } else {
                    old(self)@.primed
                };
                &&& final(self)@.produced == if old(self)@.produced + block@.len() > usize::MAX {
                    usize::MAX as int
                } else {
                    old(self)@.produced + block@.len()
                }
                &&& if block@.len() > 0 && old(self)@.buffering && held.len() < 2 {
                    r is Continue && final(self)@.primed == held && final(self)@.buffering
                } else {
                    r matches Primed::Send(v, ended) && blocks_view(v@) == held && ended == (
                    block@.len() == 0) && final(self)@.primed.len() == 0 && !final(self)@.buffering
                }
            },
            sound_blocks(old(self)@.primed, channels) ==> sound_blocks(final(self)@.primed, channels)
                && (r matches Primed::Send(v, _) ==> sound_blocks(blocks_view(v@), channels)),
    {
        let len = block.len();
        if len == 0 && self.primed.len() == 0 {
            return Primed::Fail(WorkerError::Ended);
        }
        if len % (channels as usize) != 0 {
            return Primed::Fail(WorkerError::IncompleteFrame);
        }
        self.produced = if len > usize::MAX - self.produced {
            usize::MAX
        } else {
            self.produced + len
        };
        let ended = len == 0;
        if !ended {
            let ghost before = blocks_view(self.primed@);
            let ghost bv = block@;
            self.primed.push(block);
            assert(blocks_view(self.primed@) =~= before.push(bv));
        }
        if !ended && self.buffering && self.primed.len() < 2 {
            return Primed::Continue;
        }
        self.buffering = false;
        let mut out: Vec<Vec<T>> = Vec::new();
        std::mem::swap(&mut out, &mut self.primed);
        assert(blocks_view(self.primed@) =~= Seq::<Seq<T>>::empty());
        Primed::Send(out, ended)
    }
}

/// What the worker does after a connection failed.
#[derive(Debug, PartialEq, Eq)]
pub enum AfterFailure {
    /// Reception was cancelled: stop quietly.
    Finish,
    /// Stop and report the connection's error.
    Fail,
    /// Stop and report that the retries are used up.
    Exhausted,
    /// Wait `delay` seconds, then try again; this is retry `attempt` of 5.
    Wait { delay: u64, attempt: u32 },
}

/// The most retries in a row.
pub const MAX_RETRIES: u32 = 5;

/// The retry budget of a receiver.
pub struct RetryPolicy {
    retries: u32,
}

impl View for RetryPolicy {
    type V = u32;

    closed spec fn view(&self) -> u32 {
        self.retries
    }
}

/// 2 to the `n`.
pub open spec fn pow2(n: nat) -> nat
    decreases n,
{
    if n == 0 {
        1
    } else {
        2 * pow2((n - 1) as nat)
    }
}

impl RetryPolicy {
    pub fn new() -> (r: RetryPolicy)
        ensures
            r@ == 0,
    {
        RetryPolicy { retries: 0 }
    }

    /// Decides what follows a failed connection. A connection that decoded at least one
    /// second of audio (`channels * rate` samples of the session's `format`) restores the
    /// budget; retries wait 1, 2, 4, 8 and 16 seconds, and a sixth failure in a row ends
    /// reception. Without `reconnect`, or after a format change, the first failure ends it.
    pub fn after_failure(
        &mut self,
        active: bool,
        reconnect: bool,
        format_changed: bool,
        format: Option<(u16, u32)>,
        produced: usize,
    ) -> (r: AfterFailure)
        requires
            old(self)@ <= MAX_RETRIES,
        ensures
            final(self)@ <= MAX_RETRIES,
            !active ==> r == AfterFailure::Finish && final(self)@ == old(self)@,
            active && (!reconnect || format_changed) ==> r == AfterFailure::Fail && final(self)@
                == old(self)@,
            active && reconnect && !format_changed ==> {
                let base = if format matches Some(f) && produced >= f.0 * f.1 {
                    0
                } else {
                    old(self)@
                };
                if base == MAX_RETRIES {
                    r == AfterFailure::Exhausted && final(self)@ == base
                } else {
                    r == (AfterFailure::Wait { delay: pow2(base as nat) as u64, attempt: (base + 1) as u32 })
                        && final(self)@ == base + 1
                }
            },
    {
        if !active {
            return AfterFailure::Finish;
        }
        if !reconnect || format_changed {
            return AfterFailure::Fail;
        }
        match format {
            Some((c, rate)) => {
                assert((c as u64) * (rate as u64) <= 0xffffu64 * 0xffff_ffffu64) by (nonlinear_arith);
                if produced as u64 >= c as u64 * rate as u64 {
                    self.retries = 0;
                }
            },
            None => {},
        }
        if self.retries == MAX_RETRIES {
            return AfterFailure::Exhausted;
        }
        let delay: u64 = 1u64 << self.retries;
        proof {
            lemma_pow2_shift(self.retries);
        }
        self.retries = self.retries + 1;
        AfterFailure::Wait { delay, attempt: self.retries }
    }
}

proof fn lemma_pow2_shift(n: u32)
    requires
        n < 5,
    ensures
        (1u64 << n) == pow2(n as nat),
{
    assert(pow2(0) == 1);
    assert(pow2(1) == 2);
    assert(pow2(2) == 4);
    assert(pow2(3) == 8);
    assert(pow2(4) == 16);
    assert((1u64 << 0u32) == 1u64) by (bit_vector);
    assert((1u64 << 1u32) == 2u64) by (bit_vector);
    assert((1u64 << 2u32) == 4u64) by (bit_vector);
    assert((1u64 << 3u32) == 8u64) by (bit_vector);
    assert((1u64 << 4u32) == 16u64) by (bit_vector);
}

fn push_str(out: &mut Vec<char>, s: &str)
    ensures
        final(out)@ == old(out)@ + s@,
{
    let c = chars_of(s);
    let ghost before = out@;
    out.extend_from_slice(c.as_slice());
    assert(out@ =~= before + s@);
}

/// The status shown while waiting to reconnect.
pub open spec fn reconnect_message_spec(delay: u64, attempt: u32) -> Seq<char> {
    "reconnecting in "@ + decimal(delay as nat) + "s ("@ + decimal(attempt as nat) + "/5)"@
}

/// Formats the status shown while waiting to reconnect.
pub fn reconnect_message(delay: u64, attempt: u32) -> (r: String)
    ensures
        r@ == reconnect_message_spec(delay, attempt),
{
    let mut out: Vec<char> = Vec::new();
    push_str(&mut out, "reconnecting in ");
    push_decimal(&mut out, delay);
    push_str(&mut out, "s (");
    push_decimal(&mut out, attempt as u64);
    push_str(&mut out, "/5)");
    assert(out@ =~= reconnect_message_spec(delay, attempt));
    string_of(out.as_slice())
}

/// The progress of `--check`: samples decoded against one second of audio.
pub struct CheckProgress {
    target: u64,
    count: u64,
}

impl View for CheckProgress {
    type V = (u64, u64);

    closed spec fn view(&self) -> (u64, u64) {
        (self.target, self.count)
    }
}

impl CheckProgress {
    /// Progress toward one second of `channels`-channel audio at `rate` Hz.
    pub fn new(rate: u32, channels: u16) -> (r: CheckProgress)
        ensures
            r@.0 == rate * channels,
            r@.1 == 0,
    {
        assert((rate as u64) * (channels as u64) <= 0xffff_ffffu64 * 0xffffu64) by (nonlinear_arith);
        CheckProgress { target: rate as u64 * channels as u64, count: 0 }
    }

    /// Counts a decoded block (saturating).
    pub fn add(&mut self, samples: usize)
        ensures
            final(self)@.0 == old(self)@.0,
            final(self)@.1 == if old(self)@.1 + samples > u64::MAX {
                u64::MAX as int
            } else {
                old(self)@.1 + samples
            },
    {
        let s = samples as u64;
        self.count = if s > u64::MAX - self.count {
            u64::MAX
        } else {
            self.count + s
        };
    }

    /// Whether one second was decoded.
    pub fn done(&self) -> (r: bool)
        ensures
            r == (self@.1 >= self@.0),
    {
        self.count >= self.target
    }

    /// The samples counted.
    pub fn count(&self) -> (r: u64)
        ensures
            r == self@.1,
    {
        self.count
    }
}

/// The span accounting of a decoder: how many samples remain in the current span, so
/// that a resampler never sees an empty span.
pub struct SpanCounter {
    remaining: usize,
}

impl View for SpanCounter {
    type V = usize;

    closed spec fn view(&self) -> usize {
        self.remaining
    }
}

/// The length of a span as reported, at least one.
pub open spec fn span_length(reported: Option<usize>) -> usize {
    match reported {
        Some(n) => if n > 1 {
            n
        } else {
            1
        },
        None => 1,
    }
}

fn span_len(reported: Option<usize>) -> (r: usize)
    ensures
        r == span_length(reported),
{
    match reported {
        Some(n) => if n > 1 {
            n
        } else {
            1
        },
        None => 1,
    }
}

impl SpanCounter {
    /// The accounting after the decoder produced its first sample (if `has_first`), the
    /// decoder then reporting `reported` as its span length.
    pub fn start(has_first: bool, reported: Option<usize>) -> (r: SpanCounter)
        ensures
            r@ == if has_first {
                span_length(reported)
            } else {
                0
            },
            has_first ==> r@ >= 1,
    {
        SpanCounter {
            remaining: if has_first {
                span_len(reported)
            } else {
                0
            },
        }
    }

    /// Accounts for one emitted sample, the decoder having produced the following one (if
    /// `has_next`) and reporting `reported`. Returns whether a new span starts, whose
    /// channel count and sample rate must be read.
    pub fn advance(&mut self, has_next: bool, reported: Option<usize>) -> (r: bool)
        requires
            old(self)@ >= 1,
        ensures
            !has_next ==> final(self)@ == 0 && !r,
            has_next && old(self)@ > 1 ==> final(self)@ == old(self)@ - 1 && !r,
            has_next && old(self)@ == 1 ==> final(self)@ == span_length(reported) && r,
            has_next ==> final(self)@ >= 1,
    {
        self.remaining = self.remaining - 1;
        if !has_next {
            self.remaining = 0;
            return false;
        }
        if self.remaining == 0 {
            self.remaining = span_len(reported);
            return true;
        }
        false
    }

    /// The samples left in the current span.
    pub fn remaining(&self) -> (r: usize)
        ensures
            r == self@,
    {
        self.remaining
    }
}

} // verus!
