use rxer::audio::{
    format_changed, reconnect_message, AfterFailure, CheckProgress, Emit, Playback, Poll, Primed,
    Primer, RetryPolicy, SpanCounter, WorkerError,
};
use std::collections::VecDeque;

/// The sample source with its queue, as the audio callback drives it.
struct Source {
    playback: Playback<f32>,
    queue: VecDeque<Vec<f32>>,
    connected: bool,
}

impl Source {
    fn next(&mut self) -> Option<f32> {
        let emitted = match self.playback.local() {
            Some(e) => e,
            None => {
                let poll = match self.queue.pop_front() {
                    Some(chunk) => Poll::Chunk(chunk),
                    None if self.connected => Poll::Empty,
                    None => Poll::Disconnected,
                };
                self.playback.polled(poll)
            }
        };
        match emitted {
            Emit::Sample(s) => Some(s),
            Emit::Silence => Some(0.0),
            Emit::End => None,
        }
    }
}

#[test]
fn starvation_keeps_stereo_frames_aligned_and_end_drains() {
    let mut audio = Source {
        playback: Playback::new(2, vec![1.0, 2.0]),
        queue: VecDeque::new(),
        connected: true,
    };
    assert_eq!(audio.next(), Some(1.0));
    assert_eq!(audio.next(), Some(2.0));
    assert_eq!(audio.next(), Some(0.0));
    audio.queue.push_back(vec![3.0, 4.0]);
    // A refill between left and right must not shift channel assignment.
    assert_eq!(audio.next(), Some(0.0));
    audio.connected = false;
    let mut rest = Vec::new();
    while let Some(s) = audio.next() {
        rest.push(s);
    }
    assert_eq!(rest, vec![0.0, 0.0, 3.0, 4.0]);
}

#[test]
fn playback_resumes_only_after_a_second_block() {
    let mut audio = Source {
        playback: Playback::new(1, vec![]),
        queue: VecDeque::new(),
        connected: true,
    };
    assert_eq!(audio.next(), Some(0.0)); // starved
    audio.queue.push_back(vec![1.0]);
    assert_eq!(audio.next(), Some(0.0)); // first block held back
    audio.queue.push_back(vec![2.0]);
    assert_eq!(audio.next(), Some(1.0));
    assert_eq!(audio.next(), Some(2.0));
    audio.queue.push_back(vec![3.0]);
    assert_eq!(audio.next(), Some(3.0));
}

#[test]
fn priming_holds_two_blocks_and_reports_failures() {
    let mut primer: Primer<f32> = Primer::new();
    assert!(matches!(primer.accept(vec![], 2), Primed::Fail(WorkerError::Ended)));
    assert!(matches!(
        primer.accept(vec![1.0], 2),
        Primed::Fail(WorkerError::IncompleteFrame)
    ));
    assert!(matches!(primer.accept(vec![1.0, 2.0], 2), Primed::Continue));
    match primer.accept(vec![3.0, 4.0], 2) {
        Primed::Send(blocks, ended) => {
            assert_eq!(blocks, vec![vec![1.0, 2.0], vec![3.0, 4.0]]);
            assert!(!ended);
        }
        _ => panic!(),
    }
    match primer.accept(vec![5.0, 6.0], 2) {
        Primed::Send(blocks, ended) => {
            assert_eq!(blocks, vec![vec![5.0, 6.0]]);
            assert!(!ended);
        }
        _ => panic!(),
    }
    assert!(matches!(primer.accept(vec![], 2), Primed::Fail(WorkerError::Ended)));
    assert_eq!(primer.produced(), 6);
    let mut short: Primer<f32> = Primer::new();
    assert!(matches!(short.accept(vec![1.0], 1), Primed::Continue));
    match short.accept(vec![], 1) {
        Primed::Send(blocks, ended) => {
            assert_eq!(blocks, vec![vec![1.0]]);
            assert!(ended);
        }
        _ => panic!(),
    }
    assert_eq!(WorkerError::FormatChanged.message(), "stream audio format changed; restart rxer");
}

#[test]
fn retries_wait_one_to_sixteen_seconds_then_give_up() {
    let mut policy = RetryPolicy::new();
    let format = Some((1u16, 8000u32));
    for (delay, attempt) in [(1, 1), (2, 2), (4, 3), (8, 4), (16, 5)] {
        assert_eq!(
            policy.after_failure(true, true, false, format, 10),
            AfterFailure::Wait { delay, attempt }
        );
    }
    assert_eq!(
        policy.after_failure(true, true, false, format, 10),
        AfterFailure::Exhausted
    );
    // A connection that decoded one second restores the budget.
    assert_eq!(
        policy.after_failure(true, true, false, format, 8000),
        AfterFailure::Wait {
            delay: 1,
            attempt: 1
        }
    );
    assert_eq!(
        policy.after_failure(false, true, false, format, 0),
        AfterFailure::Finish
    );
    assert_eq!(
        policy.after_failure(true, false, false, format, 0),
        AfterFailure::Fail
    );
    assert_eq!(
        policy.after_failure(true, true, true, format, 0),
        AfterFailure::Fail
    );
    assert_eq!(reconnect_message(16, 5), "reconnecting in 16s (5/5)");
}

#[test]
fn format_changes_and_check_progress() {
    assert!(!format_changed(None, (2, 44100)));
    assert!(!format_changed(Some((2, 44100)), (2, 44100)));
    assert!(format_changed(Some((2, 44100)), (1, 44100)));
    assert!(format_changed(Some((2, 44100)), (2, 48000)));
    let mut p = CheckProgress::new(8000, 1);
    p.add(4000);
    assert!(!p.done());
    p.add(4000);
    assert!(p.done());
    assert_eq!(p.count(), 8000);
}

#[test]
fn decoder_spans_are_never_empty() {
    let mut spans = SpanCounter::start(true, Some(0));
    assert_eq!(spans.remaining(), 1);
    assert!(spans.advance(true, Some(3)));
    assert_eq!(spans.remaining(), 3);
    assert!(!spans.advance(true, None));
    assert_eq!(spans.remaining(), 2);
    assert!(!spans.advance(false, None));
    assert_eq!(spans.remaining(), 0);
    assert_eq!(SpanCounter::start(false, Some(5)).remaining(), 0);
}
