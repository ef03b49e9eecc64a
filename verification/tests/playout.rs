use chat_rs::playout::{push_capped, PacketAction, Pull, QueueLimits, SequenceTracker, SourceQueue, MAX_CONCEAL};
use std::collections::VecDeque;

#[test]
fn packets_in_order_and_gaps() {
    let mut t = SequenceTracker::new();
    assert_eq!(t.accept(100, false), PacketAction::Decode { lost: 0 });
    assert_eq!(t.accept(101, false), PacketAction::Decode { lost: 0 });
    assert_eq!(t.accept(104, false), PacketAction::Decode { lost: 2 });
    // duplicates and late packets are dropped and do not move the timeline
    assert_eq!(t.accept(104, false), PacketAction::Drop);
    assert_eq!(t.accept(90, false), PacketAction::Drop);
    assert_eq!(t.last_seq, Some(104));
    // a long gap is concealed by at most MAX_CONCEAL frames
    assert_eq!(t.accept(200, false), PacketAction::Decode { lost: MAX_CONCEAL });
    // padding moves the timeline without audio
    assert_eq!(t.accept(201, true), PacketAction::Skip);
    assert_eq!(t.accept(202, false), PacketAction::Decode { lost: 0 });
}

#[test]
fn sequence_numbers_wrap() {
    let mut t = SequenceTracker::new();
    t.accept(65_534, false);
    assert_eq!(t.accept(65_535, false), PacketAction::Decode { lost: 0 });
    assert_eq!(t.accept(1, false), PacketAction::Decode { lost: 1 });
    assert_eq!(t.accept(65_535, false), PacketAction::Drop);
}

#[test]
fn queue_limits_at_48k() {
    let l = QueueLimits::for_rate(48_000);
    assert_eq!((l.target, l.resume, l.max), (1_920, 480, 9_600));
    let l = QueueLimits::for_rate(44_100);
    assert_eq!((l.target, l.resume, l.max), (1_764, 441, 8_820));
}

#[test]
fn source_primes_then_underruns() {
    let limits = QueueLimits { target: 4, resume: 2, max: 8 };
    let mut q: SourceQueue<i32> = SourceQueue::new();
    q.push(&[1, 2, 3], limits);
    assert!(!q.primed);
    assert!(matches!(q.pull(), Pull::Silent));
    q.push(&[4], limits);
    assert!(q.primed && q.ever_primed);
    for expected in 1..=4 {
        match q.pull() {
            Pull::Sample(s) => assert_eq!(s, expected),
            other => panic!("unexpected {other:?}"),
        }
    }
    assert!(matches!(q.pull(), Pull::Underrun));
    assert!(!q.primed);
    // after an underrun the smaller resume level suffices
    q.push(&[5, 6], limits);
    assert!(q.primed);
}

#[test]
fn backlog_is_cut_to_target() {
    let limits = QueueLimits { target: 4, resume: 2, max: 8 };
    let mut q: SourceQueue<i32> = SourceQueue::new();
    q.push(&[1, 2, 3, 4, 5, 6, 7, 8, 9], limits);
    assert_eq!(q.queue.iter().copied().collect::<Vec<_>>(), vec![6, 7, 8, 9]);
    q.push(&[10, 11, 12, 13], limits);
    assert_eq!(q.queue.len(), 8);
}

#[test]
fn push_capped_keeps_newest() {
    let mut d: VecDeque<u8> = VecDeque::from(vec![1, 2]);
    push_capped(&mut d, &[3, 4, 5], 3);
    assert_eq!(d.iter().copied().collect::<Vec<_>>(), vec![3, 4, 5]);
    push_capped(&mut d, &[], 5);
    assert_eq!(d.len(), 3);
}
