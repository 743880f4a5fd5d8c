use bytes::Bytes;
use nes_online::frames_sync::{
    FrameBuffer, FrameClock, FrameMessage, FrameStep, Frames, TickAction, DURATION_MAX_NANOS,
};

#[test]
fn key_input_is_gathered_until_the_next_frame() {
    let mut buf = FrameBuffer::new();
    assert_eq!(buf.len(), 0);
    let step = buf.on_message(Some(FrameMessage::KeyBuffer(Bytes::from(vec![1u8, 2]))));
    assert!(matches!(step, FrameStep::Idle));
    let step = buf.on_message(Some(FrameMessage::KeyBuffer(Bytes::from(vec![3u8]))));
    assert!(matches!(step, FrameStep::Idle));
    assert_eq!(buf.len(), 3);
    match buf.on_message(Some(FrameMessage::Frame)) {
        FrameStep::Broadcast(b) => assert_eq!(&b[..], &[1u8, 2, 3][..]),
        other => panic!("expected a broadcast, got {:?}", other),
    }
    assert_eq!(buf.len(), 0);
}

#[test]
fn a_frame_with_no_input_sends_nothing_but_is_still_sent() {
    let mut buf = FrameBuffer::new();
    match buf.on_message(Some(FrameMessage::Frame)) {
        FrameStep::Broadcast(b) => assert!(b.is_empty()),
        other => panic!("expected a broadcast, got {:?}", other),
    }
}

#[test]
fn stop_and_missing_messages_keep_gathered_input() {
    let mut buf = FrameBuffer::new();
    buf.on_message(Some(FrameMessage::KeyBuffer(Bytes::from_static(b"ab"))));
    assert!(matches!(buf.on_message(None), FrameStep::Idle));
    assert!(matches!(buf.on_message(Some(FrameMessage::Stop)), FrameStep::Stop));
    assert_eq!(buf.len(), 2);
    match buf.on_message(Some(FrameMessage::Frame)) {
        FrameStep::Broadcast(b) => assert_eq!(&b[..], b"ab"),
        other => panic!("expected a broadcast, got {:?}", other),
    }
}

#[test]
fn clock_sleeps_until_each_deadline() {
    let mut clock = FrameClock::new(16_666_667);
    assert_eq!(clock.next_tick_ns(), 0);
    assert_eq!(clock.period_ns(), 16_666_667);
    clock.advance();
    assert_eq!(clock.next_tick_ns(), 16_666_667);
    assert_eq!(clock.after_send(true, 6_666_667), TickAction::Sleep(10_000_000));
    clock.advance();
    assert_eq!(clock.next_tick_ns(), 33_333_334);
    assert_eq!(clock.after_send(true, 40_000_000), TickAction::Proceed);
    assert_eq!(clock.after_send(true, 33_333_334), TickAction::Proceed);
    assert_eq!(clock.after_send(false, 0), TickAction::Stop);
}

#[test]
fn clock_reaches_the_longest_duration() {
    let mut clock = FrameClock::new(DURATION_MAX_NANOS);
    clock.advance();
    assert_eq!(clock.next_tick_ns(), DURATION_MAX_NANOS);
}

#[test]
fn relay_starts_once_and_hands_out_its_receiver() {
    let mut frames = Frames::new();
    let workers = frames.start();
    assert!(workers.is_some());
    assert!(frames.start().is_none());
    let mut workers = workers.unwrap();
    frames
        .send(FrameMessage::KeyBuffer(Bytes::from_static(b"k")))
        .expect("queued");
    workers.tx.try_send(FrameMessage::Frame).expect("ticker can queue");
    match workers.rx.try_recv() {
        Ok(FrameMessage::KeyBuffer(b)) => assert_eq!(&b[..], b"k"),
        other => panic!("expected key input, got {:?}", other),
    }
    assert!(matches!(workers.rx.try_recv(), Ok(FrameMessage::Frame)));
}

#[test]
fn idle_relay_is_sent_nothing() {
    let mut frames = Frames::default();
    assert_eq!(frames.send(FrameMessage::Frame), Ok(()));
    let mut workers = frames.start().unwrap();
    assert!(workers.rx.try_recv().is_err());
}

#[test]
fn stopped_relay_ignores_messages_and_restarts_on_a_new_channel() {
    let mut frames = Frames::new();
    let mut first = frames.start().unwrap();
    assert_eq!(frames.send(FrameMessage::Stop), Ok(()));
    assert!(matches!(first.rx.try_recv(), Ok(FrameMessage::Stop)));
    assert_eq!(frames.send(FrameMessage::Frame), Ok(()));
    assert!(first.rx.try_recv().is_err());
    let mut second = frames.start().expect("restarts");
    frames.send(FrameMessage::Frame).expect("queued");
    assert!(matches!(second.rx.try_recv(), Ok(FrameMessage::Frame)));
}

#[test]
fn sending_to_a_relay_whose_task_is_gone_fails() {
    let mut frames = Frames::new();
    let workers = frames.start().unwrap();
    drop(workers);
    assert!(frames.send(FrameMessage::Frame).is_err());
}

#[test]
fn full_channel_refuses_more_input() {
    let mut frames = Frames::new();
    let _workers = frames.start().unwrap();
    for _ in 0..nes_online::frames_sync::FRAME_CHANNEL_CAPACITY {
        frames.send(FrameMessage::Frame).expect("room in the channel");
    }
    assert_eq!(
        frames.send(FrameMessage::Frame),
        Err(nes_online::channel::SendFailure::Full)
    );
}

#[test]
fn clock_deadlines_do_not_drift() {
    let mut clock = FrameClock::new(16_666_667);
    for k in 1..=600u128 {
        clock.advance();
        assert_eq!(clock.next_tick_ns(), k * 16_666_667);
        let _ = clock.after_send(true, k * 20_000_000);
    }
}

#[test]
fn queue_decision_hands_over_only_to_a_running_relay() {
    let mut frames = Frames::new();
    assert!(frames.queue_decision(FrameMessage::Frame).is_none());
    let _workers = frames.start().unwrap();
    match frames.queue_decision(FrameMessage::KeyBuffer(Bytes::from_static(b"q"))) {
        Some(FrameMessage::KeyBuffer(b)) => assert_eq!(&b[..], b"q"),
        other => panic!("expected the key input back, got {:?}", other),
    }
    assert!(matches!(frames.queue_decision(FrameMessage::Stop), Some(FrameMessage::Stop)));
    assert!(frames.queue_decision(FrameMessage::Frame).is_none());
}

#[test]
fn buffer_accepts_what_fits() {
    let buf = FrameBuffer::new();
    assert!(buf.accepts(&None));
    assert!(buf.accepts(&Some(FrameMessage::Frame)));
    assert!(buf.accepts(&Some(FrameMessage::KeyBuffer(Bytes::from_static(b"abc")))));
}
