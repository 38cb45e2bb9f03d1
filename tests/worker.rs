use node_rodio::{
    Action, ChannelClosed, CompletionLatch, Event, NodeRodioCommand, PlaybackState, PlaybackWorker,
};

fn command(worker: &mut PlaybackWorker, c: NodeRodioCommand) -> Result<Action, ChannelClosed> {
    worker.step(Event::Command(c))
}

fn append(worker: &mut PlaybackWorker, path: &str, ok: bool) -> Result<Action, ChannelClosed> {
    let first = command(worker, NodeRodioCommand::Append(path.to_string()));
    assert_eq!(first, Ok(Action::Decode(path.to_string())));
    worker.step(Event::Decoded { ok })
}

fn fires(r: &Result<Action, ChannelClosed>) -> bool {
    matches!(r, Ok(Action::Stop) | Ok(Action::Complete))
}

#[test]
fn starts_idle() {
    let w = PlaybackWorker::new();
    assert_eq!(w.state(), PlaybackState::Idle);
    assert_eq!(w.latch(), CompletionLatch { appended_once: false, played_once: false });
    assert_eq!(w.gain(), None);
    assert!(!w.is_terminated());
}

#[test]
fn two_items_then_wait_completes_once() {
    let mut w = PlaybackWorker::new();
    let mut replies = Vec::new();
    replies.push(append(&mut w, "a.wav", true));
    replies.push(append(&mut w, "b.wav", true));
    assert_eq!(w.state(), PlaybackState::Queued);
    replies.push(command(&mut w, NodeRodioCommand::Play));
    assert_eq!(replies, vec![Ok(Action::Append), Ok(Action::Append), Ok(Action::Play)]);
    assert_eq!(command(&mut w, NodeRodioCommand::Wait), Ok(Action::Enlist));
    // Both items still playing: no completion yet.
    for _ in 0..3 {
        let r = w.step(Event::Polled { sink_empty: false });
        assert_eq!(r, Ok(Action::Nothing));
        replies.push(r);
    }
    let done = w.step(Event::Polled { sink_empty: true });
    assert_eq!(done, Ok(Action::Complete));
    replies.push(done);
    assert!(w.is_terminated());
    for _ in 0..3 {
        replies.push(w.step(Event::Polled { sink_empty: true }));
    }
    assert_eq!(replies.iter().filter(|r| fires(r)).count(), 1);
}

#[test]
fn appends_are_decoded_in_order() {
    let mut w = PlaybackWorker::new();
    let paths = ["one.wav", "two.flac", "three.ogg", "four.mp3"];
    for p in paths.iter() {
        assert_eq!(command(&mut w, NodeRodioCommand::Append(p.to_string())), Ok(Action::Decode(p.to_string())));
        assert_eq!(w.step(Event::Decoded { ok: true }), Ok(Action::Append));
    }
    assert_eq!(command(&mut w, NodeRodioCommand::Play), Ok(Action::Play));
    assert_eq!(w.state(), PlaybackState::Playing);
    assert_eq!(w.latch(), CompletionLatch { appended_once: true, played_once: true });
}

#[test]
fn volume_applies_in_every_state() {
    let mut w = PlaybackWorker::new();
    assert_eq!(command(&mut w, NodeRodioCommand::Volume(1)), Ok(Action::SetVolume(1)));
    assert_eq!((w.state(), w.gain()), (PlaybackState::Idle, Some(1)));
    append(&mut w, "a.wav", true).unwrap();
    assert_eq!(command(&mut w, NodeRodioCommand::Volume(2)), Ok(Action::SetVolume(2)));
    assert_eq!((w.state(), w.gain()), (PlaybackState::Queued, Some(2)));
    command(&mut w, NodeRodioCommand::Play).unwrap();
    assert_eq!(command(&mut w, NodeRodioCommand::Volume(3)), Ok(Action::SetVolume(3)));
    assert_eq!((w.state(), w.gain()), (PlaybackState::Playing, Some(3)));
    command(&mut w, NodeRodioCommand::Pause).unwrap();
    assert_eq!(command(&mut w, NodeRodioCommand::Volume(4)), Ok(Action::SetVolume(4)));
    assert_eq!((w.state(), w.gain()), (PlaybackState::Paused, Some(4)));
}

#[test]
fn latest_volume_wins() {
    let mut w = PlaybackWorker::new();
    let half = 0.5f32.to_bits();
    let loud = 2.5f32.to_bits();
    command(&mut w, NodeRodioCommand::Volume(loud)).unwrap();
    command(&mut w, NodeRodioCommand::Play).unwrap();
    command(&mut w, NodeRodioCommand::Volume(half)).unwrap();
    assert_eq!(w.gain(), Some(half));
    assert_eq!(f32::from_bits(w.gain().unwrap()), 0.5);
}

#[test]
fn stop_closes_for_good() {
    let mut w = PlaybackWorker::new();
    append(&mut w, "a.wav", true).unwrap();
    command(&mut w, NodeRodioCommand::Volume(9)).unwrap();
    assert_eq!(command(&mut w, NodeRodioCommand::Stop), Ok(Action::Stop));
    assert!(w.is_terminated());
    let later = vec![
        Event::Command(NodeRodioCommand::Append("b.wav".to_string())),
        Event::Command(NodeRodioCommand::Play),
        Event::Command(NodeRodioCommand::Pause),
        Event::Command(NodeRodioCommand::Stop),
        Event::Command(NodeRodioCommand::Volume(1)),
        Event::Command(NodeRodioCommand::Wait),
        Event::Decoded { ok: true },
        Event::Polled { sink_empty: true },
        Event::Disconnected,
    ];
    for e in later {
        assert_eq!(w.step(e), Err(ChannelClosed));
        assert_eq!(w.state(), PlaybackState::Terminated);
        assert_eq!(w.gain(), Some(9));
        assert_eq!(w.latch(), CompletionLatch { appended_once: true, played_once: false });
    }
}

#[test]
fn stop_before_anything_fires() {
    let mut w = PlaybackWorker::new();
    assert_eq!(command(&mut w, NodeRodioCommand::Stop), Ok(Action::Stop));
    assert_eq!(command(&mut w, NodeRodioCommand::Play), Err(ChannelClosed));
}

#[test]
fn wait_on_fresh_worker_does_not_complete() {
    let mut w = PlaybackWorker::new();
    assert_eq!(command(&mut w, NodeRodioCommand::Wait), Ok(Action::Enlist));
    for _ in 0..5 {
        assert_eq!(w.step(Event::Polled { sink_empty: true }), Ok(Action::Nothing));
    }
    assert_eq!(w.state(), PlaybackState::Idle);
}

#[test]
fn play_without_append_does_not_complete() {
    let mut w = PlaybackWorker::new();
    command(&mut w, NodeRodioCommand::Wait).unwrap();
    assert_eq!(command(&mut w, NodeRodioCommand::Play), Ok(Action::Play));
    assert_eq!(w.step(Event::Polled { sink_empty: true }), Ok(Action::Nothing));
    assert!(!w.is_terminated());
    // A failed decode does not count as an append either.
    append(&mut w, "missing.wav", false).unwrap();
    assert_eq!(w.step(Event::Polled { sink_empty: true }), Ok(Action::Nothing));
    append(&mut w, "a.wav", true).unwrap();
    assert_eq!(w.step(Event::Polled { sink_empty: true }), Ok(Action::Complete));
}

#[test]
fn append_without_play_does_not_complete() {
    let mut w = PlaybackWorker::new();
    append(&mut w, "a.wav", true).unwrap();
    assert_eq!(w.step(Event::Polled { sink_empty: true }), Ok(Action::Nothing));
    assert_eq!(w.state(), PlaybackState::Queued);
}

#[test]
fn paused_worker_does_not_complete() {
    let mut w = PlaybackWorker::new();
    append(&mut w, "a.wav", true).unwrap();
    command(&mut w, NodeRodioCommand::Play).unwrap();
    command(&mut w, NodeRodioCommand::Pause).unwrap();
    assert_eq!(w.step(Event::Polled { sink_empty: true }), Ok(Action::Nothing));
    assert_eq!(w.state(), PlaybackState::Paused);
}

#[test]
fn bad_append_is_skipped() {
    let mut w = PlaybackWorker::new();
    assert_eq!(append(&mut w, "/no/such/file.wav", false), Ok(Action::Nothing));
    assert_eq!(w.state(), PlaybackState::Idle);
    assert_eq!(w.latch(), CompletionLatch { appended_once: false, played_once: false });
    assert!(!w.is_terminated());
    assert_eq!(append(&mut w, "good.wav", true), Ok(Action::Append));
    assert_eq!(w.state(), PlaybackState::Queued);
    assert_eq!(command(&mut w, NodeRodioCommand::Play), Ok(Action::Play));
    assert_eq!(w.state(), PlaybackState::Playing);
    assert_eq!(w.step(Event::Polled { sink_empty: true }), Ok(Action::Complete));
}

#[test]
fn interleaved_volume_senders_last_delivered_wins() {
    // Ten senders with ten commands each, delivered in one interleaving.
    let mut w = PlaybackWorker::new();
    command(&mut w, NodeRodioCommand::Play).unwrap();
    let mut delivered = Vec::new();
    for round in 0..10u32 {
        for sender in 0..10u32 {
            let sender = (sender * 7 + round) % 10;
            let level = (sender as f32 + round as f32 / 10.0).to_bits();
            assert_eq!(command(&mut w, NodeRodioCommand::Volume(level)), Ok(Action::SetVolume(level)));
            delivered.push(level);
        }
    }
    assert_eq!(delivered.len(), 100);
    assert_eq!(w.gain(), Some(*delivered.last().unwrap()));
    assert_eq!(w.state(), PlaybackState::Playing);
}

#[test]
fn pause_and_resume() {
    let mut w = PlaybackWorker::new();
    assert_eq!(command(&mut w, NodeRodioCommand::Pause), Ok(Action::Nothing));
    assert_eq!(w.state(), PlaybackState::Idle);
    assert_eq!(command(&mut w, NodeRodioCommand::Play), Ok(Action::Play));
    assert_eq!(command(&mut w, NodeRodioCommand::Play), Ok(Action::Nothing));
    assert_eq!(command(&mut w, NodeRodioCommand::Pause), Ok(Action::Pause));
    assert_eq!(command(&mut w, NodeRodioCommand::Pause), Ok(Action::Nothing));
    assert_eq!(w.state(), PlaybackState::Paused);
    assert_eq!(command(&mut w, NodeRodioCommand::Play), Ok(Action::Play));
    assert_eq!(w.state(), PlaybackState::Playing);
}

#[test]
fn append_while_playing_keeps_playing() {
    let mut w = PlaybackWorker::new();
    command(&mut w, NodeRodioCommand::Play).unwrap();
    assert_eq!(append(&mut w, "a.wav", true), Ok(Action::Append));
    assert_eq!(w.state(), PlaybackState::Playing);
}

#[test]
fn decoded_without_request_is_ignored() {
    let mut w = PlaybackWorker::new();
    assert_eq!(w.step(Event::Decoded { ok: true }), Ok(Action::Nothing));
    assert_eq!(w.state(), PlaybackState::Idle);
    assert_eq!(w.latch(), CompletionLatch { appended_once: false, played_once: false });
    append(&mut w, "a.wav", true).unwrap();
    assert_eq!(w.step(Event::Decoded { ok: true }), Ok(Action::Nothing));
}

#[test]
fn disconnect_shuts_down_without_firing() {
    let mut w = PlaybackWorker::new();
    append(&mut w, "a.wav", true).unwrap();
    command(&mut w, NodeRodioCommand::Play).unwrap();
    let r = w.step(Event::Disconnected);
    assert_eq!(r, Ok(Action::Shutdown));
    assert!(!fires(&r));
    assert!(w.is_terminated());
    assert_eq!(w.step(Event::Polled { sink_empty: true }), Err(ChannelClosed));
}
