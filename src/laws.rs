//! What holds of the worker over whole runs of events.
//!
//! A run is the sequence of events that the worker loop observes, in the
//! order the channel delivered them. [`after`] is the state the worker ends
//! in and [`replies`] what [`crate::PlaybackWorker::step`] returned for each
//! event, one after the other.
use vstd::prelude::*;

use crate::command::{ChannelClosed, NodeRodioCommand};
use crate::worker::{initial, next, terminated, Action, CompletionLatch, Event, PlaybackState, WorkerView};

verus! {

/// The state after observing `events` in order, starting from `m`.
pub open spec fn after(m: WorkerView, events: Seq<Event>) -> WorkerView
    decreases events.len(),
{
    if events.len() == 0 {
        m
    } else {
        next(after(m, events.drop_last()), events.last()).0
    }
}

/// What the worker answers to each of `events`, starting from `m`.
pub open spec fn replies(m: WorkerView, events: Seq<Event>) -> Seq<Result<Action, ChannelClosed>>
    decreases events.len(),
{
    if events.len() == 0 {
        Seq::empty()
    } else {
        replies(m, events.drop_last()).push(next(after(m, events.drop_last()), events.last()).1)
    }
}

/// The gain after `events`, where `g` was the gain before them: that of the
/// last `Volume` command among them, or `g` if there is none.
pub open spec fn last_volume(g: Option<u32>, events: Seq<Event>) -> Option<u32>
    decreases events.len(),
{
    if events.len() == 0 {
        g
    } else if let Event::Command(NodeRodioCommand::Volume(level)) = events.last() {
        Some(level)
    } else {
        last_volume(g, events.drop_last())
    }
}

/// The events of appending each of `paths` in turn, each decoded well.
pub open spec fn append_events(paths: Seq<String>) -> Seq<Event>
    decreases paths.len(),
{
    if paths.len() == 0 {
        Seq::empty()
    } else {
        append_events(paths.drop_last()) + seq![
            Event::Command(NodeRodioCommand::Append(paths.last())),
            Event::Decoded { ok: true },
        ]
    }
}

/// The paths of `paths` as character sequences.
pub open spec fn path_views(paths: Seq<String>) -> Seq<Seq<char>> {
    paths.map_values(|p: String| p@)
}

/// One `Volume` command for each of `levels`, in order.
pub open spec fn volume_events(levels: Seq<u32>) -> Seq<Event> {
    levels.map_values(|v: u32| Event::Command(NodeRodioCommand::Volume(v)))
}

/// Whether a reply notifies the waiters.
pub open spec fn fires(r: Result<Action, ChannelClosed>) -> bool {
    r == Ok::<Action, ChannelClosed>(Action::Stop) || r == Ok::<Action, ChannelClosed>(Action::Complete)
}

/// Whether every one of `rs` was accepted.
pub open spec fn all_accepted(rs: Seq<Result<Action, ChannelClosed>>) -> bool {
    forall|i: int| 0 <= i < rs.len() ==> (#[trigger] rs[i]) is Ok
}

proof fn lemma_replies_len(m: WorkerView, events: Seq<Event>)
    ensures
        replies(m, events).len() == events.len(),
    decreases events.len(),
{
    if events.len() > 0 {
        lemma_replies_len(m, events.drop_last());
    }
}

/// One more event extends the run by one step.
proof fn lemma_run_push(m: WorkerView, events: Seq<Event>, e: Event)
    ensures
        after(m, events.push(e)) == next(after(m, events), e).0,
        replies(m, events.push(e)) == replies(m, events).push(next(after(m, events), e).1),
{
    assert(events.push(e).drop_last() =~= events);
}

/// Running `a` and then `b` is running `a + b`.
proof fn lemma_run_concat(m: WorkerView, a: Seq<Event>, b: Seq<Event>)
    ensures
        after(m, a + b) == after(after(m, a), b),
        replies(m, a + b) == replies(m, a) + replies(after(m, a), b),
    decreases b.len(),
{
    if b.len() == 0 {
        assert(a + b =~= a);
        assert(replies(m, a) + replies(after(m, a), b) =~= replies(m, a));
    } else {
        assert((a + b).drop_last() =~= a + b.drop_last());
        assert((a + b).last() == b.last());
        lemma_run_concat(m, a, b.drop_last());
        assert(replies(m, a + b) =~= replies(m, a) + replies(after(m, a), b));
    }
}

/// The reply to the `i`-th event is the worker's answer in the state that
/// the events before it led to.
proof fn lemma_reply_at(m: WorkerView, events: Seq<Event>, i: int)
    requires
        0 <= i < events.len(),
    ensures
        replies(m, events).len() == events.len(),
        replies(m, events)[i] == next(after(m, events.take(i)), events[i]).1,
        after(m, events.take(i + 1)) == next(after(m, events.take(i)), events[i]).0,
    decreases events.len(),
{
    lemma_replies_len(m, events);
    lemma_replies_len(m, events.drop_last());
    assert(events.take(i + 1).drop_last() =~= events.take(i));
    if i == events.len() - 1 {
        assert(events.drop_last() =~= events.take(i));
    } else {
        lemma_reply_at(m, events.drop_last(), i);
        assert(events.drop_last().take(i) =~= events.take(i));
        assert(events.drop_last().take(i + 1) =~= events.take(i + 1));
    }
}

/// A terminated worker stays as it is and refuses every event.
proof fn lemma_terminated_absorbs(m: WorkerView, events: Seq<Event>)
    requires
        terminated(m),
    ensures
        after(m, events) == m,
        replies(m, events).len() == events.len(),
        forall|i: int| 0 <= i < events.len() ==> #[trigger] replies(m, events)[i] == Err::<Action, ChannelClosed>(ChannelClosed),
    decreases events.len(),
{
    lemma_replies_len(m, events);
    if events.len() > 0 {
        lemma_terminated_absorbs(m, events.drop_last());
    }
}

/// Appending well-decoded paths queues them after what was queued, in order,
/// and keeps the worker running.
proof fn lemma_appends(m: WorkerView, paths: Seq<String>)
    requires
        !terminated(m),
    ensures
        after(m, append_events(paths)).queue == m.queue + path_views(paths),
        !terminated(after(m, append_events(paths))),
        after(m, append_events(paths)).gain == m.gain,
        paths.len() > 0 ==> after(m, append_events(paths)).latch.appended_once,
        after(m, append_events(paths)).latch.played_once == m.latch.played_once,
        all_accepted(replies(m, append_events(paths))),
    decreases paths.len(),
{
    let evs = append_events(paths);
    if paths.len() == 0 {
        assert(m.queue + path_views(paths) =~= m.queue);
    } else {
        let front = append_events(paths.drop_last());
        let tail = seq![
            Event::Command(NodeRodioCommand::Append(paths.last())),
            Event::Decoded { ok: true },
        ];
        lemma_appends(m, paths.drop_last());
        lemma_run_concat(m, front, tail);
        let mid = after(m, front);
        let one = Seq::<Event>::empty().push(tail[0]);
        assert(one.push(tail[1]) =~= tail);
        lemma_run_push(mid, Seq::empty(), tail[0]);
        lemma_run_push(mid, one, tail[1]);
        assert(path_views(paths) =~= path_views(paths.drop_last()).push(paths.last()@));
        assert(m.queue + path_views(paths) =~= (m.queue + path_views(paths.drop_last())).push(
            paths.last()@,
        ));
        let rs = replies(m, evs);
        assert(rs =~= replies(m, front) + replies(mid, tail));
        assert(replies(mid, tail) =~= seq![
            Ok::<Action, ChannelClosed>(Action::Decode(paths.last())),
            Ok::<Action, ChannelClosed>(Action::Append),
        ]);
        lemma_replies_len(m, front);
        assert forall|i: int| 0 <= i < rs.len() implies (#[trigger] rs[i]) is Ok by {
            if i >= replies(m, front).len() {
                assert(rs[i] == replies(mid, tail)[i - replies(m, front).len()]);
            }
        }
    }
}

/// Items are played in the order they were appended: after any sequence of
/// well-decoded appends followed by `Play`, the sink's queue holds the new
/// paths in the order given, after what it held before, and it is playing.
pub proof fn lemma_appends_then_play_in_order(m: WorkerView, paths: Seq<String>)
    requires
        !terminated(m),
    ensures
        ({
            let evs = append_events(paths).push(Event::Command(NodeRodioCommand::Play));
            &&& after(m, evs).queue == m.queue + path_views(paths)
            &&& after(m, evs).state == PlaybackState::Playing
            &&& all_accepted(replies(m, evs))
        }),
{
    let front = append_events(paths);
    let evs = front.push(Event::Command(NodeRodioCommand::Play));
    lemma_appends(m, paths);
    lemma_replies_len(m, front);
    assert(evs.drop_last() =~= front);
    let rs = replies(m, evs);
    assert forall|i: int| 0 <= i < rs.len() implies (#[trigger] rs[i]) is Ok by {
        if i < front.len() {
            assert(rs[i] == replies(m, front)[i]);
        }
    }
}

/// A `Volume` command takes effect at once, whatever the transport state:
/// the gain becomes its level, nothing else changes, and the sink is told.
pub proof fn lemma_volume_applies_in_any_state(m: WorkerView, level: u32)
    requires
        !terminated(m),
    ensures
        next(m, Event::Command(NodeRodioCommand::Volume(level))).0 == (WorkerView {
            gain: Some(level),
            ..m
        }),
        next(m, Event::Command(NodeRodioCommand::Volume(level))).1 == Ok::<Action, ChannelClosed>(
            Action::SetVolume(level),
        ),
{
}

/// The latest `Volume` wins: as long as the worker runs, its gain is that of
/// the last `Volume` command it has seen.
pub proof fn lemma_latest_volume_wins(m: WorkerView, events: Seq<Event>)
    requires
        !terminated(after(m, events)),
    ensures
        after(m, events).gain == last_volume(m.gain, events),
    decreases events.len(),
{
    if events.len() > 0 {
        let prev = after(m, events.drop_last());
        if terminated(prev) {
            assert(next(prev, events.last()).0 == prev);
        }
        lemma_latest_volume_wins(m, events.drop_last());
    }
}

/// However many `Volume` commands reach the worker, in whatever order the
/// channel delivered them, each is applied in turn and the final gain is
/// that of the last one delivered.
pub proof fn lemma_last_delivered_volume_wins(m: WorkerView, levels: Seq<u32>)
    requires
        !terminated(m),
        levels.len() > 0,
    ensures
        after(m, volume_events(levels)).gain == Some(levels.last()),
        after(m, volume_events(levels)).state == m.state,
        replies(m, volume_events(levels)).len() == levels.len(),
        forall|i: int| 0 <= i < levels.len() ==> #[trigger] replies(m, volume_events(levels))[i]
            == Ok::<Action, ChannelClosed>(Action::SetVolume(levels[i])),
    decreases levels.len(),
{
    let evs = volume_events(levels);
    let front = volume_events(levels.drop_last());
    assert(evs.drop_last() =~= front);
    lemma_replies_len(m, evs);
    if levels.len() > 1 {
        lemma_last_delivered_volume_wins(m, levels.drop_last());
    } else {
        assert(front =~= Seq::<Event>::empty());
    }
    assert forall|i: int| 0 <= i < levels.len() implies #[trigger] replies(m, evs)[i]
        == Ok::<Action, ChannelClosed>(Action::SetVolume(levels[i])) by {
        if i < levels.len() - 1 {
            assert(replies(m, evs)[i] == replies(m, front)[i]);
        }
    }
}

/// `Stop` is final: once it is taken in, the worker is terminated, and every
/// later event is refused with `ChannelClosed` and changes nothing.
pub proof fn lemma_stop_is_final(m: WorkerView, events: Seq<Event>)
    requires
        !terminated(m),
    ensures
        ({
            let (stopped, reply) = next(m, Event::Command(NodeRodioCommand::Stop));
            &&& reply == Ok::<Action, ChannelClosed>(Action::Stop)
            &&& terminated(stopped)
            &&& after(stopped, events) == stopped
            &&& replies(stopped, events).len() == events.len()
            &&& forall|i: int| 0 <= i < events.len() ==> #[trigger] replies(stopped, events)[i]
                == Err::<Action, ChannelClosed>(ChannelClosed)
        }),
{
    lemma_terminated_absorbs(next(m, Event::Command(NodeRodioCommand::Stop)).0, events);
}

/// Whether `events` hold a `Play` command before position `n`.
pub open spec fn played_before(events: Seq<Event>, n: int) -> bool {
    exists|j: int| 0 <= j < n && (#[trigger] events[j] matches Event::Command(NodeRodioCommand::Play))
}

/// Whether `events` hold an `Append` command before position `n`.
pub open spec fn append_before(events: Seq<Event>, n: int) -> bool {
    exists|j: int| 0 <= j < n && (#[trigger] events[j] matches Event::Command(NodeRodioCommand::Append(_)))
}

/// Whether `events` hold, before position `n`, an `Append` command followed
/// by a successful decode.
pub open spec fn appended_before(events: Seq<Event>, n: int) -> bool {
    exists|j: int, k: int| 0 <= j < k < n
        && (#[trigger] events[j] matches Event::Command(NodeRodioCommand::Append(_)))
        && #[trigger] events[k] == (Event::Decoded { ok: true })
}

/// Whether `events` hold a `Stop` command or the loss of every sender.
pub open spec fn ends_early(events: Seq<Event>) -> bool {
    exists|j: int| 0 <= j < events.len() && {
        ||| (#[trigger] events[j] matches Event::Command(NodeRodioCommand::Stop))
        ||| events[j] is Disconnected
    }
}

proof fn lemma_latch_has_witnesses(events: Seq<Event>)
    requires
        !ends_early(events),
    ensures
        after(initial(), events).decoding is Some ==> append_before(events, events.len() as int),
        after(initial(), events).latch.appended_once ==> appended_before(events, events.len() as int),
        after(initial(), events).latch.played_once ==> played_before(events, events.len() as int),
        terminated(after(initial(), events)) ==> after(initial(), events).latch.appended_once
            && after(initial(), events).latch.played_once,
    decreases events.len(),
{
    if events.len() > 0 {
        let front = events.drop_last();
        let n = events.len() - 1;
        assert forall|j: int| 0 <= j < front.len() implies !({
            ||| (#[trigger] front[j] matches Event::Command(NodeRodioCommand::Stop))
            ||| front[j] is Disconnected
        }) by {
            assert(front[j] == events[j]);
        }
        lemma_latch_has_witnesses(front);
        let prev = after(initial(), front);
        let cur = after(initial(), events);
        assert(!({
            ||| (events[n] matches Event::Command(NodeRodioCommand::Stop))
            ||| events[n] is Disconnected
        }));
        if prev.decoding is Some {
            let j = choose|j: int| 0 <= j < front.len() && (#[trigger] front[j] matches Event::Command(NodeRodioCommand::Append(_)));
            assert(events[j] == front[j]);
        }
        if prev.latch.appended_once {
            let (j, k) = choose|j: int, k: int| 0 <= j < k < front.len()
                && (#[trigger] front[j] matches Event::Command(NodeRodioCommand::Append(_)))
                && #[trigger] front[k] == (Event::Decoded { ok: true });
            assert(events[j] == front[j] && events[k] == front[k]);
        }
        if prev.latch.played_once {
            let j = choose|j: int| 0 <= j < front.len() && (#[trigger] front[j] matches Event::Command(NodeRodioCommand::Play));
            assert(events[j] == front[j]);
        }
        if cur.decoding is Some && events[n] matches Event::Command(NodeRodioCommand::Append(_)) {
            assert(append_before(events, events.len() as int));
        }
        if cur.latch.appended_once && !prev.latch.appended_once {
            assert(events[n] == (Event::Decoded { ok: true }));
            let j = choose|j: int| 0 <= j < front.len() && (#[trigger] front[j] matches Event::Command(NodeRodioCommand::Append(_)));
            assert(events[j] == front[j]);
            assert(appended_before(events, events.len() as int));
        }
        if cur.latch.played_once && !prev.latch.played_once {
            assert(events[n] matches Event::Command(NodeRodioCommand::Play));
        }
    }
}

/// No false completion: short of a `Stop` or the loss of every sender, the
/// waiters are notified only after at least one `Append` has been decoded and
/// appended and at least one `Play` has been taken in, even when a `Wait`
/// comes first on a freshly started worker.
pub proof fn lemma_no_completion_before_append_and_play(events: Seq<Event>, i: int)
    requires
        !ends_early(events),
        0 <= i < events.len(),
        fires(replies(initial(), events)[i]),
    ensures
        appended_before(events, i),
        played_before(events, i),
{
    lemma_reply_at(initial(), events, i);
    let front = events.take(i);
    assert forall|j: int| 0 <= j < front.len() implies !({
        ||| (#[trigger] front[j] matches Event::Command(NodeRodioCommand::Stop))
        ||| front[j] is Disconnected
    }) by {
        assert(front[j] == events[j]);
    }
    lemma_latch_has_witnesses(front);
    let prev = after(initial(), front);
    assert(!(events[i] matches Event::Command(NodeRodioCommand::Stop)));
    assert(prev.latch.appended_once && prev.latch.played_once);
    let (j, k) = choose|j: int, k: int| 0 <= j < k < front.len()
        && (#[trigger] front[j] matches Event::Command(NodeRodioCommand::Append(_)))
        && #[trigger] front[k] == (Event::Decoded { ok: true });
    assert(events[j] == front[j] && events[k] == front[k]);
    let p = choose|p: int| 0 <= p < front.len() && (#[trigger] front[p] matches Event::Command(NodeRodioCommand::Play));
    assert(events[p] == front[p]);
}

/// Natural completion waits for the sink: it comes only from a poll in which
/// the sink reported nothing left to play, while playing, after something was
/// appended.
pub proof fn lemma_completion_needs_drained_sink(m: WorkerView, e: Event)
    requires
        next(m, e).1 == Ok::<Action, ChannelClosed>(Action::Complete),
    ensures
        e == (Event::Polled { sink_empty: true }),
        m.state == PlaybackState::Playing,
        m.latch.appended_once,
        m.latch.played_once,
{
}

/// A resource that fails to decode is skipped: the worker keeps running in
/// the state it was in, and a following well-decoded `Append` and `Play`
/// still queue that resource and start playback.
pub proof fn lemma_bad_append_is_skipped(m: WorkerView, bad: String, good: String)
    requires
        !terminated(m),
    ensures
        ({
            let skip = seq![
                Event::Command(NodeRodioCommand::Append(bad)),
                Event::Decoded { ok: false },
            ];
            let evs = skip + seq![
                Event::Command(NodeRodioCommand::Append(good)),
                Event::Decoded { ok: true },
                Event::Command(NodeRodioCommand::Play),
            ];
            &&& after(m, skip) == (WorkerView { decoding: None, ..m })
            &&& after(m, evs).state == PlaybackState::Playing
            &&& after(m, evs).queue == m.queue.push(good@)
            &&& after(m, evs).latch == (CompletionLatch { appended_once: true, played_once: true })
            &&& all_accepted(replies(m, evs))
        }),
{
    let skip = seq![Event::Command(NodeRodioCommand::Append(bad)), Event::Decoded { ok: false }];
    let rest = seq![
        Event::Command(NodeRodioCommand::Append(good)),
        Event::Decoded { ok: true },
        Event::Command(NodeRodioCommand::Play),
    ];
    let evs = skip + rest;
    let s1 = Seq::<Event>::empty().push(skip[0]);
    assert(s1.push(skip[1]) =~= skip);
    lemma_run_push(m, Seq::empty(), skip[0]);
    lemma_run_push(m, s1, skip[1]);
    let mid = after(m, skip);
    let r1 = Seq::<Event>::empty().push(rest[0]);
    let r2 = r1.push(rest[1]);
    assert(r2.push(rest[2]) =~= rest);
    lemma_run_push(mid, Seq::empty(), rest[0]);
    lemma_run_push(mid, r1, rest[1]);
    lemma_run_push(mid, r2, rest[2]);
    lemma_run_concat(m, skip, rest);
    let rs = replies(m, evs);
    assert(rs =~= replies(m, skip) + replies(after(m, skip), rest));
    lemma_replies_len(m, skip);
    lemma_replies_len(after(m, skip), rest);
    assert forall|i: int| 0 <= i < rs.len() implies (#[trigger] rs[i]) is Ok by {
        if i < 2 {
            assert(rs[i] == replies(m, skip)[i]);
        } else {
            assert(rs[i] == replies(after(m, skip), rest)[i - 2]);
        }
    }
}

/// The waiters are notified at most once in any run: after a reply that
/// notifies them, the worker has terminated and answers nothing else.
pub proof fn lemma_fires_at_most_once(m: WorkerView, events: Seq<Event>, i: int, j: int)
    requires
        0 <= i < events.len(),
        0 <= j < events.len(),
        fires(replies(m, events)[i]),
        fires(replies(m, events)[j]),
    ensures
        i == j,
{
    if i != j {
        let (a, b) = if i < j { (i, j) } else { (j, i) };
        lemma_reply_at(m, events, a);
        lemma_reply_at(m, events, b);
        let done = after(m, events.take(a + 1));
        assert(terminated(done));
        let gap = events.subrange(a + 1, b);
        assert(events.take(b) =~= events.take(a + 1) + gap);
        lemma_run_concat(m, events.take(a + 1), gap);
        lemma_terminated_absorbs(done, gap);
    }
}

} // verus!
