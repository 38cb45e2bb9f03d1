//! The playback worker's decisions.
//!
//! The worker loop owns the sink and feeds every event it observes to
//! [`PlaybackWorker::step`], then carries out the [`Action`] it gets back.
//! [`next`] is the transition table that `step` implements.
use vstd::prelude::*;

use crate::command::{ChannelClosed, NodeRodioCommand};

verus! {

/// Where playback stands.
#[derive(Debug, Clone, Copy, PartialEq, Eq, Structural)]
pub enum PlaybackState {
    /// Nothing queued and never started. The sink is created paused.
    Idle,
    /// Something queued, not started yet.
    Queued,
    /// The sink is playing.
    Playing,
    /// The sink was playing and has been paused.
    Paused,
    /// The worker has stopped for good.
    Terminated,
}

/// What the worker has seen so far, to tell a controller that never started
/// from one that finished everything.
#[derive(Debug, Clone, Copy, PartialEq, Eq, Structural)]
pub struct CompletionLatch {
    /// A resource was decoded and appended to the sink at least once.
    pub appended_once: bool,
    /// Playback was started at least once.
    pub played_once: bool,
}

/// What the worker loop observes.
#[derive(Debug, Clone)]
pub enum Event {
    /// A command taken from the channel.
    Command(NodeRodioCommand),
    /// The outcome of the decode asked for by [`Action::Decode`].
    Decoded { ok: bool },
    /// The poll for a command timed out; the sink reports whether it has
    /// audio left to play.
    Polled { sink_empty: bool },
    /// Every sender of the channel is gone.
    Disconnected,
}

/// What the worker loop does next.
#[derive(Debug, Clone, PartialEq, Eq)]
pub enum Action {
    /// Nothing.
    Nothing,
    /// Open and decode the resource at this path, then report the outcome
    /// with [`Event::Decoded`].
    Decode(String),
    /// Append the source just decoded to the sink.
    Append,
    /// Start or resume the sink.
    Play,
    /// Pause the sink.
    Pause,
    /// Set the sink's gain (the bit pattern of an `f32`).
    SetVolume(u32),
    /// Keep the waiter that came with the command until completion.
    Enlist,
    /// Stop the sink, detach it, notify the waiters and leave the loop.
    Stop,
    /// The queue has drained: detach the sink, notify the waiters and leave
    /// the loop.
    Complete,
    /// Nobody can send any more: detach the sink and leave the loop; the
    /// waiters are dropped without notice.
    Shutdown,
}

/// The worker's state as a mathematical value.
pub struct WorkerView {
    pub state: PlaybackState,
    pub latch: CompletionLatch,
    /// The last gain set, if any.
    pub gain: Option<u32>,
    /// The path whose decode is awaited, if any.
    pub decoding: Option<Seq<char>>,
    /// Every path appended to the sink, in the order of appending: the order
    /// in which the sink plays them.
    pub queue: Seq<Seq<char>>,
}

/// The worker's state when it starts.
pub open spec fn initial() -> WorkerView {
    WorkerView {
        state: PlaybackState::Idle,
        latch: CompletionLatch { appended_once: false, played_once: false },
        gain: None,
        decoding: None,
        queue: Seq::empty(),
    }
}

/// Whether the worker has stopped for good.
pub open spec fn terminated(m: WorkerView) -> bool {
    m.state is Terminated
}

/// The transition table: the next state, and what the worker does, when `e`
/// is observed in state `m`.
pub open spec fn next(m: WorkerView, e: Event) -> (WorkerView, Result<Action, ChannelClosed>) {
    if terminated(m) {
        (m, Err(ChannelClosed))
    } else {
        match e {
            Event::Command(c) => match c {
                NodeRodioCommand::Append(path) => (
                    WorkerView { decoding: Some(path@), ..m },
                    Ok(Action::Decode(path)),
                ),
                NodeRodioCommand::Play => (
                    WorkerView {
                        state: PlaybackState::Playing,
                        latch: CompletionLatch { played_once: true, ..m.latch },
                        ..m
                    },
                    Ok(if m.state is Playing { Action::Nothing } else { Action::Play }),
                ),
                NodeRodioCommand::Pause => if m.state is Playing {
                    (WorkerView { state: PlaybackState::Paused, ..m }, Ok(Action::Pause))
                } else {
                    (m, Ok(Action::Nothing))
                },
                NodeRodioCommand::Stop => (
                    WorkerView { state: PlaybackState::Terminated, ..m },
                    Ok(Action::Stop),
                ),
                NodeRodioCommand::Volume(level) => (
                    WorkerView { gain: Some(level), ..m },
                    Ok(Action::SetVolume(level)),
                ),
                NodeRodioCommand::Wait => (m, Ok(Action::Enlist)),
            },
            Event::Decoded { ok } => match m.decoding {
                None => (m, Ok(Action::Nothing)),
                Some(path) => if ok {
                    (
                        WorkerView {
                            state: if m.state is Idle { PlaybackState::Queued } else { m.state },
                            latch: CompletionLatch { appended_once: true, ..m.latch },
                            decoding: None,
                            queue: m.queue.push(path),
                            ..m
                        },
                        Ok(Action::Append),
                    )
                } else {
                    (WorkerView { decoding: None, ..m }, Ok(Action::Nothing))
                },
            },
            Event::Polled { sink_empty } => if m.state is Playing && sink_empty
                && m.latch.appended_once && m.latch.played_once {
                (WorkerView { state: PlaybackState::Terminated, ..m }, Ok(Action::Complete))
            } else {
                (m, Ok(Action::Nothing))
            },
            Event::Disconnected => (
                WorkerView { state: PlaybackState::Terminated, ..m },
                Ok(Action::Shutdown),
            ),
        }
    }
}

/// The decision-making half of the playback worker.
pub struct PlaybackWorker {
    state: PlaybackState,
    latch: CompletionLatch,
    gain: Option<u32>,
    decoding: bool,
    pending: Ghost<Seq<char>>,
    queue: Ghost<Seq<Seq<char>>>,
}

impl View for PlaybackWorker {
    type V = WorkerView;

    closed spec fn view(&self) -> WorkerView {
        WorkerView {
            state: self.state,
            latch: self.latch,
            gain: self.gain,
            decoding: if self.decoding { Some(self.pending@) } else { None },
            queue: self.queue@,
        }
    }
}

impl PlaybackWorker {
    /// A worker that has seen nothing yet.
    pub fn new() -> (r: PlaybackWorker)
        ensures
            r@ == initial(),
    {
        PlaybackWorker {
            state: PlaybackState::Idle,
            latch: CompletionLatch { appended_once: false, played_once: false },
            gain: None,
            decoding: false,
            pending: Ghost(Seq::empty()),
            queue: Ghost(Seq::empty()),
        }
    }

    /// Takes in one event and says what to do about it. Once the worker has
    /// terminated, every event is refused with `ChannelClosed` and nothing
    /// changes.
    pub fn step(&mut self, event: Event) -> (r: Result<Action, ChannelClosed>)
        ensures
            (final(self)@, r) == next(old(self)@, event),
    {
        if self.state == PlaybackState::Terminated {
            return Err(ChannelClosed);
        }
        match event {
            Event::Command(c) => match c {
                NodeRodioCommand::Append(path) => {
                    self.decoding = true;
                    self.pending = Ghost(path@);
                    Ok(Action::Decode(path))
                },
                NodeRodioCommand::Play => {
                    let was_playing = self.state == PlaybackState::Playing;
                    self.state = PlaybackState::Playing;
                    self.latch.played_once = true;
                    if was_playing {
                        Ok(Action::Nothing)
                    } else {
                        Ok(Action::Play)
                    }
                },
                NodeRodioCommand::Pause => {
                    if self.state == PlaybackState::Playing {
                        self.state = PlaybackState::Paused;
                        Ok(Action::Pause)
                    } else {
                        Ok(Action::Nothing)
                    }
                },
                NodeRodioCommand::Stop => {
                    self.state = PlaybackState::Terminated;
                    Ok(Action::Stop)
                },
                NodeRodioCommand::Volume(level) => {
                    self.gain = Some(level);
                    Ok(Action::SetVolume(level))
                },
                NodeRodioCommand::Wait => Ok(Action::Enlist),
            },
            Event::Decoded { ok } => {
                if !self.decoding {
                    Ok(Action::Nothing)
                } else {
                    self.decoding = false;
                    if ok {
                        if self.state == PlaybackState::Idle {
                            self.state = PlaybackState::Queued;
                        }
                        self.latch.appended_once = true;
                        self.queue = Ghost(self.queue@.push(self.pending@));
                        Ok(Action::Append)
                    } else {
                        Ok(Action::Nothing)
                    }
                }
            },
            Event::Polled { sink_empty } => {
                if self.state == PlaybackState::Playing && sink_empty && self.latch.appended_once
                    && self.latch.played_once {
                    self.state = PlaybackState::Terminated;
                    Ok(Action::Complete)
                } else {
                    Ok(Action::Nothing)
                }
            },
            Event::Disconnected => {
                self.state = PlaybackState::Terminated;
                Ok(Action::Shutdown)
            },
        }
    }

    /// Where playback stands.
    pub fn state(&self) -> (r: PlaybackState)
        ensures
            r == self@.state,
    {
        self.state
    }

    /// What the worker has seen so far.
    pub fn latch(&self) -> (r: CompletionLatch)
        ensures
            r == self@.latch,
    {
        self.latch
    }

    /// The last gain set, as the bit pattern of an `f32`.
    pub fn gain(&self) -> (r: Option<u32>)
        ensures
            r == self@.gain,
    {
        self.gain
    }

    /// Whether the worker has stopped for good.
    pub fn is_terminated(&self) -> (r: bool)
        ensures
            r == terminated(self@),
    {
        self.state == PlaybackState::Terminated
    }
}

} // verus!
