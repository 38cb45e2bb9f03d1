//! Playback control for a single audio output.
//!
//! Any number of caller threads queue commands for one worker thread, which
//! alone owns the audio sink. The worker's decisions are a state machine
//! ([`PlaybackWorker`]): each event it observes (a command, the outcome of a
//! decode, a poll of the sink, the loss of every sender) yields the next state
//! and one action for the worker loop to carry out on the sink.
pub mod command;
pub mod worker;
pub mod laws;

pub use command::{ChannelClosed, NodeRodioCommand};
pub use worker::{Action, CompletionLatch, Event, PlaybackState, PlaybackWorker};

