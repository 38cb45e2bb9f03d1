//! The commands that callers send to the playback worker.
use vstd::prelude::*;

verus! {

/// A command for the playback worker, in the order callers sent it.
#[derive(Debug, Clone)]
pub enum NodeRodioCommand {
    /// Queues the audio resource at this path after everything already queued.
    Append(String),
    /// Starts or resumes playback.
    Play,
    /// Pauses playback; does nothing if already paused.
    Pause,
    /// Stops playback for good: no later command has any effect.
    Stop,
    /// Sets the output gain. The gain is an `f32` carried as its bit pattern
    /// (`f32::to_bits`); the worker hands it to the sink unchanged.
    Volume(u32),
    /// Asks to be told when playback has completed.
    Wait,
}

/// The worker has terminated and accepts no more commands.
#[derive(Debug, Clone, Copy, PartialEq, Eq, Structural)]
pub struct ChannelClosed;

} // verus!
