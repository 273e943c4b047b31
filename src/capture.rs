//! The decisions of a capture loop, one modality each. The loop itself, which
//! opens the device, polls it and sleeps, runs outside the library and asks
//! these functions what to do next.
//!
//! Resource policy: when a stream loses its last subscriber the loop releases
//! both the frame iterator and the device resource, so an idle modality holds
//! nothing.
use vstd::prelude::*;

use crate::channel::FrameChannel;
use crate::frame::RawFrame;

verus! {

/// Milliseconds an idle loop sleeps before it reads the subscriber signal again.
pub const IDLE_WAIT_MS: u64 = 30;

/// Milliseconds a capturing loop waits when the device has no frame ready.
pub const NO_FRAME_WAIT_MS: u64 = 5;

/// Milliseconds a publish loop waits when its channel is empty.
pub const EMPTY_CHANNEL_WAIT_MS: u64 = 5;

/// Whether the loop holds the device resource and its frame iterator.
#[derive(Clone, Copy, Debug, PartialEq, Eq, Structural)]
pub enum CaptureState {
    Idle,
    Capturing,
}

/// What the loop should do next.
#[derive(Clone, Copy, Debug, PartialEq, Eq, Structural)]
pub enum CaptureAction {
    /// Open the device resource and its frame iterator, then report back.
    Acquire,
    /// Ask the iterator for the next frame and report what came back.
    Poll,
    /// Drop the iterator and the device resource.
    Release,
    /// Sleep `IDLE_WAIT_MS`, then ask again.
    WaitIdle,
}

/// What one poll of the frame iterator gave.
pub enum PollOutcome {
    /// A frame.
    Frame(RawFrame),
    /// No frame ready yet; not the end of the stream.
    NotReady,
    /// A transient per-frame error.
    Failed,
}

/// What became of a poll.
#[derive(Clone, Copy, Debug, PartialEq, Eq, Structural)]
pub enum PollResult {
    /// The frame went into the channel.
    Queued,
    /// The channel was full and the frame was dropped.
    Dropped,
    /// The poll failed; keep polling.
    Failed,
    /// Nothing was ready; sleep `NO_FRAME_WAIT_MS` before the next poll.
    NothingYet,
}

/// The action for a state and the current gate reading.
pub open spec fn action_for(state: CaptureState, active: bool) -> CaptureAction {
    match (state, active) {
        (CaptureState::Idle, false) => CaptureAction::WaitIdle,
        (CaptureState::Idle, true) => CaptureAction::Acquire,
        (CaptureState::Capturing, false) => CaptureAction::Release,
        (CaptureState::Capturing, true) => CaptureAction::Poll,
    }
}

/// Capture-loop state: whether the device is held, and how many frames came in.
pub struct CaptureLoop {
    pub state: CaptureState,
    pub frames_captured: u64,
}

impl CaptureLoop {
    /// A loop that holds nothing and has seen no frame.
    pub fn new() -> (r: Self)
        ensures
            r.state == CaptureState::Idle,
            r.frames_captured == 0,
    {
        CaptureLoop { state: CaptureState::Idle, frames_captured: 0 }
    }

    /// Picks the next action from the subscriber signal. Choosing to release moves the
    /// loop to idle at once; acquiring waits for `acquired`.
    pub fn next_action(&mut self, active: bool) -> (r: CaptureAction)
        ensures
            r == action_for(old(self).state, active),
            final(self).state == (if r == CaptureAction::Release {
                CaptureState::Idle
            } else {
                old(self).state
            }),
            final(self).frames_captured == old(self).frames_captured,
    {
        match self.state {
            CaptureState::Idle => {
                if active {
                    CaptureAction::Acquire
                } else {
                    CaptureAction::WaitIdle
                }
            },
            CaptureState::Capturing => {
                if active {
                    CaptureAction::Poll
                } else {
                    self.state = CaptureState::Idle;
                    CaptureAction::Release
                }
            },
        }
    }

    /// Records that the device resource and its iterator were opened.
    pub fn acquired(&mut self)
        ensures
            final(self).state == CaptureState::Capturing,
            final(self).frames_captured == old(self).frames_captured,
    {
        self.state = CaptureState::Capturing;
    }

    /// Handles what a poll gave: a frame goes into the channel without
    /// blocking (dropped when the channel is full) and is counted.
    pub fn handle_poll(&mut self, outcome: PollOutcome, channel: &mut FrameChannel) -> (r: PollResult)
        requires
            old(channel).wf(),
        ensures
            final(channel).wf(),
            final(self).state == old(self).state,
            match outcome {
                PollOutcome::Frame(f) => {
                    &&& final(channel)@ == old(channel)@.after_push(f)
                    &&& final(self).frames_captured == (if old(self).frames_captured < u64::MAX {
                        (old(self).frames_captured + 1) as u64
                    } else {
                        old(self).frames_captured
                    })
                    &&& r == (if old(channel)@.items.len() < old(channel)@.capacity {
                        PollResult::Queued
                    } else {
                        PollResult::Dropped
                    })
                },
                PollOutcome::NotReady => {
                    &&& final(channel)@ == old(channel)@
                    &&& final(self).frames_captured == old(self).frames_captured
                    &&& r == PollResult::NothingYet
                },
                PollOutcome::Failed => {
                    &&& final(channel)@ == old(channel)@
                    &&& final(self).frames_captured == old(self).frames_captured
                    &&& r == PollResult::Failed
                },
            },
    {
        match outcome {
            PollOutcome::Frame(f) => {
                self.frames_captured = self.frames_captured.saturating_add(1);
                if channel.push(f) {
                    PollResult::Queued
                } else {
                    PollResult::Dropped
                }
            },
            PollOutcome::NotReady => PollResult::NothingYet,
            PollOutcome::Failed => PollResult::Failed,
        }
    }
}

} // verus!
