//! The display loop as a state machine.
//!
//! The caller does what cannot be decided: it reads the shared flags, captures and
//! presents the frame and waits for a key. After each of these it reports what happened
//! and is told what to do next. Times are in milliseconds.

use crate::pane::channel_selector::safe_index;
use vstd::prelude::*;

verus! {

/// The key code that ends the display: the letter `q`.
pub const STOP_KEY: i32 = 113;

/// Whether the loop still runs.
#[derive(Clone, Copy, Debug, PartialEq, Eq, Structural)]
pub enum LoopState {
    Running,
    Stopped,
}

/// What the caller observed.
#[derive(Clone, Copy, Debug, PartialEq, Eq, Structural)]
pub enum LoopEvent {
    /// An iteration starts: the cancellation flag and the published channel index as
    /// they were read.
    IterationStarted { cancelled: bool, published_index: usize },
    /// The frame was captured, composed and presented: the frame duration of its channel
    /// and the time since the capture began.
    FramePresented { frame_duration: u64, elapsed: u64 },
    /// The wait for a key ended with this key code.
    KeyPolled { key: i32 },
}

/// What the caller does next.
#[derive(Clone, Copy, Debug, PartialEq, Eq, Structural)]
pub enum LoopAction {
    /// Capture a frame from this channel, compose the overlays and present it.
    ShowChannel { channel: usize },
    /// Wait for a key for at most this many milliseconds.
    WaitForKey { millis: i32 },
    /// Begin the next iteration.
    NextIteration,
    /// Leave the loop and tell the background services to stop.
    Shutdown,
}

/// What is left of a frame's time after `elapsed` of it has passed.
pub open spec fn budget_left(frame_duration: int, elapsed: int) -> int {
    if elapsed < frame_duration {
        frame_duration - elapsed
    } else {
        0
    }
}

/// The time to wait for a key: the budget, but at least one millisecond, since a wait of
/// zero would not return before a key is pressed, and at most what the wait can count.
pub open spec fn key_wait(budget: int) -> int {
    if budget < 1 {
        1
    } else if budget > i32::MAX {
        i32::MAX as int
    } else {
        budget
    }
}

/// The state after `event` and what the caller does next.
///
/// A stopped loop stays stopped. A running loop stops when it starts an iteration with
/// the cancellation flag set or without a channel to show, and when the stop key was
/// pressed.
pub open spec fn transition(state: LoopState, channel_count: int, event: LoopEvent) -> (
    LoopState,
    LoopAction,
) {
    match state {
        LoopState::Stopped => (LoopState::Stopped, LoopAction::Shutdown),
        LoopState::Running => match event {
            LoopEvent::IterationStarted { cancelled, published_index } => {
                if cancelled || channel_count <= 0 {
                    (LoopState::Stopped, LoopAction::Shutdown)
                } else {
                    (
                        LoopState::Running,
                        LoopAction::ShowChannel {
                            channel: safe_index(published_index as int, channel_count) as usize,
                        },
                    )
                }
            },
            LoopEvent::FramePresented { frame_duration, elapsed } => (
                LoopState::Running,
                LoopAction::WaitForKey {
                    millis: key_wait(budget_left(frame_duration as int, elapsed as int)) as i32,
                },
            ),
            LoopEvent::KeyPolled { key } => {
                if key == STOP_KEY {
                    (LoopState::Stopped, LoopAction::Shutdown)
                } else {
                    (LoopState::Running, LoopAction::NextIteration)
                }
            },
        },
    }
}

/// What is left of a frame's time after `elapsed` of it has passed.
pub fn remaining_budget(frame_duration: u64, elapsed: u64) -> (budget: u64)
    ensures
        budget == budget_left(frame_duration as int, elapsed as int),
{
    if elapsed < frame_duration {
        frame_duration - elapsed
    } else {
        0
    }
}

/// The number of milliseconds to wait for a key with `budget` left.
pub fn key_wait_millis(budget: u64) -> (millis: i32)
    ensures
        millis == key_wait(budget as int),
        millis >= 1,
{
    if budget < 1 {
        1
    } else if budget > 0x7fff_ffff {
        i32::MAX
    } else {
        budget as i32
    }
}

/// Whether `key` is the key that ends the display.
pub fn is_stop_key(key: i32) -> (stop: bool)
    ensures
        stop == (key == STOP_KEY),
{
    key == STOP_KEY
}

/// The display loop over a fixed number of channels.
pub struct DisplayLoop {
    state: LoopState,
    channel_count: usize,
}

impl DisplayLoop {
    /// The state of the loop.
    pub closed spec fn state(self) -> LoopState {
        self.state
    }

    /// The number of channels that the loop shows.
    pub closed spec fn channel_count(self) -> int {
        self.channel_count as int
    }

    /// A running loop over `channel_count` channels.
    pub fn new(channel_count: usize) -> (display: Self)
        ensures
            display.state() == LoopState::Running,
            display.channel_count() == channel_count,
    {
        DisplayLoop { state: LoopState::Running, channel_count }
    }

    /// Whether the loop still runs.
    pub fn is_running(&self) -> (running: bool)
        ensures
            running == (self.state() == LoopState::Running),
    {
        match self.state {
            LoopState::Running => true,
            LoopState::Stopped => false,
        }
    }

    /// Takes in what the caller observed and says what it does next.
    ///
    /// A channel that is to be shown is always one of the loop's channels.
    pub fn step(&mut self, event: LoopEvent) -> (action: LoopAction)
        ensures
            (final(self).state(), action) == transition(
                old(self).state(),
                old(self).channel_count(),
                event,
            ),
            final(self).channel_count() == old(self).channel_count(),
            action matches LoopAction::ShowChannel { channel } ==> channel < old(
                self,
            ).channel_count(),
            action == LoopAction::Shutdown <==> final(self).state() == LoopState::Stopped,
            old(self).state() == LoopState::Stopped ==> final(self).state() == LoopState::Stopped,
    {
        match self.state {
            LoopState::Stopped => LoopAction::Shutdown,
            LoopState::Running => match event {
                LoopEvent::IterationStarted { cancelled, published_index } => {
                    if cancelled || self.channel_count == 0 {
                        self.state = LoopState::Stopped;
                        LoopAction::Shutdown
                    } else {
                        let channel = if published_index >= self.channel_count {
                            0
                        } else {
                            published_index
                        };
                        LoopAction::ShowChannel { channel }
                    }
                },
                LoopEvent::FramePresented { frame_duration, elapsed } => {
                    let budget = remaining_budget(frame_duration, elapsed);
                    LoopAction::WaitForKey { millis: key_wait_millis(budget) }
                },
                LoopEvent::KeyPolled { key } => {
                    if is_stop_key(key) {
                        self.state = LoopState::Stopped;
                        LoopAction::Shutdown
                    } else {
                        LoopAction::NextIteration
                    }
                },
            },
        }
    }
}

} // verus!
