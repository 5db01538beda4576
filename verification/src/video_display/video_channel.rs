//! The timing of one video channel.

use vstd::prelude::*;

verus! {

/// How one channel paces its frames and its motion checks, in milliseconds.
///
/// Invariant: the background lag is positive, so that the background is a frame captured
/// earlier than the one it is compared with.
#[derive(Clone, Copy, Debug, PartialEq, Eq)]
pub struct VideoChannelSettings {
    frame_duration: u64,
    mvn_update_interval: u64,
    mvn_comparison_interval: u64,
}

impl VideoChannelSettings {
    #[verifier::type_invariant]
    spec fn lag_is_positive(self) -> bool {
        self.mvn_comparison_interval > 0
    }

    /// The time one displayed frame is given.
    pub closed spec fn frame_duration(self) -> int {
        self.frame_duration as int
    }

    /// The least time between two motion checks.
    pub closed spec fn motion_check_interval(self) -> int {
        self.mvn_update_interval as int
    }

    /// How far back the frame lies that a new frame is compared with.
    pub closed spec fn background_lag(self) -> int {
        self.mvn_comparison_interval as int
    }

    /// Settings with the given frame duration, interval between motion checks and
    /// background lag.
    pub fn new(frame_duration: u64, mvn_check_interval: u64, mvn_comparison_interval: u64) -> (settings:
        Self)
        requires
            mvn_comparison_interval > 0,
        ensures
            settings.frame_duration() == frame_duration,
            settings.motion_check_interval() == mvn_check_interval,
            settings.background_lag() == mvn_comparison_interval,
    {
        Self {
            frame_duration,
            mvn_update_interval: mvn_check_interval,
            mvn_comparison_interval,
        }
    }

    /// Fifty frames a second, a motion check every fifth frame, against the frame of ten
    /// frames ago.
    pub fn default() -> (settings: Self)
        ensures
            settings.frame_duration() == 20,
            settings.motion_check_interval() == 100,
            settings.background_lag() == 200,
    {
        let frame_duration: u64 = 1000 / 50;
        Self::new(frame_duration, frame_duration * 5, frame_duration * 10)
    }

    pub fn get_frame_duration(&self) -> (duration: u64)
        ensures
            duration == self.frame_duration(),
    {
        self.frame_duration
    }

    pub fn get_motion_check_interval(&self) -> (interval: u64)
        ensures
            interval == self.motion_check_interval(),
    {
        self.mvn_update_interval
    }

    pub fn get_background_lag(&self) -> (lag: u64)
        ensures
            lag == self.background_lag(),
            lag > 0,
    {
        proof {
            use_type_invariant(self);
        }
        self.mvn_comparison_interval
    }
}

} // verus!
