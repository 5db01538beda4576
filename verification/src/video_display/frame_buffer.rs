//! The rolling window of timestamped frames that motion detection compares against.
//!
//! Instants are counted in milliseconds from an origin that the caller fixes once; spans of
//! time are counted in milliseconds too.

use std::collections::VecDeque;
use vstd::prelude::*;

verus! {

/// One frame in its comparison form, with the instant at which it was captured.
#[derive(Debug, PartialEq, Eq)]
pub struct TimestampedFrame<I> {
    pub image: I,
    pub captured_at: u64,
}

/// The capture instants of `frames`, in buffer order.
pub open spec fn capture_times<I>(frames: Seq<TimestampedFrame<I>>) -> Seq<int> {
    Seq::new(frames.len(), |i: int| frames[i].captured_at as int)
}

/// No entry of `times` is earlier than an entry before it.
pub open spec fn non_decreasing(times: Seq<int>) -> bool {
    forall|i: int, j: int| 0 <= i <= j < times.len() ==> times[i] <= times[j]
}

/// Every entry of `times` is later than the entry before it.
pub open spec fn strictly_increasing(times: Seq<int>) -> bool {
    forall|i: int, j: int| 0 <= i < j < times.len() ==> times[i] < times[j]
}

/// How many entries at the front of `times` lie strictly before `bound`.
pub open spec fn leading_before(times: Seq<int>, bound: int) -> nat
    decreases times.len(),
{
    if times.len() == 0 || times[0] >= bound {
        0
    } else {
        1 + leading_before(times.drop_first(), bound)
    }
}

/// How many frames at the front were captured before `cutoff`: the frames that a selection
/// at `cutoff` may remove.
pub open spec fn aged_count(times: Seq<int>, cutoff: int) -> nat {
    leading_before(times, cutoff)
}

/// How many frames at the front are too old to serve as background: a frame captured at `t`
/// is stale when even a successor one `window` later would not be past `cutoff`, that is
/// when `t + window <= cutoff`.
pub open spec fn stale_count(times: Seq<int>, cutoff: int, window: int) -> nat {
    leading_before(times, cutoff - window + 1)
}

/// The position of the background frame for `cutoff`: the first frame captured before
/// `cutoff` that is not stale, if the buffer holds one.
pub open spec fn background_index(times: Seq<int>, cutoff: int, window: int) -> Option<int> {
    if stale_count(times, cutoff, window) < aged_count(times, cutoff) {
        Some(stale_count(times, cutoff, window) as int)
    } else {
        None
    }
}

/// How many frames leave the front of the buffer in a selection at `cutoff`: the stale
/// frames and the background itself, or every frame captured before `cutoff` when none of
/// them can serve.
pub open spec fn evicted_count(times: Seq<int>, cutoff: int, window: int) -> nat {
    match background_index(times, cutoff, window) {
        Some(i) => (i + 1) as nat,
        None => aged_count(times, cutoff),
    }
}

/// `leading_before` stops at the first entry that is not before `bound`.
pub proof fn lemma_leading_before_bounds(times: Seq<int>, bound: int)
    ensures
        leading_before(times, bound) <= times.len(),
        forall|i: int| 0 <= i < leading_before(times, bound) ==> times[i] < bound,
        leading_before(times, bound) < times.len() ==> times[leading_before(times, bound) as int]
            >= bound,
    decreases times.len(),
{
    if times.len() == 0 || times[0] >= bound {
    } else {
        let rest = times.drop_first();
        lemma_leading_before_bounds(rest, bound);
        assert forall|i: int| 0 <= i < leading_before(times, bound) implies times[i] < bound by {
            if i > 0 {
                assert(times[i] == rest[i - 1]);
            }
        }
        if leading_before(times, bound) < times.len() {
            assert(times[leading_before(times, bound) as int] == rest[leading_before(
                rest,
                bound,
            ) as int]);
        }
    }
}

/// A prefix of entries before `bound` that ends at an entry not before it, or at the end
/// of the sequence, is what `leading_before` counts.
pub proof fn lemma_leading_before_is(times: Seq<int>, bound: int, count: int)
    requires
        0 <= count <= times.len(),
        forall|i: int| 0 <= i < count ==> times[i] < bound,
        count < times.len() ==> times[count] >= bound,
    ensures
        leading_before(times, bound) == count,
    decreases times.len(),
{
    if times.len() == 0 || times[0] >= bound {
        if count > 0 {
            assert(times[0] < bound);
        }
    } else {
        let rest = times.drop_first();
        assert(count > 0);
        assert forall|i: int| 0 <= i < count - 1 implies rest[i] < bound by {
            assert(rest[i] == times[i + 1]);
        }
        if count - 1 < rest.len() {
            assert(rest[count - 1] == times[count]);
        }
        lemma_leading_before_is(rest, bound, count - 1);
    }
}

/// Whether the frame at `position` is the one a selection at `cutoff` hands out: it was
/// captured before `cutoff`, a successor one `window` later would be past `cutoff`, and
/// every frame before it is stale.
pub open spec fn is_background(times: Seq<int>, cutoff: int, window: int, position: int) -> bool {
    &&& 0 <= position < times.len()
    &&& times[position] < cutoff < times[position] + window
    &&& forall|j: int| 0 <= j < position ==> times[j] + window <= cutoff
}

/// Whether the frame at `position` is the oldest one that is at least as old as `cutoff`.
pub open spec fn is_oldest_aged(times: Seq<int>, cutoff: int, position: int) -> bool {
    &&& 0 <= position < times.len()
    &&& times[position] <= cutoff
    &&& forall|j: int| 0 <= j < times.len() && times[j] <= cutoff ==> times[position] <= times[j]
}

/// In a buffer in capture order, the selection hands out the frame at `position` exactly
/// when that frame is the first one in the window before `cutoff`.
pub proof fn lemma_background_is_first_in_window(
    times: Seq<int>,
    cutoff: int,
    window: int,
    position: int,
)
    requires
        non_decreasing(times),
    ensures
        background_index(times, cutoff, window) == Some(position) <==> is_background(
            times,
            cutoff,
            window,
            position,
        ),
{
    lemma_leading_before_bounds(times, cutoff);
    lemma_leading_before_bounds(times, cutoff - window + 1);
    if is_background(times, cutoff, window, position) {
        lemma_leading_before_is(times, cutoff - window + 1, position);
        if leading_before(times, cutoff) <= position {
            assert(times[leading_before(times, cutoff) as int] <= times[position]);
        }
    }
}

/// In a buffer in capture order, no frame that stays behind after a selection at `cutoff`
/// was captured more than `window` before `cutoff`, and where no background is handed out
/// none was captured before `cutoff` at all.
pub proof fn lemma_eviction_bound(times: Seq<int>, cutoff: int, window: int)
    requires
        non_decreasing(times),
        window >= 0,
    ensures
        evicted_count(times, cutoff, window) <= times.len(),
        forall|k: int|
            evicted_count(times, cutoff, window) <= k < times.len() ==> times[k] >= cutoff - window,
        background_index(times, cutoff, window) is None ==> forall|k: int|
            evicted_count(times, cutoff, window) <= k < times.len() ==> times[k] >= cutoff,
{
    lemma_leading_before_bounds(times, cutoff);
    lemma_leading_before_bounds(times, cutoff - window + 1);
    let evicted = evicted_count(times, cutoff, window) as int;
    assert forall|k: int| evicted <= k < times.len() implies times[k] >= cutoff - window by {
        if background_index(times, cutoff, window) is Some {
            assert(times[evicted - 1] <= times[k]);
        } else {
            assert(times[evicted] <= times[k]);
        }
    }
    if background_index(times, cutoff, window) is None {
        assert forall|k: int| evicted <= k < times.len() implies times[k] >= cutoff by {
            assert(times[evicted] <= times[k]);
        }
    }
}

/// The frames captured at or after `cutoff` all stay in the buffer: a selection removes
/// only frames captured before `cutoff`.
pub proof fn lemma_evicts_only_aged(times: Seq<int>, cutoff: int, window: int)
    ensures
        evicted_count(times, cutoff, window) <= aged_count(times, cutoff) <= times.len(),
        forall|k: int| 0 <= k < evicted_count(times, cutoff, window) ==> times[k] < cutoff,
{
    lemma_leading_before_bounds(times, cutoff);
}

/// Given capture instants that strictly increase, and a buffer whose oldest frame, where
/// it has reached `cutoff`, lies in the window before it, the background is the oldest
/// frame that is at least as old as `cutoff`, no other frame is, and there is no
/// background exactly when no frame is that old.
pub proof fn lemma_background_is_oldest_aged(times: Seq<int>, cutoff: int, window: int)
    requires
        strictly_increasing(times),
        times.len() > 0 && times[0] <= cutoff ==> times[0] < cutoff < times[0] + window,
    ensures
        match background_index(times, cutoff, window) {
            Some(position) => {
                &&& is_oldest_aged(times, cutoff, position)
                &&& forall|other: int|
                    is_oldest_aged(times, cutoff, other) ==> other == position
            },
            None => forall|j: int| 0 <= j < times.len() ==> times[j] > cutoff,
        },
{
    assert(non_decreasing(times)) by {
        assert forall|i: int, j: int| 0 <= i <= j < times.len() implies times[i] <= times[j] by {
            if i < j {
                assert(times[i] < times[j]);
            }
        }
    }
    if times.len() > 0 && times[0] <= cutoff {
        assert(is_background(times, cutoff, window, 0));
        lemma_background_is_first_in_window(times, cutoff, window, 0);
        assert(is_oldest_aged(times, cutoff, 0)) by {
            assert forall|j: int| 0 <= j < times.len() && #[trigger] times[j] <= cutoff implies times[0]
                <= times[j] by {
                assert(times[0] <= times[j]);
            }
        }
        assert forall|other: int| is_oldest_aged(times, cutoff, other) implies other == 0 by {
            if other > 0 {
                assert(times[0] < times[other]);
            }
        }
    } else {
        lemma_leading_before_is(times, cutoff, 0);
        assert forall|j: int| 0 <= j < times.len() implies times[j] > cutoff by {
            assert(times[0] <= times[j]);
        }
    }
}

/// A first-in, first-out buffer of frames in capture order.
///
/// Invariant: capture instants never decrease from the front to the back.
pub struct FrameBuffer<I> {
    frames: VecDeque<TimestampedFrame<I>>,
}

impl<I> View for FrameBuffer<I> {
    type V = Seq<TimestampedFrame<I>>;

    closed spec fn view(&self) -> Seq<TimestampedFrame<I>> {
        self.frames@
    }
}

impl<I> FrameBuffer<I> {
    #[verifier::type_invariant]
    spec fn ordered(self) -> bool {
        non_decreasing(capture_times(self.frames@))
    }

    /// An empty buffer.
    pub fn new() -> (buffer: Self)
        ensures
            buffer@ == Seq::<TimestampedFrame<I>>::empty(),
    {
        FrameBuffer { frames: VecDeque::new() }
    }

    /// The number of buffered frames.
    pub fn len(&self) -> (count: usize)
        ensures
            count == self@.len(),
            non_decreasing(capture_times(self@)),
    {
        proof {
            use_type_invariant(self);
        }
        self.frames.len()
    }

    /// The frame pushed last, if the buffer holds any.
    pub fn newest(&self) -> (frame: Option<&TimestampedFrame<I>>)
        ensures
            frame == (if self@.len() > 0 {
                Some(&self@.last())
            } else {
                None
            }),
            non_decreasing(capture_times(self@)),
    {
        proof {
            use_type_invariant(self);
        }
        let count = self.frames.len();
        if count > 0 {
            Some(&self.frames[count - 1])
        } else {
            None
        }
    }

    /// The instant of the frame at `position`, counted from the front.
    pub fn captured_at(&self, position: usize) -> (instant: Option<u64>)
        ensures
            instant == (if position < self@.len() {
                Some(self@[position as int].captured_at)
            } else {
                None
            }),
    {
        if position < self.frames.len() {
            Some(self.frames[position].captured_at)
        } else {
            None
        }
    }

    /// Appends `frame` where that keeps the buffer in capture order; a frame captured
    /// before the newest buffered one is handed back and the buffer stays as it was.
    pub fn push(&mut self, frame: TimestampedFrame<I>) -> (rejected: Option<TimestampedFrame<I>>)
        ensures
            fits_behind(old(self)@, frame) ==> rejected.is_none() && final(self)@ == old(self)@.push(
                frame,
            ),
            !fits_behind(old(self)@, frame) ==> rejected == Some(frame) && final(self)@ == old(
                self,
            )@,
            non_decreasing(capture_times(final(self)@)),
    {
        proof {
            use_type_invariant(&*self);
        }
        let count = self.frames.len();
        if count > 0 && self.frames[count - 1].captured_at > frame.captured_at {
            return Some(frame);
        }
        proof {
            let after = self.frames@.push(frame);
            assert forall|i: int, j: int| 0 <= i <= j < after.len() implies capture_times(after)[i]
                <= capture_times(after)[j] by {
                if j < count {
                    assert(capture_times(self.frames@)[i] <= capture_times(self.frames@)[j]);
                } else if i < count {
                    assert(capture_times(self.frames@)[i] <= capture_times(self.frames@)[count
                        - 1]);
                }
            }
        }
        let mut frames = VecDeque::new();
        std::mem::swap(&mut frames, &mut self.frames);
        frames.push_back(frame);
        self.frames = frames;
        None
    }

    /// Removes the frames that have aged past `lag` at `now` and hands out the one to
    /// compare against.
    ///
    /// With `cutoff = now - lag`, frames leave the front while they were captured before
    /// `cutoff`. The first of them whose successor, one `window` later, would be past
    /// `cutoff` is the background, and nothing behind it leaves. Where no frame that old is
    /// that recent, all of them leave and there is no background.
    pub fn select_background(&mut self, now: u64, lag: u64, window: u64) -> (background: Option<
        TimestampedFrame<I>,
    >)
        ensures
            final(self)@ == old(self)@.skip(
                evicted_count(capture_times(old(self)@), now - lag, window as int) as int,
            ),
            background == (match background_index(
                capture_times(old(self)@),
                now - lag,
                window as int,
            ) {
                Some(i) => Some(old(self)@[i]),
                None => None,
            }),
            non_decreasing(capture_times(final(self)@)),
    {
        proof {
            use_type_invariant(&*self);
        }
        let ghost before = self.frames@;
        let ghost times = capture_times(before);
        if now < lag {
            proof {
                lemma_leading_before_is(times, now - lag, 0);
                assert(before.skip(0) == before);
            }
            return None;
        }
        let cutoff = now - lag;
        let ghost bound = cutoff as int;
        let ghost mut removed: int = 0;
        let mut frames = VecDeque::new();
        std::mem::swap(&mut frames, &mut self.frames);
        let mut background: Option<TimestampedFrame<I>> = None;
        while background.is_none() && frames.len() > 0 && frames[0].captured_at < cutoff
            invariant
                0 <= removed <= before.len(),
                frames@ == before.skip(removed),
                times == capture_times(before),
                non_decreasing(times),
                bound == cutoff,
                forall|i: int| 0 <= i < removed ==> times[i] < cutoff,
                background is None ==> forall|i: int|
                    0 <= i < removed ==> times[i] + window <= cutoff,
                background matches Some(frame) ==> {
                    &&& removed > 0
                    &&& frame == before[removed - 1]
                    &&& background_index(times, bound, window as int) == Some(removed - 1)
                },
            decreases frames@.len(),
        {
            proof {
                assert(times[removed] == frames@[0].captured_at);
            }
            let frame = frames.pop_front().unwrap();
            if cutoff - frame.captured_at < window {
                proof {
                    lemma_leading_before_is(times, bound - window + 1, removed);
                    lemma_leading_before_bounds(times, bound);
                    if leading_before(times, bound) <= removed {
                        assert(times[leading_before(times, bound) as int] <= times[removed]);
                    }
                }
                background = Some(frame);
            }
            proof {
                removed = removed + 1;
            }
        }
        proof {
            if background is None {
                assert(removed < before.len() ==> times[removed] == frames@[0].captured_at);
                lemma_leading_before_is(times, bound, removed);
                lemma_leading_before_bounds(times, bound - window + 1);
                if leading_before(times, bound - window + 1) < removed {
                    let s = leading_before(times, bound - window + 1) as int;
                    assert(times[s] + window <= cutoff);
                }
            }
            let kept = before.skip(removed);
            assert forall|i: int, j: int| 0 <= i <= j < kept.len() implies capture_times(kept)[i]
                <= capture_times(kept)[j] by {
                assert(times[removed + i] <= times[removed + j]);
            }
        }
        self.frames = frames;
        background
    }
}

/// Whether `frame` may follow `frames` in capture order.
pub open spec fn fits_behind<I>(frames: Seq<TimestampedFrame<I>>, frame: TimestampedFrame<I>) -> bool {
    frames.len() == 0 || frames.last().captured_at <= frame.captured_at
}

} // verus!
