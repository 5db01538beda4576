//! Motion detection for one channel: when a check runs, which buffered frame the new frame
//! is compared with, and which regions are drawn until the next check.
//!
//! The detector never touches a pixel. The caller normalizes the frame, compares it with
//! the background that the detector hands out, measures the contours of the difference
//! and reports them back.

use crate::video_display::frame_buffer::{
    aged_count, background_index, capture_times, evicted_count, lemma_eviction_bound,
    lemma_evicts_only_aged, lemma_leading_before_bounds, non_decreasing, FrameBuffer,
    TimestampedFrame,
};
use crate::video_display::video_channel::VideoChannelSettings;
use vstd::prelude::*;

verus! {

/// The least area, in square pixels, that a contour must enclose to count as motion.
pub const MIN_CONTOUR_AREA: u64 = 10_000;

/// The difference between two gray levels above which a pixel counts as changed.
pub const IMG_DIFF_THRESHOLD: u8 = 10;

/// An upright rectangle on the pixel grid.
#[derive(Clone, Copy, Debug, PartialEq, Eq, Structural)]
pub struct Region {
    pub x: i32,
    pub y: i32,
    pub width: i32,
    pub height: i32,
}

/// What the caller measured of one contour. A polygon whose corners lie on the pixel grid
/// encloses a whole number of half pixels, so the area is carried doubled.
#[derive(Clone, Copy, Debug, PartialEq, Eq, Structural)]
pub struct ContourMeasure {
    pub doubled_area: u64,
    pub bounds: Region,
}

/// Whether a contour is large enough to count as motion.
pub open spec fn qualifies(measure: ContourMeasure) -> bool {
    measure.doubled_area >= 2 * MIN_CONTOUR_AREA
}

/// The bounding rectangles of the contours that count as motion, in the order measured.
pub open spec fn qualifying_regions(measures: Seq<ContourMeasure>) -> Seq<Region> {
    measures.filter(|m: ContourMeasure| qualifies(m)).map_values(|m: ContourMeasure| m.bounds)
}

/// The time from `earlier` to `now`, zero where `now` is not later.
pub open spec fn elapsed_since(now: int, earlier: int) -> int {
    if now >= earlier {
        now - earlier
    } else {
        0
    }
}

/// Keeps the bounding rectangles of the contours that count as motion.
pub fn select_regions(measures: &Vec<ContourMeasure>) -> (regions: Vec<Region>)
    ensures
        regions@ == qualifying_regions(measures@),
{
    let ghost keep = |m: ContourMeasure| qualifies(m);
    let ghost bounds = |m: ContourMeasure| m.bounds;
    let mut regions: Vec<Region> = Vec::new();
    let mut i: usize = 0;
    proof {
        reveal(Seq::filter);
        assert(measures@.take(0).filter(keep).map_values(bounds) =~= Seq::<Region>::empty());
    }
    while i < measures.len()
        invariant
            i <= measures.len(),
            keep == (|m: ContourMeasure| qualifies(m)),
            bounds == (|m: ContourMeasure| m.bounds),
            regions@ == measures@.take(i as int).filter(keep).map_values(bounds),
        decreases measures.len() - i,
    {
        let measure = measures[i];
        proof {
            let seen = measures@.take(i as int);
            assert(measures@.take(i + 1) =~= seen.push(measure));
            seen.lemma_filter_push(measure, keep);
            if qualifies(measure) {
                assert(seen.filter(keep).push(measure).map_values(bounds) =~= seen.filter(
                    keep,
                ).map_values(bounds).push(measure.bounds));
            }
        }
        if measure.doubled_area >= 2 * MIN_CONTOUR_AREA {
            regions.push(measure.bounds);
        }
        i += 1;
    }
    proof {
        assert(measures@.take(i as int) =~= measures@);
    }
    regions
}

/// What a detector holds, as plain values.
pub struct MotionView<I> {
    pub settings: VideoChannelSettings,
    /// The buffered frames, oldest first.
    pub frames: Seq<TimestampedFrame<I>>,
    /// The regions drawn on every frame until the next completed check.
    pub regions: Seq<Region>,
    /// The instant of the last completed check, or of the detector's creation.
    pub last_check_at: int,
    /// The instant of a check whose background was handed out and whose contours have not
    /// been reported yet.
    pub pending: Option<int>,
}

impl<I> MotionView<I> {
    /// The buffered frames are in capture order.
    pub open spec fn ordered(self) -> bool {
        non_decreasing(capture_times(self.frames))
    }

    /// Whether a check runs at `now`: the interval since the last completed check has
    /// passed, and `now` is not earlier than the newest buffered frame.
    pub open spec fn check_due(self, now: int) -> bool {
        &&& elapsed_since(now, self.last_check_at) >= self.settings.motion_check_interval()
        &&& self.frames.len() > 0 ==> self.frames.last().captured_at <= now
    }

    /// The instant before which a frame has aged enough to serve as background at `now`.
    pub open spec fn cutoff(self, now: int) -> int {
        now - self.settings.background_lag()
    }

    /// The buffer after the frame of a check at `now` has joined it.
    pub open spec fn with_frame(self, image: I, now: u64) -> Seq<TimestampedFrame<I>> {
        self.frames.push(TimestampedFrame { image, captured_at: now })
    }

    /// The background that a check at `now` compares the new frame with, if a check runs
    /// and the buffer holds a frame of the right age.
    pub open spec fn background(self, image: I, now: u64) -> Option<TimestampedFrame<I>> {
        let buffered = self.with_frame(image, now);
        if !self.check_due(now as int) {
            None
        } else {
            match background_index(
                capture_times(buffered),
                self.cutoff(now as int),
                self.settings.frame_duration(),
            ) {
                Some(position) => Some(buffered[position]),
                None => None,
            }
        }
    }

    /// The detector after a tick at `now` with the normalized frame `image`.
    ///
    /// Where no check is due nothing changes. Otherwise the frame joins the buffer, the
    /// frames that have aged out leave it, and a check is pending exactly when a
    /// background was found. The regions and the instant of the last check stay.
    pub open spec fn begin_check(self, image: I, now: u64) -> MotionView<I> {
        let buffered = self.with_frame(image, now);
        if !self.check_due(now as int) {
            self
        } else {
            MotionView {
                frames: buffered.skip(
                    evicted_count(
                        capture_times(buffered),
                        self.cutoff(now as int),
                        self.settings.frame_duration(),
                    ) as int,
                ),
                pending: if self.background(image, now) is Some {
                    Some(now as int)
                } else {
                    None
                },
                ..self
            }
        }
    }

    /// The detector after the contours of the pending check have been reported: the
    /// regions are those of the contours that count as motion, and the check is stamped
    /// with its instant. Without a pending check nothing changes.
    pub open spec fn complete_check(self, measures: Seq<ContourMeasure>) -> MotionView<I> {
        match self.pending {
            Some(instant) => MotionView {
                regions: qualifying_regions(measures),
                last_check_at: instant,
                pending: None,
                ..self
            },
            None => self,
        }
    }
}

/// A difference without contours, as two equal frames give, leaves no region, whatever
/// the buffer holds.
pub proof fn lemma_no_contours_no_regions<I>(before: MotionView<I>)
    requires
        before.pending is Some,
    ensures
        before.complete_check(Seq::empty()).regions == Seq::<Region>::empty(),
        qualifying_regions(Seq::empty()) == Seq::<Region>::empty(),
{
    reveal(Seq::filter);
    assert(qualifying_regions(Seq::empty()) =~= Seq::<Region>::empty());
}

/// One contour gives its bounding rectangle where it is large enough, and nothing where
/// it is not.
pub proof fn lemma_single_contour(measure: ContourMeasure)
    ensures
        qualifying_regions(seq![measure]) == (if qualifies(measure) {
            seq![measure.bounds]
        } else {
            Seq::<Region>::empty()
        }),
{
    let keep = |m: ContourMeasure| qualifies(m);
    reveal(Seq::filter);
    assert(Seq::<ContourMeasure>::empty().filter(keep) =~= Seq::<ContourMeasure>::empty());
    assert(seq![measure] =~= Seq::<ContourMeasure>::empty().push(measure));
    Seq::<ContourMeasure>::empty().lemma_filter_push(measure, keep);
    if qualifies(measure) {
        assert(qualifying_regions(seq![measure]) =~= seq![measure.bounds]);
    } else {
        assert(qualifying_regions(seq![measure]) =~= Seq::<Region>::empty());
    }
}

/// A tick keeps the buffer in capture order.
pub proof fn lemma_begin_check_keeps_order<I>(before: MotionView<I>, image: I, now: u64)
    requires
        before.ordered(),
    ensures
        before.begin_check(image, now).ordered(),
{
    if before.check_due(now as int) {
        let buffered = before.with_frame(image, now);
        lemma_with_frame_ordered(before, image, now);
        let after = before.begin_check(image, now).frames;
        let evicted = evicted_count(
            capture_times(buffered),
            before.cutoff(now as int),
            before.settings.frame_duration(),
        ) as int;
        lemma_evicts_only_aged(
            capture_times(buffered),
            before.cutoff(now as int),
            before.settings.frame_duration(),
        );
        assert forall|i: int, j: int| 0 <= i <= j < after.len() implies capture_times(after)[i]
            <= capture_times(after)[j] by {
            assert(capture_times(buffered)[evicted + i] <= capture_times(buffered)[evicted + j]);
        }
    }
}

/// The frame of a due check may follow the buffered frames.
proof fn lemma_with_frame_ordered<I>(before: MotionView<I>, image: I, now: u64)
    requires
        before.ordered(),
        before.check_due(now as int),
    ensures
        non_decreasing(capture_times(before.with_frame(image, now))),
{
    let buffered = before.with_frame(image, now);
    let count = before.frames.len() as int;
    assert forall|i: int, j: int| 0 <= i <= j < buffered.len() implies capture_times(buffered)[i]
        <= capture_times(buffered)[j] by {
        if j < count {
            assert(capture_times(before.frames)[i] <= capture_times(before.frames)[j]);
        } else if i < count {
            assert(capture_times(before.frames)[i] <= capture_times(before.frames)[count - 1]);
        }
    }
}

/// After a check at `now`, no buffered frame is older than the background lag and one
/// frame duration, and the frame of that check is the newest in the buffer.
pub proof fn lemma_begin_check_eviction_bound<I>(before: MotionView<I>, image: I, now: u64)
    requires
        before.ordered(),
        before.check_due(now as int),
        before.settings.background_lag() > 0,
        before.settings.frame_duration() >= 0,
    ensures
        forall|k: int|
            0 <= k < before.begin_check(image, now).frames.len() ==> now
                - before.settings.background_lag() - before.settings.frame_duration()
                <= #[trigger] before.begin_check(image, now).frames[k].captured_at,
        before.begin_check(image, now).frames.len() > 0,
        before.begin_check(image, now).frames.last() == (TimestampedFrame {
            image,
            captured_at: now,
        }),
{
    let buffered = before.with_frame(image, now);
    let times = capture_times(buffered);
    let cutoff = before.cutoff(now as int);
    let window = before.settings.frame_duration();
    let evicted = evicted_count(times, cutoff, window) as int;
    lemma_with_frame_ordered(before, image, now);
    lemma_eviction_bound(times, cutoff, window);
    lemma_evicts_only_aged(times, cutoff, window);
    lemma_leading_before_bounds(times, cutoff);
    assert(times[buffered.len() - 1] == now);
    assert(aged_count(times, cutoff) < buffered.len());
    let after = before.begin_check(image, now).frames;
    assert forall|k: int| 0 <= k < after.len() implies now - before.settings.background_lag()
        - before.settings.frame_duration() <= #[trigger] after[k].captured_at by {
        assert(times[evicted + k] >= cutoff - window);
    }
}

/// The motion detector of one channel.
pub struct MotionDetector<I> {
    settings: VideoChannelSettings,
    buffer: FrameBuffer<I>,
    regions: Vec<Region>,
    last_check_at: u64,
    pending: Option<u64>,
}

impl<I> View for MotionDetector<I> {
    type V = MotionView<I>;

    closed spec fn view(&self) -> MotionView<I> {
        MotionView {
            settings: self.settings,
            frames: self.buffer@,
            regions: self.regions@,
            last_check_at: self.last_check_at as int,
            pending: match self.pending {
                Some(instant) => Some(instant as int),
                None => None,
            },
        }
    }
}

impl<I> MotionDetector<I> {
    /// A detector created at `now`, with an empty buffer and no regions.
    pub fn new(settings: VideoChannelSettings, now: u64) -> (detector: Self)
        ensures
            detector@ == (MotionView::<I> {
                settings,
                frames: Seq::empty(),
                regions: Seq::empty(),
                last_check_at: now as int,
                pending: None,
            }),
    {
        MotionDetector {
            settings,
            buffer: FrameBuffer::new(),
            regions: Vec::new(),
            last_check_at: now,
            pending: None,
        }
    }

    /// Whether a tick at `now` runs a motion check. Only then does the caller need to
    /// normalize the frame.
    pub fn check_due(&self, now: u64) -> (due: bool)
        ensures
            due == self@.check_due(now as int),
            self@.ordered(),
    {
        let newest = self.buffer.newest();
        let elapsed = if now >= self.last_check_at {
            now - self.last_check_at
        } else {
            0
        };
        if elapsed < self.settings.get_motion_check_interval() {
            return false;
        }
        match newest {
            Some(frame) => frame.captured_at <= now,
            None => true,
        }
    }

    /// One tick at `now` with the frame in its comparison form.
    ///
    /// Where a check is due the frame joins the buffer and the background to compare it
    /// with is handed out, if the buffer holds a frame of the right age. The caller then
    /// reports the contours of the difference to `complete_check`. Where no check is due,
    /// or no background is found, nothing is handed out and the regions stay as they are.
    pub fn begin_check(&mut self, image: I, now: u64) -> (background: Option<TimestampedFrame<I>>)
        ensures
            final(self)@ == old(self)@.begin_check(image, now),
            background == old(self)@.background(image, now),
            final(self)@.ordered(),
            old(self)@.check_due(now as int) ==> {
                &&& final(self)@.frames.len() > 0
                &&& final(self)@.frames.last() == (TimestampedFrame { image, captured_at: now })
                &&& forall|k: int|
                    0 <= k < final(self)@.frames.len() ==> now - old(
                        self,
                    )@.settings.background_lag() - old(self)@.settings.frame_duration()
                        <= #[trigger] final(self)@.frames[k].captured_at
            },
    {
        let ghost before = self@;
        if !self.check_due(now) {
            return None;
        }
        let lag = self.settings.get_background_lag();
        let window = self.settings.get_frame_duration();
        proof {
            lemma_begin_check_eviction_bound(before, image, now);
        }
        let rejected = self.buffer.push(TimestampedFrame { image, captured_at: now });
        assert(rejected is None);
        let background = self.buffer.select_background(now, lag, window);
        self.pending = if background.is_some() {
            Some(now)
        } else {
            None
        };
        assert(self@ == before.begin_check(image, now));
        background
    }

    /// Reports the contours measured for the pending check.
    ///
    /// The regions become the bounding rectangles of the contours that count as motion and
    /// the check is stamped with the instant of its tick. Returns whether a check was
    /// pending; without one nothing changes.
    pub fn complete_check(&mut self, measures: &Vec<ContourMeasure>) -> (accepted: bool)
        ensures
            final(self)@ == old(self)@.complete_check(measures@),
            accepted == old(self)@.pending is Some,
            final(self)@.ordered(),
    {
        let count = self.buffer.len();
        match self.pending {
            Some(instant) => {
                self.regions = select_regions(measures);
                self.last_check_at = instant;
                self.pending = None;
                assert(self@ == old(self)@.complete_check(measures@));
                true
            },
            None => false,
        }
    }

    /// The regions to draw on the frame of this tick, whether or not it ran a check.
    pub fn motion_regions(&self) -> (regions: &Vec<Region>)
        ensures
            regions@ == self@.regions,
    {
        &self.regions
    }

    /// The number of regions that count as motion.
    pub fn moving_parts(&self) -> (count: usize)
        ensures
            count == self@.regions.len(),
    {
        self.regions.len()
    }

    /// The newest buffered frame: after a check has begun, the frame of that check.
    pub fn current_frame(&self) -> (frame: Option<&TimestampedFrame<I>>)
        ensures
            frame == (if self@.frames.len() > 0 {
                Some(&self@.frames.last())
            } else {
                None
            }),
    {
        self.buffer.newest()
    }

    /// The number of buffered frames.
    pub fn frame_count(&self) -> (count: usize)
        ensures
            count == self@.frames.len(),
    {
        self.buffer.len()
    }

    /// The capture instant of the buffered frame at `position`, counted from the oldest.
    pub fn frame_instant(&self, position: usize) -> (instant: Option<u64>)
        ensures
            instant == (if position < self@.frames.len() {
                Some(self@.frames[position as int].captured_at)
            } else {
                None
            }),
    {
        self.buffer.captured_at(position)
    }

    /// The instant of the last completed check, or of the detector's creation.
    pub fn last_check_at(&self) -> (instant: u64)
        ensures
            instant == self@.last_check_at,
    {
        self.last_check_at
    }

    /// Whether a background was handed out whose contours have not been reported yet.
    pub fn check_pending(&self) -> (pending: bool)
        ensures
            pending == self@.pending is Some,
    {
        self.pending.is_some()
    }

    pub fn settings(&self) -> (settings: VideoChannelSettings)
        ensures
            settings == self@.settings,
    {
        self.settings
    }
}

} // verus!
