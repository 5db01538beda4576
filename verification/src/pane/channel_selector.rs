//! Which channel is on screen: the index that a timer rotates through the channels.

use vstd::arithmetic::div_mod::{
    lemma_add_mod_noop, lemma_fundamental_div_mod, lemma_mod_twice, lemma_small_mod,
};
use vstd::prelude::*;

verus! {

/// The index that follows `current` among `channel_count` channels.
pub open spec fn next_index(current: int, channel_count: int) -> int {
    if channel_count > 0 {
        (current + 1) % channel_count
    } else {
        0
    }
}

/// The index after `ticks` rotations from `initial`.
pub open spec fn rotated(initial: int, channel_count: int, ticks: nat) -> int
    decreases ticks,
{
    if ticks == 0 {
        initial
    } else {
        next_index(rotated(initial, channel_count, (ticks - 1) as nat), channel_count)
    }
}

/// The index to show for a published index: the index itself where it names a channel,
/// the first channel otherwise.
pub open spec fn safe_index(published: int, channel_count: int) -> int {
    if 0 <= published < channel_count {
        published
    } else {
        0
    }
}

/// The time from `earlier` to `now`, zero where `now` is not later.
pub open spec fn time_since(now: int, earlier: int) -> int {
    if now >= earlier {
        now - earlier
    } else {
        0
    }
}

/// Rotating `ticks` times over `channel_count` channels adds `ticks` to the index, modulo
/// the number of channels. An index that names no channel is brought into range by the
/// first rotation.
pub proof fn lemma_rotation(initial: int, channel_count: int, ticks: nat)
    requires
        channel_count > 0,
        0 <= initial,
        ticks > 0 || initial < channel_count,
    ensures
        rotated(initial, channel_count, ticks) == (initial + ticks) % channel_count,
        0 <= rotated(initial, channel_count, ticks) < channel_count,
    decreases ticks,
{
    if ticks == 0 {
        lemma_small_mod(initial as nat, channel_count as nat);
    } else if ticks == 1 {
        assert(rotated(initial, channel_count, 0) == initial);
    } else {
        let before = (ticks - 1) as nat;
        lemma_rotation(initial, channel_count, before);
        lemma_add_mod_noop(initial + before, 1, channel_count);
        lemma_mod_twice(initial + before, channel_count);
        lemma_add_mod_noop((initial + before) % channel_count, 1, channel_count);
    }
}

/// A published index always resolves to a channel, whatever it holds.
pub proof fn lemma_safe_index_in_range(published: int, channel_count: int)
    requires
        channel_count > 0,
    ensures
        0 <= safe_index(published, channel_count) < channel_count,
        0 <= published < channel_count ==> safe_index(published, channel_count) == published,
        !(0 <= published < channel_count) ==> safe_index(published, channel_count) == 0,
{
}

/// The index of the channel to show for the index that the selector published.
pub fn get_safe_camera_index(published: usize, channel_count: usize) -> (index: usize)
    ensures
        index == safe_index(published as int, channel_count as int),
        channel_count > 0 ==> index < channel_count,
{
    if published >= channel_count {
        0
    } else {
        published
    }
}

/// What a selector holds, as plain values.
pub struct SelectorView {
    pub channel_count: int,
    /// The time between two rotations.
    pub period: int,
    /// The active channel.
    pub index: int,
    /// The instant up to which rotations have been made.
    pub rotated_until: int,
}

impl SelectorView {
    /// The number of whole periods that have passed at `now`.
    pub open spec fn due_rotations(self, now: int) -> nat {
        (time_since(now, self.rotated_until) / self.period) as nat
    }

    /// The selector after every rotation that is due at `now` has been made.
    pub open spec fn poll(self, now: int) -> SelectorView {
        SelectorView {
            index: rotated(self.index, self.channel_count, self.due_rotations(now)),
            rotated_until: self.rotated_until + self.due_rotations(now) * self.period,
            ..self
        }
    }

    /// The time from `now` to the next rotation, not positive where a rotation is due.
    pub open spec fn until_next_rotation(self, now: int) -> int {
        self.rotated_until + self.period - now
    }

    /// How long the timer sleeps at `now` before it polls again: the time to the next
    /// rotation, but `longest` at most, so that it notices in time when it is told to
    /// stop, and one millisecond at least.
    pub open spec fn sleep(self, now: int, longest: int) -> int {
        if self.until_next_rotation(now) < 1 {
            1
        } else if self.until_next_rotation(now) > longest {
            longest
        } else {
            self.until_next_rotation(now)
        }
    }

    /// The selector after one rotation.
    pub open spec fn rotate(self) -> SelectorView {
        SelectorView { index: next_index(self.index, self.channel_count), ..self }
    }

    /// The period is positive and the index names a channel, or is zero where there is
    /// none.
    pub open spec fn valid(self) -> bool {
        &&& self.period > 0
        &&& self.channel_count >= 0
        &&& 0 <= self.index
        &&& self.channel_count > 0 ==> self.index < self.channel_count
        &&& self.channel_count == 0 ==> self.index == 0
    }
}

/// Before one period has passed the active channel stays; once exactly one has passed it
/// is the next channel.
pub proof fn lemma_poll_around_period(selector: SelectorView, now: int)
    requires
        selector.valid(),
    ensures
        now < selector.rotated_until + selector.period ==> selector.poll(now).index
            == selector.index,
        selector.rotated_until + selector.period <= now < selector.rotated_until + 2
            * selector.period ==> selector.poll(now).index == next_index(
            selector.index,
            selector.channel_count,
        ),
{
    let elapsed = time_since(now, selector.rotated_until);
    lemma_fundamental_div_mod(elapsed, selector.period);
    let due = elapsed / selector.period;
    assert(0 <= elapsed % selector.period < selector.period);
    if now < selector.rotated_until + selector.period {
        assert(due == 0) by (nonlinear_arith)
            requires
                0 <= elapsed < selector.period,
                elapsed == selector.period * due + elapsed % selector.period,
                0 <= elapsed % selector.period < selector.period,
        ;
    } else if now < selector.rotated_until + 2 * selector.period {
        assert(due == 1) by (nonlinear_arith)
            requires
                selector.period <= elapsed < 2 * selector.period,
                elapsed == selector.period * due + elapsed % selector.period,
                0 <= elapsed % selector.period < selector.period,
        ;
        assert(rotated(selector.index, selector.channel_count, 0) == selector.index);
    }
}

/// The timer that rotates the active channel. Times are in milliseconds.
pub struct ChannelSelector {
    channel_count: usize,
    period: u64,
    index: usize,
    rotated_until: u64,
}

impl View for ChannelSelector {
    type V = SelectorView;

    closed spec fn view(&self) -> SelectorView {
        SelectorView {
            channel_count: self.channel_count as int,
            period: self.period as int,
            index: self.index as int,
            rotated_until: self.rotated_until as int,
        }
    }
}

impl ChannelSelector {
    #[verifier::type_invariant]
    spec fn valid(self) -> bool {
        self@.valid()
    }

    /// A selector started at `now` on the first of `channel_count` channels, which moves
    /// on every `period` milliseconds.
    pub fn new(channel_count: usize, period: u64, now: u64) -> (selector: Self)
        requires
            period > 0,
        ensures
            selector@ == (SelectorView {
                channel_count: channel_count as int,
                period: period as int,
                index: 0,
                rotated_until: now as int,
            }),
    {
        ChannelSelector { channel_count, period, index: 0, rotated_until: now }
    }

    /// The active channel.
    pub fn active_index(&self) -> (index: usize)
        ensures
            index == self@.index,
            self@.valid(),
    {
        proof {
            use_type_invariant(self);
        }
        self.index
    }

    /// The instant at which the next rotation is due, if a 64-bit count of milliseconds
    /// reaches it.
    pub fn next_rotation_at(&self) -> (instant: Option<u64>)
        ensures
            instant == (if self@.rotated_until + self@.period <= u64::MAX {
                Some((self@.rotated_until + self@.period) as u64)
            } else {
                None
            }),
    {
        self.rotated_until.checked_add(self.period)
    }

    /// How many milliseconds the timer sleeps at `now` before it polls again, where it
    /// is to sleep no longer than `longest`.
    pub fn sleep_millis(&self, now: u64, longest: u64) -> (wait: u64)
        requires
            longest >= 1,
        ensures
            wait == self@.sleep(now as int, longest as int),
            1 <= wait <= longest,
    {
        let due: u128 = self.rotated_until as u128 + self.period as u128;
        if due <= now as u128 {
            1
        } else if due - now as u128 > longest as u128 {
            longest
        } else {
            (due - now as u128) as u64
        }
    }

    /// Moves on to the next channel and returns it.
    pub fn rotate(&mut self) -> (index: usize)
        ensures
            final(self)@ == old(self)@.rotate(),
            index == final(self)@.index,
            final(self)@.valid(),
    {
        proof {
            use_type_invariant(&*self);
        }
        let next = if self.channel_count == 0 || self.index + 1 == self.channel_count {
            0
        } else {
            self.index + 1
        };
        proof {
            if self.channel_count > 0 {
                if self.index + 1 == self.channel_count {
                    assert((self.index + 1) % (self.channel_count as int) == 0) by (nonlinear_arith)
                        requires
                            self.index + 1 == self.channel_count,
                            self.channel_count > 0,
                    ;
                } else {
                    lemma_small_mod((self.index + 1) as nat, self.channel_count as nat);
                }
            }
        }
        self.index = next;
        next
    }

    /// Makes every rotation that is due at `now` and returns the active channel.
    pub fn poll(&mut self, now: u64) -> (index: usize)
        ensures
            final(self)@ == old(self)@.poll(now as int),
            index == final(self)@.index,
            final(self)@.valid(),
            old(self)@.channel_count > 0 ==> index == (old(self)@.index + old(
                self,
            )@.due_rotations(now as int)) % old(self)@.channel_count,
    {
        proof {
            use_type_invariant(&*self);
        }
        let elapsed = if now >= self.rotated_until {
            now - self.rotated_until
        } else {
            0
        };
        let due = elapsed / self.period;
        let ghost before = self@;
        proof {
            lemma_fundamental_div_mod(elapsed as int, self.period as int);
            assert(due * self.period <= elapsed) by (nonlinear_arith)
                requires
                    elapsed == self.period * due + (elapsed as int) % (self.period as int),
                    0 <= (elapsed as int) % (self.period as int),
            ;
            assert(due == before.due_rotations(now as int));
        }
        let rotated_until = self.rotated_until + due * self.period;
        let next = if self.channel_count == 0 {
            proof {
                lemma_rotated_without_channels(due as nat);
            }
            0
        } else {
            let count = self.channel_count as u64;
            let step = (due % count) as usize;
            proof {
                lemma_rotation(self.index as int, self.channel_count as int, due as nat);
                lemma_add_mod_noop(self.index as int, due as int, self.channel_count as int);
                lemma_small_mod(self.index as nat, self.channel_count as nat);
            }
            if self.index >= self.channel_count - step {
                proof {
                    lemma_mod_of_wrapped_sum(
                        self.index as int,
                        step as int,
                        self.channel_count as int,
                    );
                }
                self.index - (self.channel_count - step)
            } else {
                proof {
                    lemma_small_mod((self.index + step) as nat, self.channel_count as nat);
                }
                self.index + step
            }
        };
        self.index = next;
        self.rotated_until = rotated_until;
        next
    }
}

/// Without channels every rotation leaves the index at zero.
proof fn lemma_rotated_without_channels(ticks: nat)
    ensures
        rotated(0, 0, ticks) == 0,
    decreases ticks,
{
    if ticks > 0 {
        lemma_rotated_without_channels((ticks - 1) as nat);
    }
}

/// A sum of two residues that reaches the modulus wraps round once.
proof fn lemma_mod_of_wrapped_sum(a: int, b: int, m: int)
    requires
        0 <= a < m,
        0 <= b < m,
        a + b >= m,
    ensures
        (a + b) % m == a + b - m,
{
    lemma_small_mod((a + b - m) as nat, m as nat);
    vstd::arithmetic::div_mod::lemma_mod_multiples_vanish(1, a + b - m, m);
}

} // verus!
