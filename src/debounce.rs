use vstd::prelude::*;

verus! {

/// Decides, on each raw interrupt firing, whether the transition is genuine.
///
/// Times are microseconds on a monotonic clock; the caller reads the clock and
/// hands the reading in, so that every decision is a function of the state and
/// that reading alone.
pub trait Debounce: Sized {
    /// Whether a firing at time `now` is accepted from this state.
    spec fn accepts(&self, now: i64) -> bool;

    /// The state that a firing at time `now` leaves behind.
    spec fn after(&self, now: i64) -> Self;

    /// Judges a firing at time `now` and records it.
    fn is_isr_valid(&mut self, now: i64) -> (r: bool)
        ensures
            r == old(self).accepts(now),
            *final(self) == old(self).after(now),
    ;
}

/// The verdicts that `d` gives, one per firing, on firings at `times`.
pub open spec fn verdicts<D: Debounce>(d: D, times: Seq<i64>) -> Seq<bool>
    decreases times.len(),
{
    if times.len() == 0 {
        Seq::empty()
    } else {
        seq![d.accepts(times[0])] + verdicts(d.after(times[0]), times.drop_first())
    }
}

/// The state that `d` is in after firings at `times`.
pub open spec fn settled<D: Debounce>(d: D, times: Seq<i64>) -> D
    decreases times.len(),
{
    if times.len() == 0 {
        d
    } else {
        settled(d.after(times[0]), times.drop_first())
    }
}

/// Each reading in `times` is no earlier than the one before it, and the
/// first is no earlier than `start`.
pub open spec fn monotone_from(start: i64, times: Seq<i64>) -> bool {
    &&& (times.len() > 0 ==> start <= times[0])
    &&& forall|i: int| 0 < i < times.len() ==> #[trigger] times[i] >= times[i - 1]
}

/// The window kept for a duration of `us` microseconds: the duration itself,
/// or the largest `i64` where it is longer.
pub open spec fn window_of(us: u128) -> i64 {
    if us > i64::MAX as u128 {
        i64::MAX
    } else {
        us as i64
    }
}

/// What `core::time::Duration::as_micros` gives for `d`.
pub uninterp spec fn duration_micros(d: core::time::Duration) -> u128;

/// Relies on `core::time::Duration::as_micros`: the whole microseconds in `d`.
#[verifier::external_body]
fn micros_in(d: core::time::Duration) -> (r: u128)
    ensures
        r == duration_micros(d),
{
    d.as_micros()
}

fn saturate_window(us: u128) -> (r: i64)
    ensures
        r == window_of(us),
{
    if us > i64::MAX as u128 {
        i64::MAX
    } else {
        us as i64
    }
}

/// A debouncer that accepts every firing.
pub struct NoDebounce;

impl Debounce for NoDebounce {
    open spec fn accepts(&self, now: i64) -> bool {
        true
    }

    open spec fn after(&self, now: i64) -> Self {
        NoDebounce
    }

    fn is_isr_valid(&mut self, now: i64) -> (r: bool) {
        true
    }
}

/// Accepts a firing only once `debounce_time` has passed since the last
/// accepted one. Simple and good enough for buttons; it also rejects a
/// genuine second transition that comes inside the window.
pub struct ClassicDebounce {
    debounce_time: i64,
    last_sample: i64,
}

impl ClassicDebounce {
    /// The window, in microseconds.
    pub closed spec fn window(&self) -> i64 {
        self.debounce_time
    }

    /// The time of the last accepted firing.
    pub closed spec fn last(&self) -> i64 {
        self.last_sample
    }

    /// The same debouncer with `now` as the last accepted firing.
    pub closed spec fn stamped(&self, now: i64) -> Self {
        ClassicDebounce { debounce_time: self.debounce_time, last_sample: now }
    }

    /// A debouncer whose window is `debounce_time` microseconds (saturated to
    /// `i64::MAX`), counting from `now`.
    pub fn from_micros(debounce_time: u128, now: i64) -> (r: Self)
        ensures
            r.window() == window_of(debounce_time),
            r.last() == now,
    {
        ClassicDebounce { debounce_time: saturate_window(debounce_time), last_sample: now }
    }

    /// A debouncer whose window is `debounce_time`, counting from `now`.
    pub fn new(debounce_time: core::time::Duration, now: i64) -> (r: Self)
        ensures
            r.window() == window_of(duration_micros(debounce_time)),
            r.last() == now,
    {
        Self::from_micros(micros_in(debounce_time), now)
    }

    pub fn debounce_time(&self) -> (r: i64)
        ensures
            r == self.window(),
    {
        self.debounce_time
    }

    pub fn last_sample(&self) -> (r: i64)
        ensures
            r == self.last(),
    {
        self.last_sample
    }
}

impl Debounce for ClassicDebounce {
    open spec fn accepts(&self, now: i64) -> bool {
        now - self.last() >= self.window()
    }

    open spec fn after(&self, now: i64) -> Self {
        if self.accepts(now) {
            self.stamped(now)
        } else {
            *self
        }
    }

    fn is_isr_valid(&mut self, now: i64) -> (r: bool) {
        if (now as i128) - (self.last_sample as i128) < self.debounce_time as i128 {
            return false;
        }
        self.last_sample = now;
        true
    }
}

/// A stamped classic debouncer keeps its window and holds `now` as the last
/// accepted firing.
pub broadcast proof fn lemma_classic_stamped(d: ClassicDebounce, now: i64)
    ensures
        #![trigger d.stamped(now)]
        d.stamped(now).window() == d.window(),
        d.stamped(now).last() == now,
{
}

/// For pins that glitch while they are not bouncing, such as rotary encoders
/// (about 20 ms suits those). A firing inside the window is rejected, and so
/// is the one that follows it, whenever it comes: a glitch brings exactly one
/// echo. Every firing is recorded as the last one.
pub struct FilterDebounce {
    debounce_time: i64,
    last_sample: i64,
    ignore_next: bool,
}

impl FilterDebounce {
    /// The window, in microseconds.
    pub closed spec fn window(&self) -> i64 {
        self.debounce_time
    }

    /// The time of the last firing.
    pub closed spec fn last(&self) -> i64 {
        self.last_sample
    }

    /// Whether the next firing is to be swallowed.
    pub closed spec fn ignoring(&self) -> bool {
        self.ignore_next
    }

    /// The same debouncer with `now` as the last firing and `ignore` as the
    /// flag.
    pub closed spec fn stamped(&self, now: i64, ignore: bool) -> Self {
        FilterDebounce { debounce_time: self.debounce_time, last_sample: now, ignore_next: ignore }
    }

    /// A debouncer whose window is `debounce_time` microseconds (saturated to
    /// `i64::MAX`), counting from `now`, with nothing to swallow.
    pub fn from_micros(debounce_time: u128, now: i64) -> (r: Self)
        ensures
            r.window() == window_of(debounce_time),
            r.last() == now,
            !r.ignoring(),
    {
        FilterDebounce {
            debounce_time: saturate_window(debounce_time),
            last_sample: now,
            ignore_next: false,
        }
    }

    /// A debouncer whose window is `debounce_time`, counting from `now`, with
    /// nothing to swallow.
    pub fn new(debounce_time: core::time::Duration, now: i64) -> (r: Self)
        ensures
            r.window() == window_of(duration_micros(debounce_time)),
            r.last() == now,
            !r.ignoring(),
    {
        Self::from_micros(micros_in(debounce_time), now)
    }

    pub fn debounce_time(&self) -> (r: i64)
        ensures
            r == self.window(),
    {
        self.debounce_time
    }

    pub fn last_sample(&self) -> (r: i64)
        ensures
            r == self.last(),
    {
        self.last_sample
    }

    pub fn ignore_next(&self) -> (r: bool)
        ensures
            r == self.ignoring(),
    {
        self.ignore_next
    }
}

impl Debounce for FilterDebounce {
    open spec fn accepts(&self, now: i64) -> bool {
        !self.ignoring() && now - self.last() >= self.window()
    }

    open spec fn after(&self, now: i64) -> Self {
        self.stamped(now, !self.ignoring() && now - self.last() < self.window())
    }

    fn is_isr_valid(&mut self, now: i64) -> (r: bool) {
        let mut is_passed = false;
        if !self.ignore_next {
            if (now as i128) - (self.last_sample as i128) < self.debounce_time as i128 {
                self.ignore_next = true;
            } else {
                is_passed = true;
            }
        } else {
            self.ignore_next = false;
        }
        self.last_sample = now;
        is_passed
    }
}

/// A stamped filtering debouncer keeps its window and holds `now` as the
/// last firing and `ignore` as the flag.
pub broadcast proof fn lemma_filter_stamped(d: FilterDebounce, now: i64, ignore: bool)
    ensures
        #![trigger d.stamped(now, ignore)]
        d.stamped(now, ignore).window() == d.window(),
        d.stamped(now, ignore).last() == now,
        d.stamped(now, ignore).ignoring() == ignore,
{
}

/// The facts that let a caller read a debouncer's state after a firing.
pub broadcast group group_debounce_state {
    lemma_classic_stamped,
    lemma_filter_stamped,
}

/// The flag is set only by a firing that finds it clear and comes inside the
/// window, which is then rejected; so it is never set by two firings in a
/// row.
pub proof fn lemma_filter_flag_source(d: FilterDebounce, now: i64)
    ensures
        d.after(now).ignoring() ==> (!d.ignoring() && !d.accepts(now) && now - d.last()
            < d.window()),
        d.after(now).ignoring() ==> !d.after(now).after(now).ignoring(),
{
}

/// There is one verdict per firing.
pub proof fn lemma_verdicts_len<D: Debounce>(d: D, times: Seq<i64>)
    ensures
        verdicts(d, times).len() == times.len(),
    decreases times.len(),
{
    if times.len() > 0 {
        lemma_verdicts_len(d.after(times[0]), times.drop_first());
    }
}

/// The disabled debouncer accepts every firing, whatever the timing.
pub proof fn lemma_no_debounce_accepts_all(times: Seq<i64>)
    ensures
        verdicts(NoDebounce, times).len() == times.len(),
        forall|i: int| 0 <= i < times.len() ==> #[trigger] verdicts(NoDebounce, times)[i],
    decreases times.len(),
{
    lemma_verdicts_len(NoDebounce, times);
    if times.len() > 0 {
        lemma_no_debounce_accepts_all(times.drop_first());
    }
}

/// Firings that each come at least a window after the one before (the first
/// at least a window after the last accepted one) are all accepted by the
/// classic debouncer.
pub proof fn lemma_classic_spaced_accepts_all(d: ClassicDebounce, times: Seq<i64>)
    requires
        times.len() > 0 ==> times[0] - d.last() >= d.window(),
        forall|i: int| 0 < i < times.len() ==> #[trigger] times[i] - times[i - 1] >= d.window(),
    ensures
        verdicts(d, times).len() == times.len(),
        forall|i: int| 0 <= i < times.len() ==> #[trigger] verdicts(d, times)[i],
        settled(d, times).window() == d.window(),
        settled(d, times).last() == (if times.len() > 0 {
            times.last()
        } else {
            d.last()
        }),
    decreases times.len(),
{
    lemma_verdicts_len(d, times);
    if times.len() > 0 {
        let rest = times.drop_first();
        assert forall|i: int| 0 < i < rest.len() implies #[trigger] rest[i] - rest[i - 1]
            >= d.window() by {
            assert(rest[i] == times[i + 1] && rest[i - 1] == times[i]);
        }
        if rest.len() > 0 {
            assert(rest[0] == times[1]);
        }
        lemma_classic_spaced_accepts_all(d.after(times[0]), rest);
    }
}

/// Firings that all come less than a window after the last accepted one are
/// all rejected by the classic debouncer, and leave it as it was.
pub proof fn lemma_classic_rejects_within_window(d: ClassicDebounce, times: Seq<i64>)
    requires
        forall|i: int| 0 <= i < times.len() ==> #[trigger] times[i] - d.last() < d.window(),
    ensures
        verdicts(d, times).len() == times.len(),
        forall|i: int| 0 <= i < times.len() ==> !#[trigger] verdicts(d, times)[i],
        settled(d, times) == d,
    decreases times.len(),
{
    lemma_verdicts_len(d, times);
    if times.len() > 0 {
        let rest = times.drop_first();
        assert forall|i: int| 0 <= i < rest.len() implies #[trigger] rest[i] - d.last()
            < d.window() by {
            assert(rest[i] == times[i + 1]);
        }
        lemma_classic_rejects_within_window(d, rest);
    }
}

/// In a burst of firings that all come less than a window after the first,
/// the classic debouncer accepts the first (when it is a window after the last
/// accepted one) and only the first.
pub proof fn lemma_classic_burst_accepts_first(d: ClassicDebounce, times: Seq<i64>)
    requires
        times.len() > 0,
        times[0] - d.last() >= d.window(),
        forall|i: int| 0 < i < times.len() ==> #[trigger] times[i] - times[0] < d.window(),
    ensures
        verdicts(d, times).len() == times.len(),
        verdicts(d, times)[0],
        forall|i: int| 0 < i < times.len() ==> !#[trigger] verdicts(d, times)[i],
        settled(d, times).window() == d.window(),
        settled(d, times).last() == times[0],
{
    lemma_verdicts_len(d, times);
    let rest = times.drop_first();
    let next = d.after(times[0]);
    assert forall|i: int| 0 <= i < rest.len() implies #[trigger] rest[i] - next.last()
        < next.window() by {
        assert(rest[i] == times[i + 1]);
    }
    lemma_classic_rejects_within_window(next, rest);
    assert forall|i: int| 0 < i < times.len() implies !#[trigger] verdicts(d, times)[i] by {
        assert(verdicts(d, times)[i] == verdicts(next, rest)[i - 1]);
    }
}

/// With a zero window, the classic debouncer accepts every firing of a
/// monotonic clock.
pub proof fn lemma_classic_zero_window_accepts_all(d: ClassicDebounce, times: Seq<i64>)
    requires
        d.window() == 0,
        monotone_from(d.last(), times),
    ensures
        verdicts(d, times).len() == times.len(),
        forall|i: int| 0 <= i < times.len() ==> #[trigger] verdicts(d, times)[i],
        settled(d, times).window() == 0,
        settled(d, times).last() == (if times.len() > 0 {
            times.last()
        } else {
            d.last()
        }),
    decreases times.len(),
{
    lemma_verdicts_len(d, times);
    if times.len() > 0 {
        let rest = times.drop_first();
        let next = d.after(times[0]);
        assert forall|i: int| 0 < i < rest.len() implies #[trigger] rest[i] >= rest[i - 1] by {
            assert(rest[i] == times[i + 1] && rest[i - 1] == times[i]);
        }
        if rest.len() > 0 {
            assert(rest[0] == times[1]);
        }
        lemma_classic_zero_window_accepts_all(next, rest);
        assert forall|i: int| 0 <= i < times.len() implies #[trigger] verdicts(d, times)[i] by {
            if i > 0 {
                assert(verdicts(d, times)[i] == verdicts(next, rest)[i - 1]);
            }
        }
    }
}

/// With a zero window and nothing to swallow, the filtering debouncer
/// accepts every firing of a monotonic clock.
pub proof fn lemma_filter_zero_window_accepts_all(d: FilterDebounce, times: Seq<i64>)
    requires
        d.window() == 0,
        !d.ignoring(),
        monotone_from(d.last(), times),
    ensures
        verdicts(d, times).len() == times.len(),
        forall|i: int| 0 <= i < times.len() ==> #[trigger] verdicts(d, times)[i],
        verdicts(d, times) == verdicts(NoDebounce, times),
        settled(d, times).window() == 0,
        !settled(d, times).ignoring(),
        settled(d, times).last() == (if times.len() > 0 {
            times.last()
        } else {
            d.last()
        }),
    decreases times.len(),
{
    lemma_verdicts_len(d, times);
    if times.len() > 0 {
        let rest = times.drop_first();
        let next = d.after(times[0]);
        assert forall|i: int| 0 < i < rest.len() implies #[trigger] rest[i] >= rest[i - 1] by {
            assert(rest[i] == times[i + 1] && rest[i - 1] == times[i]);
        }
        if rest.len() > 0 {
            assert(rest[0] == times[1]);
        }
        lemma_filter_zero_window_accepts_all(next, rest);
        assert forall|i: int| 0 <= i < times.len() implies #[trigger] verdicts(d, times)[i] by {
            if i > 0 {
                assert(verdicts(d, times)[i] == verdicts(next, rest)[i - 1]);
            }
        }
    }
}

/// The filtering debouncer swallows a glitch and its echo: after an accepted
/// firing at `t0`, a firing at `t1` inside the window is rejected and arms
/// the flag; the next one, at any later `t2`, is rejected and clears it; and
/// the one after that, at `t3`, is judged by the window alone, counted from
/// `t2`. The window rule applies again from the fourth firing on.
pub proof fn lemma_filter_swallows_glitch_pair(
    d: FilterDebounce,
    t0: i64,
    t1: i64,
    t2: i64,
    t3: i64,
)
    requires
        !d.ignoring(),
        t0 - d.last() >= d.window(),
        t1 - t0 < d.window(),
    ensures
        d.accepts(t0),
        !d.after(t0).accepts(t1),
        d.after(t0).after(t1).ignoring(),
        !d.after(t0).after(t1).accepts(t2),
        !d.after(t0).after(t1).after(t2).ignoring(),
        d.after(t0).after(t1).after(t2).last() == t2,
        d.after(t0).after(t1).after(t2).window() == d.window(),
        d.after(t0).after(t1).after(t2).accepts(t3) == (t3 - t2 >= d.window()),
        d.after(t0).after(t1).after(t2).after(t3).ignoring() == (t3 - t2 < d.window()),
        d.after(t0).after(t1).after(t2).after(t3).last() == t3,
        d.after(t0).after(t1).after(t2).after(t3).window() == d.window(),
{
}

} // verus!
