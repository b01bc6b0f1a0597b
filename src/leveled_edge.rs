use vstd::prelude::*;

use crate::debounce::{settled, Debounce};

verus! {

/// The level that the pin's interrupt is armed to fire on.
#[derive(Clone, Copy, Debug, PartialEq, Eq, Structural)]
pub enum Trigger {
    HighLevel,
    LowLevel,
}

/// The trigger to arm when the pin is believed to be at `level`: the
/// opposite level, so that the next transition fires it.
pub open spec fn trigger_for(level: bool) -> Trigger {
    if level {
        Trigger::LowLevel
    } else {
        Trigger::HighLevel
    }
}

/// The level that `t` fires on.
pub open spec fn level_of(t: Trigger) -> bool {
    t == Trigger::HighLevel
}

/// Picks the trigger to arm when the pin is believed to be at `level`.
pub fn next_trigger(level: bool) -> (r: Trigger)
    ensures
        r == trigger_for(level),
        level_of(r) == !level,
{
    match level {
        true => Trigger::LowLevel,
        false => Trigger::HighLevel,
    }
}

/// The driver's code for success.
pub const ESP_OK: i32 = 0;

/// The driver's code for a service that is already installed.
pub const ESP_ERR_INVALID_STATE: i32 = 0x103;

/// Reads the code that installing the driver-wide interrupt service returned.
/// An already installed service is as good as a fresh one; any other code
/// than success is an error.
pub fn isr_service_status(code: i32) -> (r: Result<(), i32>)
    ensures
        r == (if code == ESP_OK || code == ESP_ERR_INVALID_STATE {
            Ok::<(), i32>(())
        } else {
            Err(code)
        }),
{
    if code == ESP_OK || code == ESP_ERR_INVALID_STATE {
        Ok(())
    } else {
        Err(code)
    }
}

/// What the interrupt handler does once the state has taken a firing.
#[derive(Clone, Copy, Debug, PartialEq, Eq, Structural)]
pub struct Reaction {
    /// The level to hand to the callback, if the firing was genuine.
    pub notify: Option<bool>,
    /// The trigger to arm before the interrupt is enabled again.
    pub rearm: Trigger,
}

/// The state of a level-alternation controller: the level the pin is
/// believed to be at, and the debouncer that judges each firing.
///
/// The armed trigger is never stored: it is always `trigger_for` the
/// believed level.
pub struct EdgeState<D: Debounce> {
    pin_state: bool,
    debouncer: D,
}

impl<D: Debounce> EdgeState<D> {
    /// The level the pin is believed to be at.
    pub closed spec fn level(&self) -> bool {
        self.pin_state
    }

    /// The debouncer's state.
    pub closed spec fn filter(&self) -> D {
        self.debouncer
    }

    /// The state that a firing at `now` leaves behind: the level flipped and
    /// the debouncer advanced.
    pub closed spec fn fired(&self, now: i64) -> Self {
        EdgeState { pin_state: !self.pin_state, debouncer: self.debouncer.after(now) }
    }

    /// The state after firings at `times`, one after the other.
    pub open spec fn fired_all(self, times: Seq<i64>) -> Self
        decreases times.len(),
    {
        if times.len() == 0 {
            self
        } else {
            self.fired(times[0]).fired_all(times.drop_first())
        }
    }

    /// A controller that believes the pin is at `initial_level`, the level
    /// read once from the pin.
    pub fn new(initial_level: bool, debouncer: D) -> (r: Self)
        ensures
            r.level() == initial_level,
            r.filter() == debouncer,
    {
        EdgeState { pin_state: initial_level, debouncer }
    }

    /// The level the pin is believed to be at.
    pub fn pin_state(&self) -> (r: bool)
        ensures
            r == self.level(),
    {
        self.pin_state
    }

    /// The debouncer.
    pub fn debouncer(&self) -> (r: &D)
        ensures
            *r == self.filter(),
    {
        &self.debouncer
    }

    /// The trigger to arm for the believed level: its complement.
    pub fn armed_trigger(&self) -> (r: Trigger)
        ensures
            r == trigger_for(self.level()),
            level_of(r) == !self.level(),
    {
        next_trigger(self.pin_state)
    }

    /// Takes one firing of the armed trigger at time `now`. The level is
    /// assumed to have changed and is flipped without reading the pin; the
    /// callback gets the new level if the debouncer accepts the firing; the
    /// trigger is re-armed for the level opposite the new one.
    pub fn on_firing(&mut self, now: i64) -> (r: Reaction)
        ensures
            final(self).level() == !old(self).level(),
            *final(self) == old(self).fired(now),
            final(self).filter() == old(self).filter().after(now),
            r.notify == (if old(self).filter().accepts(now) {
                Some(final(self).level())
            } else {
                None
            }),
            r.rearm == trigger_for(final(self).level()),
            level_of(r.rearm) == !final(self).level(),
    {
        self.pin_state = !self.pin_state;
        let notify = if self.debouncer.is_isr_valid(now) {
            Some(self.pin_state)
        } else {
            None
        };
        Reaction { notify, rearm: next_trigger(self.pin_state) }
    }
}

/// The trigger armed for a believed level always fires on its complement,
/// before a firing and after it alike.
pub proof fn lemma_trigger_complements_level<D: Debounce>(s: EdgeState<D>, times: Seq<i64>)
    ensures
        level_of(trigger_for(s.level())) == !s.level(),
        level_of(trigger_for(s.fired_all(times).level())) == !s.fired_all(times).level(),
{
}

/// After `n` firings the believed level is the initial one, flipped when
/// `n` is odd.
pub proof fn lemma_level_after_firings<D: Debounce>(s: EdgeState<D>, times: Seq<i64>)
    ensures
        s.fired_all(times).level() == (s.level() != (times.len() % 2 == 1)),
    decreases times.len(),
{
    if times.len() > 0 {
        lemma_level_after_firings(s.fired(times[0]), times.drop_first());
    }
}

/// After firings at `times` the debouncer is where the same firings take it
/// on its own.
pub proof fn lemma_filter_after_firings<D: Debounce>(s: EdgeState<D>, times: Seq<i64>)
    ensures
        s.fired_all(times).filter() == settled(s.filter(), times),
    decreases times.len(),
{
    if times.len() > 0 {
        lemma_filter_after_firings(s.fired(times[0]), times.drop_first());
    }
}

} // verus!
