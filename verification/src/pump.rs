//! The pump's output level and the time since it was last switched on.
use crate::text::{append_decimal, decimal};
use std::time::{Duration, Instant};
use vstd::prelude::*;

verus! {

/// `std::time::Instant`, a reading of the monotonic clock. Nothing inside it
/// is visible here: an instant can only be kept and handed back to the clock.
#[verifier::external_type_specification]
#[verifier::external_body]
pub struct ExInstant(Instant);

/// `Instant::now` reads the clock. Nothing is claimed of the reading.
pub assume_specification[ Instant::now ]() -> Instant
;

/// The time from `earlier` to `later` as `Instant::saturating_duration_since`
/// gives it: zero when `earlier` is the later one.
pub uninterp spec fn span_between(later: Instant, earlier: Instant) -> Duration;

/// The whole seconds of a duration as `Duration::as_secs` gives them.
pub uninterp spec fn whole_secs(duration: Duration) -> u64;

/// `Instant::saturating_duration_since` depends on its two instants alone:
/// its result is what `span_between` names. It never panics.
pub assume_specification[ Instant::saturating_duration_since ](
    later: &Instant,
    earlier: Instant,
) -> (span: Duration)
    ensures
        span == span_between(*later, earlier),
;

/// `Duration::as_secs` depends on the duration alone: its result is what
/// `whole_secs` names.
pub assume_specification[ Duration::as_secs ](duration: &Duration) -> (secs: u64)
    ensures
        secs == whole_secs(*duration),
;

/// Seconds below which an elapsed time is given in seconds.
pub const SECS_PER_MINUTE: u64 = 60;

/// Seconds below which an elapsed time is given in minutes.
pub const SECS_PER_HOUR: u64 = 3600;

/// The text for a pump that was never switched on.
pub open spec fn never_text() -> Seq<char> {
    "Never"@
}

/// The text for `secs` elapsed seconds, in the coarsest unit that fits:
/// seconds below a minute, whole minutes below an hour, whole hours above.
/// Minutes and hours are rounded down.
pub open spec fn elapsed_text(secs: nat) -> Seq<char> {
    if secs < SECS_PER_MINUTE {
        decimal(secs) + " sec ago"@
    } else if secs < SECS_PER_HOUR {
        decimal(secs / (SECS_PER_MINUTE as nat)) + " min ago"@
    } else {
        decimal(secs / (SECS_PER_HOUR as nat)) + " hr ago"@
    }
}

/// The text for an elapsed time in seconds, or for none.
pub open spec fn description(elapsed_secs: Option<u64>) -> Seq<char> {
    match elapsed_secs {
        Some(secs) => elapsed_text(secs as nat),
        None => never_text(),
    }
}

/// Describes the time since the last activation, given in whole seconds, or
/// says that there was none.
pub fn describe_elapsed(elapsed_secs: Option<u64>) -> (text: String)
    ensures
        text@ == description(elapsed_secs),
{
    match elapsed_secs {
        Some(secs) => {
            let mut text = String::new();
            if secs < SECS_PER_MINUTE {
                append_decimal(&mut text, secs);
                text.append(" sec ago");
            } else if secs < SECS_PER_HOUR {
                append_decimal(&mut text, secs / SECS_PER_MINUTE);
                text.append(" min ago");
            } else {
                append_decimal(&mut text, secs / SECS_PER_HOUR);
                text.append(" hr ago");
            }
            assert(text@ =~= elapsed_text(secs as nat));
            text
        },
        None => "Never".to_owned(),
    }
}

/// What a pump remembers: the level its output is driven to, and the instant
/// of the last switch to on, if there was one.
pub struct PumpView {
    pub running: bool,
    pub last_on: Option<Instant>,
}

impl PumpView {
    /// A pump that is off and was never on.
    pub open spec fn idle() -> PumpView {
        PumpView { running: false, last_on: None }
    }

    /// The pump after it was switched on at `now`: any earlier stamp is
    /// replaced.
    pub open spec fn switched_on(self, now: Instant) -> PumpView {
        PumpView { running: true, last_on: Some(now) }
    }

    /// The pump after it was switched off: the stamp stays.
    pub open spec fn switched_off(self) -> PumpView {
        PumpView { running: false, last_on: self.last_on }
    }

    /// The whole seconds from the stamp to `now`, if there is a stamp.
    pub open spec fn elapsed_secs_at(self, now: Instant) -> Option<u64> {
        match self.last_on {
            Some(stamp) => Some(whole_secs(span_between(now, stamp))),
            None => None,
        }
    }
}

/// Tracks the pump: whether its output is on, and when it last went on.
pub struct Pump {
    running: bool,
    last_on: Option<Instant>,
}

impl View for Pump {
    type V = PumpView;

    closed spec fn view(&self) -> PumpView {
        PumpView { running: self.running, last_on: self.last_on }
    }
}

impl Pump {
    /// A pump with its output off that was never on.
    pub fn new() -> (pump: Pump)
        ensures
            pump@ == PumpView::idle(),
    {
        Pump { running: false, last_on: None }
    }

    /// Switches the output on and stamps the present instant.
    pub fn on(&mut self)
        ensures
            final(self)@.running,
            final(self)@.last_on is Some,
    {
        self.on_at(Instant::now());
    }

    /// Switches the output on and stamps `now`.
    pub fn on_at(&mut self, now: Instant)
        ensures
            final(self)@ == old(self)@.switched_on(now),
    {
        self.running = true;
        self.last_on = Some(now);
    }

    /// Switches the output off. The stamp is not touched.
    pub fn off(&mut self)
        ensures
            final(self)@ == old(self)@.switched_off(),
    {
        self.running = false;
    }

    /// The level the output is to be driven to.
    pub fn is_on(&self) -> (running: bool)
        ensures
            running == self@.running,
    {
        self.running
    }

    /// Describes how long ago the pump was last switched on, by the clock's
    /// present reading: the text for the whole seconds from the stamp to some
    /// instant if it ever was, and the text for never otherwise.
    pub fn time_since_last_on_str(&self) -> (text: String)
        ensures
            exists|now: Instant| text@ == description(self@.elapsed_secs_at(now)),
            self@.last_on is None ==> text@ == never_text(),
    {
        self.time_since_last_on_str_at(Instant::now())
    }

    /// Describes how long before `now` the pump was last switched on: the whole
    /// seconds from the stamp to `now` in the coarsest unit that fits, or the
    /// text for never.
    pub fn time_since_last_on_str_at(&self, now: Instant) -> (text: String)
        ensures
            text@ == description(self@.elapsed_secs_at(now)),
    {
        match self.time_since_last_on(now) {
            Some(duration) => describe_elapsed(Some(duration.as_secs())),
            None => describe_elapsed(None),
        }
    }

    /// The time from the last switch to on until `now`, if there was one.
    fn time_since_last_on(&self, now: Instant) -> (elapsed: Option<Duration>)
        ensures
            elapsed == match self@.last_on {
                Some(stamp) => Some(span_between(now, stamp)),
                None => None,
            },
    {
        match self.last_on {
            Some(stamp) => Some(now.saturating_duration_since(stamp)),
            None => None,
        }
    }
}

/// Switching the pump off after switching it on leaves the stamp of the
/// switch to on in place: the elapsed time still counts from that switch,
/// and its text never reads as never.
pub proof fn lemma_off_keeps_activation(pump: PumpView, now: Instant, later: Instant)
    ensures
        pump.switched_on(now).switched_off().last_on == Some(now),
        !pump.switched_on(now).switched_off().running,
        pump.switched_on(now).switched_off().elapsed_secs_at(later) == Some(
            whole_secs(span_between(later, now)),
        ),
        description(pump.switched_on(now).switched_off().elapsed_secs_at(later)) != never_text(),
{
    lemma_elapsed_is_not_never(whole_secs(span_between(later, now)));
}

/// No elapsed time reads as never.
pub proof fn lemma_elapsed_is_not_never(secs: u64)
    ensures
        description(Some(secs)) != never_text(),
{
    reveal_strlit("Never");
    reveal_strlit(" sec ago");
    reveal_strlit(" min ago");
    reveal_strlit(" hr ago");
    let text = elapsed_text(secs as nat);
    assert(text[text.len() - 1] == 'o');
    assert(never_text()[never_text().len() - 1] == 'r');
}

} // verus!
