//! The rotator's motion vocabulary — the two independent axes, the combined
//! [`DriveCommand`], the [`Command`] surface — and [`Debouncer`], the state
//! machine that keeps the four direction outputs from chattering: an output
//! that is energised stays on for at least [`OUTPUT_MIN_ACTIVE_MS`], and an
//! axis that is released stays off for at least [`OUTPUT_MIN_INACTIVE_MS`].
use vstd::prelude::*;

verus! {

/// Minimum time a direction output stays active once energised.
pub const OUTPUT_MIN_ACTIVE_MS: u64 = 500;

/// Minimum time an axis stays inactive before it may be energised again.
pub const OUTPUT_MIN_INACTIVE_MS: u64 = OUTPUT_MIN_ACTIVE_MS;

/// Azimuth motion carried by a drive command.
#[derive(Clone, Copy, Debug, PartialEq, Eq, Structural)]
pub enum AzimuthDirection {
    /// Clockwise azimuth movement.
    Clockwise,
    /// Counter-clockwise azimuth movement.
    CounterClockwise,
}

/// Elevation motion carried by a drive command.
#[derive(Clone, Copy, Debug, PartialEq, Eq, Structural)]
pub enum ElevationDirection {
    /// Upward elevation movement.
    Up,
    /// Downward elevation movement.
    Down,
}

/// Simultaneous drive state for the two independent rotator axes.
#[derive(Clone, Copy, Debug, PartialEq, Eq, Structural)]
pub struct DriveCommand {
    /// Azimuth direction, or `None` when azimuth is idle.
    pub azimuth: Option<AzimuthDirection>,
    /// Elevation direction, or `None` when elevation is idle.
    pub elevation: Option<ElevationDirection>,
}

impl DriveCommand {
    /// No axis is moving.
    pub fn idle() -> (d: Self)
        ensures
            d == idle_drive(),
    {
        Self { azimuth: None, elevation: None }
    }

    /// Whether either axis is moving.
    pub open spec fn spec_is_active(self) -> bool {
        self.azimuth is Some || self.elevation is Some
    }

    /// Whether either axis is moving.
    pub fn is_active(&self) -> (a: bool)
        ensures
            a == self.spec_is_active(),
    {
        self.azimuth.is_some() || self.elevation.is_some()
    }
}

/// The drive state in which no axis moves.
pub open spec fn idle_drive() -> DriveCommand {
    DriveCommand { azimuth: None, elevation: None }
}

/// A command to the rotator drive.
#[derive(Clone, Copy, Debug, PartialEq, Eq, Structural)]
pub enum Command {
    /// Move either or both axes; a lease the client must keep refreshing.
    Drive(DriveCommand),
    /// Stop all direction outputs.
    Stop,
}

/// The drive state a command asks for.
pub open spec fn command_target(command: Command) -> DriveCommand {
    match command {
        Command::Drive(drive) => drive,
        Command::Stop => idle_drive(),
    }
}

/// `a + b`, clamped to `u64::MAX`.
pub open spec fn saturating_sum(a: u64, b: u64) -> u64 {
    if a + b > u64::MAX {
        u64::MAX
    } else {
        (a + b) as u64
    }
}

/// The larger of two instants.
pub open spec fn later_of(a: u64, b: u64) -> u64 {
    if a >= b {
        a
    } else {
        b
    }
}

/// The earlier of two instants.
pub open spec fn earlier_of(a: u64, b: u64) -> u64 {
    if a < b {
        a
    } else {
        b
    }
}

/// A timed input to a [`Debouncer`]: `Some(command)` is a call of
/// [`Debouncer::set_target`], `None` a call of [`Debouncer::update`], at the
/// given millisecond instant.
pub type DebounceEvent = (Option<Command>, u64);

/// Minimum active/inactive-time filter for the four physical direction
/// outputs. It tracks the requested drive state (the target) and the state
/// that may be physically applied now (the actual), with per-output deadlines.
#[derive(Clone, Copy, Debug, PartialEq, Eq)]
pub struct Debouncer {
    target: DriveCommand,
    actual: DriveCommand,
    cw_until_ms: u64,
    ccw_until_ms: u64,
    azimuth_off_until_ms: u64,
    up_until_ms: u64,
    down_until_ms: u64,
    elevation_off_until_ms: u64,
}

impl Debouncer {
    /// The requested drive state.
    pub closed spec fn spec_target(self) -> DriveCommand {
        self.target
    }

    /// The drive state that may be physically applied.
    pub closed spec fn spec_actual(self) -> DriveCommand {
        self.actual
    }

    /// The instant before which the azimuth output `direction`, once
    /// energised, must stay on.
    pub closed spec fn azimuth_until(self, direction: AzimuthDirection) -> u64 {
        match direction {
            AzimuthDirection::Clockwise => self.cw_until_ms,
            AzimuthDirection::CounterClockwise => self.ccw_until_ms,
        }
    }

    /// The instant before which the elevation output `direction`, once
    /// energised, must stay on.
    pub closed spec fn elevation_until(self, direction: ElevationDirection) -> u64 {
        match direction {
            ElevationDirection::Up => self.up_until_ms,
            ElevationDirection::Down => self.down_until_ms,
        }
    }

    /// The instant before which a released azimuth axis must stay off.
    pub closed spec fn azimuth_off_until(self) -> u64 {
        self.azimuth_off_until_ms
    }

    /// The instant before which a released elevation axis must stay off.
    pub closed spec fn elevation_off_until(self) -> u64 {
        self.elevation_off_until_ms
    }

    /// Everything the azimuth axis's behaviour depends on.
    pub closed spec fn azimuth_part(self) -> (
        Option<AzimuthDirection>,
        Option<AzimuthDirection>,
        u64,
        u64,
        u64,
    ) {
        (
            self.target.azimuth,
            self.actual.azimuth,
            self.cw_until_ms,
            self.ccw_until_ms,
            self.azimuth_off_until_ms,
        )
    }

    /// Everything the elevation axis's behaviour depends on.
    pub closed spec fn elevation_part(self) -> (
        Option<ElevationDirection>,
        Option<ElevationDirection>,
        u64,
        u64,
        u64,
    ) {
        (
            self.target.elevation,
            self.actual.elevation,
            self.up_until_ms,
            self.down_until_ms,
            self.elevation_off_until_ms,
        )
    }

    /// An idle debouncer: nothing requested, nothing applied, no deadlines.
    pub open spec fn is_fresh(self) -> bool {
        &&& self.spec_target() == idle_drive()
        &&& self.spec_actual() == idle_drive()
        &&& self.azimuth_until(AzimuthDirection::Clockwise) == 0
        &&& self.azimuth_until(AzimuthDirection::CounterClockwise) == 0
        &&& self.azimuth_off_until() == 0
        &&& self.elevation_until(ElevationDirection::Up) == 0
        &&& self.elevation_until(ElevationDirection::Down) == 0
        &&& self.elevation_off_until() == 0
    }

    /// This debouncer with the target replaced by what `command` asks for.
    pub closed spec fn retargeted(self, command: Command) -> Self {
        Debouncer { target: command_target(command), ..self }
    }

    /// The azimuth axis advanced to `now`: nothing changes while the axis is
    /// on target or its energised output is inside its minimum active time;
    /// otherwise the output is released (starting the minimum inactive time),
    /// and the target direction is energised once the axis has been off long
    /// enough, starting its minimum active time.
    pub closed spec fn azimuth_stepped(self, now: u64) -> Self {
        if self.actual.azimuth == self.target.azimuth {
            self
        } else if self.actual.azimuth matches Some(current) && now < self.azimuth_until(current) {
            self
        } else {
            let off_until = if self.actual.azimuth is Some {
                saturating_sum(now, OUTPUT_MIN_INACTIVE_MS)
            } else {
                self.azimuth_off_until_ms
            };
            let released = Debouncer {
                actual: DriveCommand { azimuth: None, ..self.actual },
                azimuth_off_until_ms: off_until,
                ..self
            };
            if now < off_until {
                released
            } else {
                match self.target.azimuth {
                    Some(AzimuthDirection::Clockwise) => Debouncer {
                        actual: DriveCommand {
                            azimuth: Some(AzimuthDirection::Clockwise),
                            ..self.actual
                        },
                        cw_until_ms: saturating_sum(now, OUTPUT_MIN_ACTIVE_MS),
                        ..released
                    },
                    Some(AzimuthDirection::CounterClockwise) => Debouncer {
                        actual: DriveCommand {
                            azimuth: Some(AzimuthDirection::CounterClockwise),
                            ..self.actual
                        },
                        ccw_until_ms: saturating_sum(now, OUTPUT_MIN_ACTIVE_MS),
                        ..released
                    },
                    None => released,
                }
            }
        }
    }

    /// The elevation axis advanced to `now`, by the same rules as
    /// [`Debouncer::azimuth_stepped`].
    pub closed spec fn elevation_stepped(self, now: u64) -> Self {
        if self.actual.elevation == self.target.elevation {
            self
        } else if self.actual.elevation matches Some(current) && now < self.elevation_until(
            current,
        ) {
            self
        } else {
            let off_until = if self.actual.elevation is Some {
                saturating_sum(now, OUTPUT_MIN_INACTIVE_MS)
            } else {
                self.elevation_off_until_ms
            };
            let released = Debouncer {
                actual: DriveCommand { elevation: None, ..self.actual },
                elevation_off_until_ms: off_until,
                ..self
            };
            if now < off_until {
                released
            } else {
                match self.target.elevation {
                    Some(ElevationDirection::Up) => Debouncer {
                        actual: DriveCommand {
                            elevation: Some(ElevationDirection::Up),
                            ..self.actual
                        },
                        up_until_ms: saturating_sum(now, OUTPUT_MIN_ACTIVE_MS),
                        ..released
                    },
                    Some(ElevationDirection::Down) => Debouncer {
                        actual: DriveCommand {
                            elevation: Some(ElevationDirection::Down),
                            ..self.actual
                        },
                        down_until_ms: saturating_sum(now, OUTPUT_MIN_ACTIVE_MS),
                        ..released
                    },
                    None => released,
                }
            }
        }
    }

    /// Both axes advanced to `now`.
    pub closed spec fn stepped(self, now: u64) -> Self {
        self.azimuth_stepped(now).elevation_stepped(now)
    }

    /// The debouncer after one timed input.
    pub closed spec fn after_event(self, event: DebounceEvent) -> Self {
        match event.0 {
            Some(command) => self.retargeted(command).stepped(event.1),
            None => self.stepped(event.1),
        }
    }

    /// The debouncer after a sequence of timed inputs.
    pub closed spec fn after_events(self, events: Seq<DebounceEvent>) -> Self
        decreases events.len(),
    {
        if events.len() == 0 {
            self
        } else {
            self.after_event(events[0]).after_events(events.drop_first())
        }
    }

    /// The instant at which the azimuth axis may next change on its own:
    /// the end of the energised output's minimum active time, or of the
    /// released axis's minimum inactive time.
    pub open spec fn azimuth_deadline(self) -> u64 {
        match self.spec_actual().azimuth {
            Some(direction) => self.azimuth_until(direction),
            None => self.azimuth_off_until(),
        }
    }

    /// The instant at which the elevation axis may next change on its own.
    pub open spec fn elevation_deadline(self) -> u64 {
        match self.spec_actual().elevation {
            Some(direction) => self.elevation_until(direction),
            None => self.elevation_off_until(),
        }
    }

    /// The earliest instant, not before `now`, at which an axis that is off
    /// target may change; `None` when both axes are on target.
    pub open spec fn spec_next_transition(self, now: u64) -> Option<u64> {
        let az = self.spec_actual().azimuth != self.spec_target().azimuth;
        let el = self.spec_actual().elevation != self.spec_target().elevation;
        let az_at = later_of(self.azimuth_deadline(), now);
        let el_at = later_of(self.elevation_deadline(), now);
        if az && el {
            Some(earlier_of(az_at, el_at))
        } else if az {
            Some(az_at)
        } else if el {
            Some(el_at)
        } else {
            None
        }
    }

    /// Every energised output's minimum active time ends by
    /// `t + OUTPUT_MIN_ACTIVE_MS`: what holds after calls made no later than `t`.
    pub open spec fn holds_end_by(self, t: u64) -> bool {
        &&& (self.spec_actual().azimuth is Some ==> self.azimuth_until(self.spec_actual().azimuth->0)
            <= t + OUTPUT_MIN_ACTIVE_MS)
        &&& (self.spec_actual().elevation is Some ==> self.elevation_until(
            self.spec_actual().elevation->0,
        ) <= t + OUTPUT_MIN_ACTIVE_MS)
    }

    /// Create an idle debouncer.
    pub fn new() -> (d: Self)
        ensures
            d.is_fresh(),
            d.spec_target() == idle_drive(),
            d.spec_actual() == idle_drive(),
    {
        Self {
            target: DriveCommand::idle(),
            actual: DriveCommand::idle(),
            cw_until_ms: 0,
            ccw_until_ms: 0,
            azimuth_off_until_ms: 0,
            up_until_ms: 0,
            down_until_ms: 0,
            elevation_off_until_ms: 0,
        }
    }

    /// The currently requested drive state.
    pub fn target(&self) -> (t: DriveCommand)
        ensures
            t == self.spec_target(),
    {
        self.target
    }

    /// The drive state that is allowed to be physically applied now.
    pub fn actual(&self) -> (a: DriveCommand)
        ensures
            a == self.spec_actual(),
    {
        self.actual
    }

    /// Set a new target command and advance the debounced output state.
    /// Returns `true` when the actual state changed.
    pub fn set_target(&mut self, command: Command, now_ms: u64) -> (changed: bool)
        ensures
            *final(self) == old(self).retargeted(command).stepped(now_ms),
            final(self).spec_target() == command_target(command),
            changed == (final(self).spec_actual() != old(self).spec_actual()),
            now_ms < u64::MAX ==> no_direct_reversal(old(self).spec_actual(), final(self).spec_actual()),
            moves_only_toward_target(old(self).spec_actual(), final(self).spec_actual(), final(self).spec_target()),
    {
        self.target = match command {
            Command::Drive(drive) => drive,
            Command::Stop => DriveCommand::idle(),
        };
        self.update(now_ms)
    }

    /// Advance the debounced output state at `now_ms`. Returns `true` when the
    /// actual state changed.
    pub fn update(&mut self, now_ms: u64) -> (changed: bool)
        ensures
            *final(self) == old(self).stepped(now_ms),
            final(self).spec_target() == old(self).spec_target(),
            changed == (final(self).spec_actual() != old(self).spec_actual()),
            now_ms < u64::MAX ==> no_direct_reversal(old(self).spec_actual(), final(self).spec_actual()),
            moves_only_toward_target(old(self).spec_actual(), final(self).spec_actual(), final(self).spec_target()),
    {
        let before = self.actual;
        self.update_azimuth(now_ms);
        self.update_elevation(now_ms);
        proof {
            lemma_step_never_reverses(*old(self), now_ms);
            lemma_step_moves_toward_target(*old(self), now_ms);
        }
        self.actual != before
    }

    /// Next millisecond instant where a delayed target may become applicable:
    /// `None` exactly when both axes are on target; otherwise the earliest
    /// instant, not before `now_ms`, at which an update changes the actual
    /// state, every update strictly before it (from `now_ms` on) changing
    /// nothing.
    pub fn next_transition_ms(&self, now_ms: u64) -> (next: Option<u64>)
        ensures
            next == self.spec_next_transition(now_ms),
            next is None <==> self.spec_actual() == self.spec_target(),
            next matches Some(at) ==> {
                &&& now_ms <= at
                &&& self.stepped(at).spec_actual() != self.spec_actual()
                &&& forall|t: u64| now_ms <= t < at ==> #[trigger] self.stepped(t) == *self
            },
    {
        let mut next = None;

        if self.actual.azimuth != self.target.azimuth {
            let deadline = match self.actual.azimuth {
                Some(direction) => self.azimuth_until_ms(direction),
                None => self.azimuth_off_until_ms,
            };
            let at = if deadline >= now_ms {
                deadline
            } else {
                now_ms
            };
            next = Some(min_option(next, at));
        }

        if self.actual.elevation != self.target.elevation {
            let deadline = match self.actual.elevation {
                Some(direction) => self.elevation_until_ms(direction),
                None => self.elevation_off_until_ms,
            };
            let at = if deadline >= now_ms {
                deadline
            } else {
                now_ms
            };
            next = Some(min_option(next, at));
        }
        proof {
            lemma_next_transition_is_exact(*self, now_ms);
        }
        next
    }

    fn update_azimuth(&mut self, now_ms: u64)
        ensures
            *final(self) == old(self).azimuth_stepped(now_ms),
    {
        if self.actual.azimuth == self.target.azimuth {
            return;
        }
        if let Some(current) = self.actual.azimuth {
            if now_ms < self.azimuth_until_ms(current) {
                return;
            }
            self.actual.azimuth = None;
            self.azimuth_off_until_ms = now_ms.saturating_add(OUTPUT_MIN_INACTIVE_MS);
        }
        if now_ms < self.azimuth_off_until_ms {
            return;
        }
        if let Some(target) = self.target.azimuth {
            self.actual.azimuth = Some(target);
            self.set_azimuth_until_ms(target, now_ms.saturating_add(OUTPUT_MIN_ACTIVE_MS));
        }
    }

    fn update_elevation(&mut self, now_ms: u64)
        ensures
            *final(self) == old(self).elevation_stepped(now_ms),
    {
        if self.actual.elevation == self.target.elevation {
            return;
        }
        if let Some(current) = self.actual.elevation {
            if now_ms < self.elevation_until_ms(current) {
                return;
            }
            self.actual.elevation = None;
            self.elevation_off_until_ms = now_ms.saturating_add(OUTPUT_MIN_INACTIVE_MS);
        }
        if now_ms < self.elevation_off_until_ms {
            return;
        }
        if let Some(target) = self.target.elevation {
            self.actual.elevation = Some(target);
            self.set_elevation_until_ms(target, now_ms.saturating_add(OUTPUT_MIN_ACTIVE_MS));
        }
    }

    fn azimuth_until_ms(&self, direction: AzimuthDirection) -> (until: u64)
        ensures
            until == self.azimuth_until(direction),
    {
        match direction {
            AzimuthDirection::Clockwise => self.cw_until_ms,
            AzimuthDirection::CounterClockwise => self.ccw_until_ms,
        }
    }

    fn set_azimuth_until_ms(&mut self, direction: AzimuthDirection, until_ms: u64)
        ensures
            *final(self) == (match direction {
                AzimuthDirection::Clockwise => Debouncer { cw_until_ms: until_ms, ..*old(self) },
                AzimuthDirection::CounterClockwise => Debouncer {
                    ccw_until_ms: until_ms,
                    ..*old(self)
                },
            }),
    {
        match direction {
            AzimuthDirection::Clockwise => self.cw_until_ms = until_ms,
            AzimuthDirection::CounterClockwise => self.ccw_until_ms = until_ms,
        }
    }

    fn elevation_until_ms(&self, direction: ElevationDirection) -> (until: u64)
        ensures
            until == self.elevation_until(direction),
    {
        match direction {
            ElevationDirection::Up => self.up_until_ms,
            ElevationDirection::Down => self.down_until_ms,
        }
    }

    fn set_elevation_until_ms(&mut self, direction: ElevationDirection, until_ms: u64)
        ensures
            *final(self) == (match direction {
                ElevationDirection::Up => Debouncer { up_until_ms: until_ms, ..*old(self) },
                ElevationDirection::Down => Debouncer { down_until_ms: until_ms, ..*old(self) },
            }),
    {
        match direction {
            ElevationDirection::Up => self.up_until_ms = until_ms,
            ElevationDirection::Down => self.down_until_ms = until_ms,
        }
    }
}

impl Default for Debouncer {
    fn default() -> (d: Self)
        ensures
            d.is_fresh(),
    {
        Self::new()
    }
}

/// `candidate`, or `current` when that is set and earlier.
fn min_option(current: Option<u64>, candidate: u64) -> (m: u64)
    ensures
        m == match current {
            Some(c) => earlier_of(c, candidate),
            None => candidate,
        },
{
    match current {
        Some(current) if current < candidate => current,
        _ => candidate,
    }
}

/// No axis goes straight from one energised direction to the opposite one:
/// a reversal always passes through "off".
pub open spec fn no_direct_reversal(before: DriveCommand, after: DriveCommand) -> bool {
    &&& (before.azimuth is Some && after.azimuth is Some ==> before.azimuth == after.azimuth)
    &&& (before.elevation is Some && after.elevation is Some ==> before.elevation
        == after.elevation)
}

/// An axis whose actual direction changes goes either to off or to its
/// target direction, never anywhere else.
pub open spec fn moves_only_toward_target(before: DriveCommand, after: DriveCommand, target: DriveCommand) -> bool {
    &&& (after.azimuth != before.azimuth ==> after.azimuth is None || after.azimuth == target.azimuth)
    &&& (after.elevation != before.elevation ==> after.elevation is None || after.elevation
        == target.elevation)
}

/// One step moves each axis only to off or to its target.
proof fn lemma_step_moves_toward_target(d: Debouncer, now: u64)
    ensures
        moves_only_toward_target(d.spec_actual(), d.stepped(now).spec_actual(), d.stepped(now).spec_target()),
{
    lemma_steps_touch_only_their_axis(d, now);
    lemma_steps_touch_only_their_axis(d.azimuth_stepped(now), now);
}

/// Stepping the azimuth axis leaves every elevation field alone, and the
/// other way round.
proof fn lemma_steps_touch_only_their_axis(d: Debouncer, now: u64)
    ensures
        d.azimuth_stepped(now).elevation_part() == d.elevation_part(),
        d.azimuth_stepped(now).spec_target() == d.spec_target(),
        d.elevation_stepped(now).azimuth_part() == d.azimuth_part(),
        d.elevation_stepped(now).spec_target() == d.spec_target(),
{
}

/// Below `u64::MAX`, one step never swaps an energised direction for the
/// opposite one on either axis.
proof fn lemma_step_never_reverses(d: Debouncer, now: u64)
    ensures
        now < u64::MAX ==> no_direct_reversal(d.spec_actual(), d.stepped(now).spec_actual()),
{
}

/// The exactness of [`Debouncer::spec_next_transition`]: nothing changes
/// strictly before it, and the actual state changes at it.
proof fn lemma_next_transition_is_exact(d: Debouncer, now: u64)
    ensures
        d.spec_next_transition(now) is None <==> d.spec_actual() == d.spec_target(),
        d.spec_next_transition(now) matches Some(at) ==> {
            &&& now <= at
            &&& d.stepped(at).spec_actual() != d.spec_actual()
            &&& forall|t: u64| now <= t < at ==> #[trigger] d.stepped(t) == d
        },
{
    if let Some(at) = d.spec_next_transition(now) {
        assert forall|t: u64| now <= t < at implies #[trigger] d.stepped(t) == d by {
            assert(d.azimuth_stepped(t) == d);
            assert(d.elevation_stepped(t) == d);
        }
        lemma_steps_touch_only_their_axis(d, at);
        lemma_steps_touch_only_their_axis(d.azimuth_stepped(at), at);
    }
}

/// Updating twice at the same instant is the same as updating once.
pub proof fn lemma_update_is_idempotent(d: Debouncer, now: u64)
    ensures
        d.stepped(now).stepped(now) == d.stepped(now),
{
    let a = d.azimuth_stepped(now);
    let b = a.elevation_stepped(now);
    lemma_steps_touch_only_their_axis(d, now);
    lemma_steps_touch_only_their_axis(a, now);
    assert(b.azimuth_stepped(now) == b);
    lemma_steps_touch_only_their_axis(b, now);
    assert(b.elevation_stepped(now) == b);
}

/// The two axes are independent: how one axis evolves in an update depends
/// only on that axis's own target, state and deadlines.
pub proof fn lemma_axes_are_independent(a: Debouncer, b: Debouncer, now: u64)
    ensures
        a.azimuth_part() == b.azimuth_part() ==> a.stepped(now).azimuth_part() == b.stepped(
            now,
        ).azimuth_part(),
        a.elevation_part() == b.elevation_part() ==> a.stepped(now).elevation_part()
            == b.stepped(now).elevation_part(),
{
    lemma_steps_touch_only_their_axis(a, now);
    lemma_steps_touch_only_their_axis(b, now);
    lemma_steps_touch_only_their_axis(a.azimuth_stepped(now), now);
    lemma_steps_touch_only_their_axis(b.azimuth_stepped(now), now);
}

/// One input inside the minimum active time of an energised azimuth output
/// keeps it energised and leaves its deadline alone.
proof fn lemma_azimuth_hold_step(d: Debouncer, direction: AzimuthDirection, event: DebounceEvent)
    requires
        d.spec_actual().azimuth == Some(direction),
        event.1 < d.azimuth_until(direction),
    ensures
        d.after_event(event).spec_actual().azimuth == Some(direction),
        d.after_event(event).azimuth_until(direction) == d.azimuth_until(direction),
{
    let r = match event.0 {
        Some(command) => d.retargeted(command),
        None => d,
    };
    lemma_steps_touch_only_their_axis(r.azimuth_stepped(event.1), event.1);
}

proof fn lemma_azimuth_hold_events(
    d: Debouncer,
    direction: AzimuthDirection,
    events: Seq<DebounceEvent>,
)
    requires
        d.spec_actual().azimuth == Some(direction),
        forall|i: int| 0 <= i < events.len() ==> #[trigger] events[i].1 < d.azimuth_until(direction),
    ensures
        d.after_events(events).spec_actual().azimuth == Some(direction),
    decreases events.len(),
{
    if events.len() > 0 {
        lemma_azimuth_hold_step(d, direction, events[0]);
        let rest = events.drop_first();
        assert forall|i: int| 0 <= i < rest.len() implies #[trigger] rest[i].1 < d.after_event(
            events[0],
        ).azimuth_until(direction) by {
            assert(rest[i] == events[i + 1]);
        }
        lemma_azimuth_hold_events(d.after_event(events[0]), direction, rest);
    }
}

/// One input inside the minimum active time of an energised elevation output
/// keeps it energised and leaves its deadline alone.
proof fn lemma_elevation_hold_step(
    d: Debouncer,
    direction: ElevationDirection,
    event: DebounceEvent,
)
    requires
        d.spec_actual().elevation == Some(direction),
        event.1 < d.elevation_until(direction),
    ensures
        d.after_event(event).spec_actual().elevation == Some(direction),
        d.after_event(event).elevation_until(direction) == d.elevation_until(direction),
{
    let r = match event.0 {
        Some(command) => d.retargeted(command),
        None => d,
    };
    lemma_steps_touch_only_their_axis(r, event.1);
}

proof fn lemma_elevation_hold_events(
    d: Debouncer,
    direction: ElevationDirection,
    events: Seq<DebounceEvent>,
)
    requires
        d.spec_actual().elevation == Some(direction),
        forall|i: int|
            0 <= i < events.len() ==> #[trigger] events[i].1 < d.elevation_until(direction),
    ensures
        d.after_events(events).spec_actual().elevation == Some(direction),
    decreases events.len(),
{
    if events.len() > 0 {
        lemma_elevation_hold_step(d, direction, events[0]);
        let rest = events.drop_first();
        assert forall|i: int| 0 <= i < rest.len() implies #[trigger] rest[i].1 < d.after_event(
            events[0],
        ).elevation_until(direction) by {
            assert(rest[i] == events[i + 1]);
        }
        lemma_elevation_hold_events(d.after_event(events[0]), direction, rest);
    }
}

/// One input inside the minimum inactive time of a released azimuth axis
/// keeps it released and leaves its deadline alone.
proof fn lemma_azimuth_off_step(d: Debouncer, event: DebounceEvent)
    requires
        d.spec_actual().azimuth is None,
        event.1 < d.azimuth_off_until(),
    ensures
        d.after_event(event).spec_actual().azimuth is None,
        d.after_event(event).azimuth_off_until() == d.azimuth_off_until(),
{
    let r = match event.0 {
        Some(command) => d.retargeted(command),
        None => d,
    };
    lemma_steps_touch_only_their_axis(r.azimuth_stepped(event.1), event.1);
}

proof fn lemma_azimuth_off_events(d: Debouncer, events: Seq<DebounceEvent>)
    requires
        d.spec_actual().azimuth is None,
        forall|i: int| 0 <= i < events.len() ==> #[trigger] events[i].1 < d.azimuth_off_until(),
    ensures
        d.after_events(events).spec_actual().azimuth is None,
    decreases events.len(),
{
    if events.len() > 0 {
        lemma_azimuth_off_step(d, events[0]);
        let rest = events.drop_first();
        assert forall|i: int| 0 <= i < rest.len() implies #[trigger] rest[i].1 < d.after_event(
            events[0],
        ).azimuth_off_until() by {
            assert(rest[i] == events[i + 1]);
        }
        lemma_azimuth_off_events(d.after_event(events[0]), rest);
    }
}

/// One input inside the minimum inactive time of a released elevation axis
/// keeps it released and leaves its deadline alone.
proof fn lemma_elevation_off_step(d: Debouncer, event: DebounceEvent)
    requires
        d.spec_actual().elevation is None,
        event.1 < d.elevation_off_until(),
    ensures
        d.after_event(event).spec_actual().elevation is None,
        d.after_event(event).elevation_off_until() == d.elevation_off_until(),
{
    let r = match event.0 {
        Some(command) => d.retargeted(command),
        None => d,
    };
    lemma_steps_touch_only_their_axis(r, event.1);
}

proof fn lemma_elevation_off_events(d: Debouncer, events: Seq<DebounceEvent>)
    requires
        d.spec_actual().elevation is None,
        forall|i: int|
            0 <= i < events.len() ==> #[trigger] events[i].1 < d.elevation_off_until(),
    ensures
        d.after_events(events).spec_actual().elevation is None,
    decreases events.len(),
{
    if events.len() > 0 {
        lemma_elevation_off_step(d, events[0]);
        let rest = events.drop_first();
        assert forall|i: int| 0 <= i < rest.len() implies #[trigger] rest[i].1 < d.after_event(
            events[0],
        ).elevation_off_until() by {
            assert(rest[i] == events[i + 1]);
        }
        lemma_elevation_off_events(d.after_event(events[0]), rest);
    }
}

/// Minimum active time, azimuth: once an update at `t0` energises an azimuth
/// output, every further sequence of commands and updates timed before
/// `t0 + OUTPUT_MIN_ACTIVE_MS` leaves that output energised.
pub proof fn lemma_energised_azimuth_holds_minimum_time(
    before: Debouncer,
    t0: u64,
    events: Seq<DebounceEvent>,
)
    requires
        t0 + OUTPUT_MIN_ACTIVE_MS <= u64::MAX,
        before.stepped(t0).spec_actual().azimuth is Some,
        before.stepped(t0).spec_actual().azimuth != before.spec_actual().azimuth,
        forall|i: int|
            0 <= i < events.len() ==> #[trigger] events[i].1 < t0 + OUTPUT_MIN_ACTIVE_MS,
    ensures
        before.stepped(t0).after_events(events).spec_actual().azimuth == before.stepped(
            t0,
        ).spec_actual().azimuth,
{
    let a = before.azimuth_stepped(t0);
    lemma_steps_touch_only_their_axis(a, t0);
    let direction = before.stepped(t0).spec_actual().azimuth->0;
    assert(before.stepped(t0).azimuth_until(direction) == t0 + OUTPUT_MIN_ACTIVE_MS);
    lemma_azimuth_hold_events(before.stepped(t0), direction, events);
}

/// Minimum active time, elevation: once an update at `t0` energises an
/// elevation output, every further sequence of commands and updates timed
/// before `t0 + OUTPUT_MIN_ACTIVE_MS` leaves that output energised.
pub proof fn lemma_energised_elevation_holds_minimum_time(
    before: Debouncer,
    t0: u64,
    events: Seq<DebounceEvent>,
)
    requires
        t0 + OUTPUT_MIN_ACTIVE_MS <= u64::MAX,
        before.stepped(t0).spec_actual().elevation is Some,
        before.stepped(t0).spec_actual().elevation != before.spec_actual().elevation,
        forall|i: int|
            0 <= i < events.len() ==> #[trigger] events[i].1 < t0 + OUTPUT_MIN_ACTIVE_MS,
    ensures
        before.stepped(t0).after_events(events).spec_actual().elevation == before.stepped(
            t0,
        ).spec_actual().elevation,
{
    lemma_steps_touch_only_their_axis(before, t0);
    let direction = before.stepped(t0).spec_actual().elevation->0;
    assert(before.stepped(t0).elevation_until(direction) == t0 + OUTPUT_MIN_ACTIVE_MS);
    lemma_elevation_hold_events(before.stepped(t0), direction, events);
}

/// Minimum inactive time, azimuth: once an update at `t0` releases the
/// azimuth axis, every further sequence of commands and updates timed before
/// `t0 + OUTPUT_MIN_INACTIVE_MS` leaves it released.
pub proof fn lemma_released_azimuth_stays_off_minimum_time(
    before: Debouncer,
    t0: u64,
    events: Seq<DebounceEvent>,
)
    requires
        t0 + OUTPUT_MIN_INACTIVE_MS <= u64::MAX,
        before.spec_actual().azimuth is Some,
        before.stepped(t0).spec_actual().azimuth is None,
        forall|i: int|
            0 <= i < events.len() ==> #[trigger] events[i].1 < t0 + OUTPUT_MIN_INACTIVE_MS,
    ensures
        before.stepped(t0).after_events(events).spec_actual().azimuth is None,
{
    let a = before.azimuth_stepped(t0);
    lemma_steps_touch_only_their_axis(a, t0);
    assert(before.stepped(t0).azimuth_off_until() == t0 + OUTPUT_MIN_INACTIVE_MS);
    lemma_azimuth_off_events(before.stepped(t0), events);
}

/// Minimum inactive time, elevation: once an update at `t0` releases the
/// elevation axis, every further sequence of commands and updates timed
/// before `t0 + OUTPUT_MIN_INACTIVE_MS` leaves it released.
pub proof fn lemma_released_elevation_stays_off_minimum_time(
    before: Debouncer,
    t0: u64,
    events: Seq<DebounceEvent>,
)
    requires
        t0 + OUTPUT_MIN_INACTIVE_MS <= u64::MAX,
        before.spec_actual().elevation is Some,
        before.stepped(t0).spec_actual().elevation is None,
        forall|i: int|
            0 <= i < events.len() ==> #[trigger] events[i].1 < t0 + OUTPUT_MIN_INACTIVE_MS,
    ensures
        before.stepped(t0).after_events(events).spec_actual().elevation is None,
{
    lemma_steps_touch_only_their_axis(before, t0);
    assert(before.stepped(t0).elevation_off_until() == t0 + OUTPUT_MIN_INACTIVE_MS);
    lemma_elevation_off_events(before.stepped(t0), events);
}

/// An update never changes the target, and a command sets the target to
/// what it asks for.
pub proof fn lemma_target_follows_commands(d: Debouncer, command: Command, now: u64)
    ensures
        d.stepped(now).spec_target() == d.spec_target(),
        d.retargeted(command).spec_target() == command_target(command),
{
    lemma_steps_touch_only_their_axis(d, now);
    lemma_steps_touch_only_their_axis(d.azimuth_stepped(now), now);
}

/// Any two fresh debouncers are the same debouncer; in particular
/// [`Debouncer::new`] and [`Debouncer::default`] agree.
pub proof fn lemma_fresh_debouncers_are_equal(a: Debouncer, b: Debouncer)
    requires
        a.is_fresh(),
        b.is_fresh(),
    ensures
        a == b,
{
}

/// A fresh debouncer is settled (no transition pending, whatever the time)
/// and applies any command at once: after it, both the target and the
/// actual state are what the command asks for.
pub proof fn lemma_fresh_debouncer_applies_at_once(d: Debouncer, command: Command, now: u64)
    requires
        d.is_fresh(),
    ensures
        d.spec_next_transition(now) is None,
        d.retargeted(command).stepped(now).spec_actual() == command_target(command),
        d.retargeted(command).stepped(now).spec_target() == command_target(command),
{
    let r = d.retargeted(command);
    lemma_steps_touch_only_their_axis(r, now);
    lemma_steps_touch_only_their_axis(r.azimuth_stepped(now), now);
}

/// The inputs are the calls: `(Some(command), now)` is
/// [`Debouncer::set_target`]`(command, now)`, `(None, now)` is
/// [`Debouncer::update`]`(now)`, and a sequence of inputs is applied in
/// order, so appending an input applies it after the others.
pub proof fn lemma_events_are_calls(d: Debouncer, events: Seq<DebounceEvent>, command: Command, now: u64)
    ensures
        d.after_event((Some(command), now)) == d.retargeted(command).stepped(now),
        d.after_event((None, now)) == d.stepped(now),
        d.after_events(Seq::empty()) == d,
        d.after_events(events.push((Some(command), now))) == d.after_events(events).retargeted(
            command,
        ).stepped(now),
        d.after_events(events.push((None, now))) == d.after_events(events).stepped(now),
{
    lemma_after_events_push(d, events, (Some(command), now));
    lemma_after_events_push(d, events, (None, now));
}

/// Appending an input to a sequence applies it after the others.
proof fn lemma_after_events_push(d: Debouncer, events: Seq<DebounceEvent>, e: DebounceEvent)
    ensures
        d.after_events(events.push(e)) == d.after_events(events).after_event(e),
    decreases events.len(),
{
    if events.len() == 0 {
        assert(events.push(e).drop_first() =~= Seq::<DebounceEvent>::empty());
        assert(events.push(e)[0] == e);
        assert(d.after_event(e).after_events(Seq::<DebounceEvent>::empty()) == d.after_event(e));
    } else {
        assert(events.push(e).drop_first() =~= events.drop_first().push(e));
        assert(events.push(e)[0] == events[0]);
        lemma_after_events_push(d.after_event(events[0]), events.drop_first(), e);
    }
}

/// The deadlines a step sets, per call: retargeting changes no deadline; a
/// step at `now` that energises an output starts its minimum active time,
/// to `now + OUTPUT_MIN_ACTIVE_MS` (clamped); a step that releases an axis
/// starts its minimum inactive time, to `now + OUTPUT_MIN_INACTIVE_MS`
/// (clamped).
pub proof fn lemma_step_deadlines(d: Debouncer, command: Command, now: u64)
    ensures
        d.retargeted(command).azimuth_part().2 == d.azimuth_part().2,
        d.retargeted(command).azimuth_part().3 == d.azimuth_part().3,
        d.retargeted(command).azimuth_part().4 == d.azimuth_part().4,
        d.retargeted(command).elevation_part().2 == d.elevation_part().2,
        d.retargeted(command).elevation_part().3 == d.elevation_part().3,
        d.retargeted(command).elevation_part().4 == d.elevation_part().4,
        d.retargeted(command).spec_actual() == d.spec_actual(),
        d.stepped(now).spec_actual().azimuth != d.spec_actual().azimuth ==> (
        d.stepped(now).spec_actual().azimuth matches Some(x) ==> d.stepped(now).azimuth_until(x)
            == saturating_sum(now, OUTPUT_MIN_ACTIVE_MS)),
        d.stepped(now).spec_actual().elevation != d.spec_actual().elevation ==> (
        d.stepped(now).spec_actual().elevation matches Some(x) ==> d.stepped(now).elevation_until(x)
            == saturating_sum(now, OUTPUT_MIN_ACTIVE_MS)),
        d.spec_actual().azimuth is Some && d.stepped(now).spec_actual().azimuth is None ==> d.stepped(
            now,
        ).azimuth_off_until() == saturating_sum(now, OUTPUT_MIN_INACTIVE_MS),
        d.spec_actual().elevation is Some && d.stepped(now).spec_actual().elevation is None
            ==> d.stepped(now).elevation_off_until() == saturating_sum(now, OUTPUT_MIN_INACTIVE_MS),
{
    lemma_steps_touch_only_their_axis(d, now);
    lemma_steps_touch_only_their_axis(d.azimuth_stepped(now), now);
}

/// Minimum active time, per call: while `now` is before the deadline of an
/// energised output, a call of `set_target` or `update` at `now` leaves that
/// output energised and its deadline unchanged. With
/// [`lemma_step_deadlines`], an output energised at `t0` stays on through
/// every call before `t0 + OUTPUT_MIN_ACTIVE_MS`.
pub proof fn lemma_energised_output_is_held(d: Debouncer, command: Option<Command>, now: u64)
    ensures
        d.spec_actual().azimuth is Some && now < d.azimuth_until(d.spec_actual().azimuth->0)
            ==> {
            &&& d.after_event((command, now)).spec_actual().azimuth == d.spec_actual().azimuth
            &&& d.after_event((command, now)).azimuth_until(d.spec_actual().azimuth->0)
                == d.azimuth_until(d.spec_actual().azimuth->0)
        },
        d.spec_actual().elevation is Some && now < d.elevation_until(d.spec_actual().elevation->0)
            ==> {
            &&& d.after_event((command, now)).spec_actual().elevation == d.spec_actual().elevation
            &&& d.after_event((command, now)).elevation_until(d.spec_actual().elevation->0)
                == d.elevation_until(d.spec_actual().elevation->0)
        },
{
    if let Some(x) = d.spec_actual().azimuth {
        if now < d.azimuth_until(x) {
            lemma_azimuth_hold_step(d, x, (command, now));
        }
    }
    if let Some(x) = d.spec_actual().elevation {
        if now < d.elevation_until(x) {
            lemma_elevation_hold_step(d, x, (command, now));
        }
    }
}

/// Minimum inactive time, per call: while `now` is before the rest deadline
/// of a released axis, a call of `set_target` or `update` at `now` leaves it
/// released and its deadline unchanged. With [`lemma_step_deadlines`], an
/// axis released at `t1` stays off through every call before
/// `t1 + OUTPUT_MIN_INACTIVE_MS`.
pub proof fn lemma_released_axis_rests(d: Debouncer, command: Option<Command>, now: u64)
    ensures
        d.spec_actual().azimuth is None && now < d.azimuth_off_until() ==> {
            &&& d.after_event((command, now)).spec_actual().azimuth is None
            &&& d.after_event((command, now)).azimuth_off_until() == d.azimuth_off_until()
        },
        d.spec_actual().elevation is None && now < d.elevation_off_until() ==> {
            &&& d.after_event((command, now)).spec_actual().elevation is None
            &&& d.after_event((command, now)).elevation_off_until() == d.elevation_off_until()
        },
{
    if d.spec_actual().azimuth is None && now < d.azimuth_off_until() {
        lemma_azimuth_off_step(d, (command, now));
    }
    if d.spec_actual().elevation is None && now < d.elevation_off_until() {
        lemma_elevation_off_step(d, (command, now));
    }
}

/// The bound on hold deadlines is kept by every call made at or after `t`:
/// a fresh debouncer meets it at any time, retargeting keeps it, and a
/// step at `now >= t` meets it at `now`.
pub proof fn lemma_holds_end_by_is_kept(d: Debouncer, command: Command, t: u64, now: u64)
    ensures
        d.is_fresh() ==> d.holds_end_by(t),
        d.holds_end_by(t) ==> d.retargeted(command).holds_end_by(t),
        d.holds_end_by(t) && t <= now ==> d.holds_end_by(now) && d.stepped(now).holds_end_by(now),
{
    lemma_steps_touch_only_their_axis(d, now);
    lemma_steps_touch_only_their_axis(d.azimuth_stepped(now), now);
}

/// Once the target is idle, a step after every hold has ended turns all
/// outputs off: with the holds ending by `t + OUTPUT_MIN_ACTIVE_MS`, a call
/// at any `now` from then on leaves the actual state idle.
pub proof fn lemma_idle_target_releases_after_holds(d: Debouncer, t: u64, now: u64)
    requires
        d.spec_target() == idle_drive(),
        d.holds_end_by(t),
        t + OUTPUT_MIN_ACTIVE_MS <= now,
    ensures
        d.stepped(now).spec_actual() == idle_drive(),
{
    lemma_steps_touch_only_their_axis(d, now);
    lemma_steps_touch_only_their_axis(d.azimuth_stepped(now), now);
}

/// The azimuth deadlines of `a` and `b` agree.
pub open spec fn same_azimuth_deadlines(a: Debouncer, b: Debouncer) -> bool {
    &&& a.azimuth_until(AzimuthDirection::Clockwise) == b.azimuth_until(AzimuthDirection::Clockwise)
    &&& a.azimuth_until(AzimuthDirection::CounterClockwise) == b.azimuth_until(
        AzimuthDirection::CounterClockwise,
    )
    &&& a.azimuth_off_until() == b.azimuth_off_until()
}

/// The elevation deadlines of `a` and `b` agree.
pub open spec fn same_elevation_deadlines(a: Debouncer, b: Debouncer) -> bool {
    &&& a.elevation_until(ElevationDirection::Up) == b.elevation_until(ElevationDirection::Up)
    &&& a.elevation_until(ElevationDirection::Down) == b.elevation_until(ElevationDirection::Down)
    &&& a.elevation_off_until() == b.elevation_off_until()
}

/// How a step at `now` takes the azimuth axis of `before` to that of
/// `after`. Nothing changes while the axis is on target, or while its
/// energised output is inside its minimum active time. Otherwise an
/// energised output is released, its rest ending at
/// `now + OUTPUT_MIN_INACTIVE_MS` (clamped); once the axis has rested to its
/// rest deadline, the target direction is energised in the same step and
/// its hold ends at `now + OUTPUT_MIN_ACTIVE_MS` (clamped).
pub open spec fn azimuth_step_rule(before: Debouncer, after: Debouncer, now: u64) -> bool {
    let a = before.spec_actual().azimuth;
    let t = before.spec_target().azimuth;
    &&& after.spec_target().azimuth == t
    &&& if a == t || (a is Some && now < before.azimuth_until(a->0)) {
        after.spec_actual().azimuth == a && same_azimuth_deadlines(after, before)
    } else {
        let off = if a is Some {
            saturating_sum(now, OUTPUT_MIN_INACTIVE_MS)
        } else {
            before.azimuth_off_until()
        };
        &&& after.azimuth_off_until() == off
        &&& after.spec_actual().azimuth == if now < off {
            None
        } else {
            t
        }
        &&& after.azimuth_until(AzimuthDirection::Clockwise) == if now >= off && t == Some(
            AzimuthDirection::Clockwise,
        ) {
            saturating_sum(now, OUTPUT_MIN_ACTIVE_MS)
        } else {
            before.azimuth_until(AzimuthDirection::Clockwise)
        }
        &&& after.azimuth_until(AzimuthDirection::CounterClockwise) == if now >= off && t == Some(
            AzimuthDirection::CounterClockwise,
        ) {
            saturating_sum(now, OUTPUT_MIN_ACTIVE_MS)
        } else {
            before.azimuth_until(AzimuthDirection::CounterClockwise)
        }
    }
}

/// How a step at `now` takes the elevation axis of `before` to that of
/// `after`, by the same rules as [`azimuth_step_rule`].
pub open spec fn elevation_step_rule(before: Debouncer, after: Debouncer, now: u64) -> bool {
    let a = before.spec_actual().elevation;
    let t = before.spec_target().elevation;
    &&& after.spec_target().elevation == t
    &&& if a == t || (a is Some && now < before.elevation_until(a->0)) {
        after.spec_actual().elevation == a && same_elevation_deadlines(after, before)
    } else {
        let off = if a is Some {
            saturating_sum(now, OUTPUT_MIN_INACTIVE_MS)
        } else {
            before.elevation_off_until()
        };
        &&& after.elevation_off_until() == off
        &&& after.spec_actual().elevation == if now < off {
            None
        } else {
            t
        }
        &&& after.elevation_until(ElevationDirection::Up) == if now >= off && t == Some(
            ElevationDirection::Up,
        ) {
            saturating_sum(now, OUTPUT_MIN_ACTIVE_MS)
        } else {
            before.elevation_until(ElevationDirection::Up)
        }
        &&& after.elevation_until(ElevationDirection::Down) == if now >= off && t == Some(
            ElevationDirection::Down,
        ) {
            saturating_sum(now, OUTPUT_MIN_ACTIVE_MS)
        } else {
            before.elevation_until(ElevationDirection::Down)
        }
    }
}

/// The calls in public terms: [`Debouncer::update`] at `now` moves each
/// axis by its step rule; [`Debouncer::set_target`] first replaces the
/// target by what the command asks for, keeping the actual state and every
/// deadline, and then steps.
pub proof fn lemma_step_rules(d: Debouncer, command: Command, now: u64)
    ensures
        azimuth_step_rule(d, d.stepped(now), now),
        elevation_step_rule(d, d.stepped(now), now),
        d.retargeted(command).spec_target() == command_target(command),
        d.retargeted(command).spec_actual() == d.spec_actual(),
        same_azimuth_deadlines(d.retargeted(command), d),
        same_elevation_deadlines(d.retargeted(command), d),
{
    lemma_steps_touch_only_their_axis(d, now);
    lemma_steps_touch_only_their_axis(d.azimuth_stepped(now), now);
}

/// With an idle target no output is energised any more: a step at any time
/// keeps the target idle and every energised output's hold bound.
pub proof fn lemma_idle_target_keeps_holds(d: Debouncer, w: u64, now: u64)
    requires
        d.spec_target() == idle_drive(),
        d.holds_end_by(w),
    ensures
        d.stepped(now).spec_target() == idle_drive(),
        d.stepped(now).holds_end_by(w),
{
    lemma_step_rules(d, Command::Stop, now);
}

} // verus!
