//! The decisions of the leased drive-control loop that owns the direction
//! outputs: every requested [`Command`] goes through a [`Debouncer`], and a
//! drive command is a lease that lapses to a stop unless the dashboard
//! refreshes it within [`COMMAND_TIMEOUT_MS`]. The firmware runs the loop —
//! wait for a command or the next deadline, then hand the event here — and
//! writes the outputs whenever a step reports a new applied state.
use vstd::prelude::*;
use crate::drive::{
    command_target, earlier_of, idle_drive, lemma_holds_end_by_is_kept,
    lemma_idle_target_keeps_holds, lemma_idle_target_releases_after_holds, lemma_step_rules, lemma_target_follows_commands, saturating_sum, Command,
    Debouncer, DriveCommand, OUTPUT_MIN_ACTIVE_MS,
};
use crate::protocol::COMMAND_TIMEOUT_MS;

verus! {

/// Maximum lifetime, in milliseconds, of an unrefreshed drive-state command.
pub const DIRECTION_TIMEOUT_MS: u64 = COMMAND_TIMEOUT_MS;

/// The earlier of two optional instants; `None` only when both are.
pub open spec fn earliest(a: Option<u64>, b: Option<u64>) -> Option<u64> {
    match (a, b) {
        (Some(x), Some(y)) => Some(earlier_of(x, y)),
        (Some(x), None) => Some(x),
        (None, Some(y)) => Some(y),
        (None, None) => None,
    }
}

/// The lease a command takes out at `now`: a drive that moves an axis lasts
/// until `now + DIRECTION_TIMEOUT_MS` (clamped to `u64::MAX`); an idle drive
/// or a stop holds no lease.
pub open spec fn lease_for(command: Command, now: u64) -> Option<u64> {
    if command matches Command::Drive(drive) && drive.spec_is_active() {
        Some(saturating_sum(now, DIRECTION_TIMEOUT_MS))
    } else {
        None
    }
}

/// The next instant the control loop must wake without a command: the
/// debouncer's next transition or the lease deadline, whichever is first.
pub fn next_direction_deadline(
    debouncer: &Debouncer,
    lease_deadline: Option<u64>,
    now_ms: u64,
) -> (deadline: Option<u64>)
    ensures
        deadline == earliest(debouncer.spec_next_transition(now_ms), lease_deadline),
{
    let debounce_deadline = debouncer.next_transition_ms(now_ms);
    match (debounce_deadline, lease_deadline) {
        (Some(a), Some(b)) => Some(
            if a <= b {
                a
            } else {
                b
            },
        ),
        (Some(deadline), None) => Some(deadline),
        (None, Some(deadline)) => Some(deadline),
        (None, None) => None,
    }
}

/// One turn of the drive loop with no command: a wake at the instant
/// (`true`, [`DirectionControl::on_timeout`]) or an output step at the
/// instant (`false`, [`DirectionControl::apply_debounced_drive`]).
pub type LoopEvent = (bool, u64);

/// The state of the drive-control loop: the debouncer in front of the
/// outputs and the deadline of the current drive lease.
pub struct DirectionControl {
    debouncer: Debouncer,
    lease_deadline: Option<u64>,
}

impl DirectionControl {
    /// The debouncer in front of the outputs.
    pub closed spec fn debouncer(self) -> Debouncer {
        self.debouncer
    }

    /// The deadline of the current drive lease, if one is held.
    pub closed spec fn lease(self) -> Option<u64> {
        self.lease_deadline
    }

    /// The state after a command received at `now`.
    pub closed spec fn commanded(self, command: Command, now: u64) -> Self {
        DirectionControl {
            debouncer: self.debouncer.retargeted(command).stepped(now),
            lease_deadline: lease_for(command, now),
        }
    }

    /// The state after the outputs are stepped at `now`: the debouncer
    /// advanced, the lease unchanged.
    pub closed spec fn debounced(self, now: u64) -> Self {
        DirectionControl { debouncer: self.debouncer.stepped(now), ..self }
    }

    /// The state after waking at `now` with no command: a lease whose
    /// deadline has passed lapses into a stop; otherwise nothing changes.
    pub closed spec fn timed_out(self, now: u64) -> Self {
        match self.lease_deadline {
            Some(deadline) if deadline <= now => DirectionControl {
                debouncer: self.debouncer.retargeted(Command::Stop).stepped(now),
                lease_deadline: None,
            },
            _ => self,
        }
    }

    /// The state after a sequence of loop turns with no command.
    pub closed spec fn after_loop(self, events: Seq<LoopEvent>) -> Self
        decreases events.len(),
    {
        if events.len() == 0 {
            self
        } else {
            let next = if events[0].0 {
                self.timed_out(events[0].1)
            } else {
                self.debounced(events[0].1)
            };
            next.after_loop(events.drop_first())
        }
    }

    /// A loop with outputs off, a fresh debouncer and no lease.
    pub fn new() -> (c: Self)
        ensures
            c.debouncer().is_fresh(),
            c.lease() is None,
    {
        Self { debouncer: Debouncer::new(), lease_deadline: None }
    }

    /// The drive state the outputs may express now.
    pub fn actual(&self) -> (a: DriveCommand)
        ensures
            a == self.debouncer().spec_actual(),
    {
        self.debouncer.actual()
    }

    /// Advance the debouncer at `now_ms`; returns the new applied state when
    /// it changed, for the outputs and the shared state to record.
    pub fn apply_debounced_drive(&mut self, now_ms: u64) -> (changed: Option<DriveCommand>)
        ensures
            *final(self) == old(self).debounced(now_ms),
            final(self).debouncer() == old(self).debouncer().stepped(now_ms),
            final(self).lease() == old(self).lease(),
            changed == if final(self).debouncer().spec_actual() != old(
                self,
            ).debouncer().spec_actual() {
                Some(final(self).debouncer().spec_actual())
            } else {
                None
            },
    {
        if self.debouncer.update(now_ms) {
            Some(self.debouncer.actual())
        } else {
            None
        }
    }

    /// When the loop must next wake if no command arrives.
    pub fn next_deadline(&self, now_ms: u64) -> (deadline: Option<u64>)
        ensures
            deadline == earliest(self.debouncer().spec_next_transition(now_ms), self.lease()),
            self.lease() matches Some(l) ==> deadline matches Some(d) && d <= l,
    {
        next_direction_deadline(&self.debouncer, self.lease_deadline, now_ms)
    }

    /// Handle a command received at `now_ms`: it replaces the lease (a
    /// moving drive takes one out, anything else drops it) and becomes the
    /// debouncer's target. Returns the new applied state when it changed.
    pub fn on_command(&mut self, command: Command, now_ms: u64) -> (changed: Option<
        DriveCommand,
    >)
        ensures
            *final(self) == old(self).commanded(command, now_ms),
            final(self).lease() == lease_for(command, now_ms),
            final(self).debouncer().spec_target() == command_target(command),
            changed == if final(self).debouncer().spec_actual() != old(
                self,
            ).debouncer().spec_actual() {
                Some(final(self).debouncer().spec_actual())
            } else {
                None
            },
    {
        self.lease_deadline = match command {
            Command::Drive(drive) => if drive.is_active() {
                Some(now_ms.saturating_add(DIRECTION_TIMEOUT_MS))
            } else {
                None
            },
            Command::Stop => None,
        };
        if self.debouncer.set_target(command, now_ms) {
            Some(self.debouncer.actual())
        } else {
            None
        }
    }

    /// Handle waking at `now_ms` with no command: once the lease deadline has
    /// passed the lease lapses and the target becomes a stop. Returns the new
    /// applied state when it changed.
    pub fn on_timeout(&mut self, now_ms: u64) -> (changed: Option<DriveCommand>)
        ensures
            *final(self) == old(self).timed_out(now_ms),
            (old(self).lease() matches Some(d) && d <= now_ms) ==> final(self).lease() is None
                && final(self).debouncer().spec_target() == idle_drive(),
            changed == if final(self).debouncer().spec_actual() != old(
                self,
            ).debouncer().spec_actual() {
                Some(final(self).debouncer().spec_actual())
            } else {
                None
            },
    {
        if let Some(deadline) = self.lease_deadline {
            if deadline <= now_ms {
                self.lease_deadline = None;
                if self.debouncer.set_target(Command::Stop, now_ms) {
                    return Some(self.debouncer.actual());
                }
            }
        }
        None
    }
}

/// A drive lease lapses: after a moving drive command at `t`, waking without
/// a refresh at or after `t + DIRECTION_TIMEOUT_MS` makes the target a stop,
/// while waking before then leaves the drive requested.
pub proof fn lemma_unrefreshed_drive_lapses_to_stop(
    control: DirectionControl,
    drive: DriveCommand,
    t: u64,
    later: u64,
)
    requires
        drive.spec_is_active(),
        t + DIRECTION_TIMEOUT_MS <= u64::MAX,
    ensures
        later >= t + DIRECTION_TIMEOUT_MS ==> control.commanded(Command::Drive(drive), t).timed_out(
            later,
        ).debouncer().spec_target() == idle_drive(),
        later < t + DIRECTION_TIMEOUT_MS ==> control.commanded(Command::Drive(drive), t).timed_out(
            later,
        ) == control.commanded(Command::Drive(drive), t),
{
    let c = control.commanded(Command::Drive(drive), t);
    lemma_target_follows_commands(c.debouncer().retargeted(Command::Stop), Command::Stop, later);
    lemma_target_follows_commands(c.debouncer(), Command::Stop, later);
}

/// A refresh renews the lease: a drive command re-sent at `t2` pushes the
/// deadline to `t2 + DIRECTION_TIMEOUT_MS`, whatever the earlier lease.
pub proof fn lemma_refresh_renews_lease(
    control: DirectionControl,
    drive: DriveCommand,
    t1: u64,
    t2: u64,
)
    requires
        drive.spec_is_active(),
        t2 + DIRECTION_TIMEOUT_MS <= u64::MAX,
    ensures
        control.commanded(Command::Drive(drive), t1).commanded(Command::Drive(drive), t2).lease()
            == Some((t2 + DIRECTION_TIMEOUT_MS) as u64),
{
}

/// Every step of the loop keeps the hold deadlines bounded: when every
/// energised output's hold ends by `t + OUTPUT_MIN_ACTIVE_MS`, that stays so,
/// with `now` for `t`, after a command, a wake without command or an output
/// step at any `now >= t`; a new loop meets the bound at any time.
pub proof fn lemma_loop_keeps_holds_bounded(c: DirectionControl, command: Command, t: u64, now: u64)
    ensures
        c.debouncer().is_fresh() ==> c.debouncer().holds_end_by(t),
        c.debouncer().holds_end_by(t) && t <= now ==> {
            &&& c.commanded(command, now).debouncer().holds_end_by(now)
            &&& c.timed_out(now).debouncer().holds_end_by(now)
            &&& c.debounced(now).debouncer().holds_end_by(now)
        },
{
    let d = c.debouncer();
    lemma_holds_end_by_is_kept(d, command, t, now);
    lemma_holds_end_by_is_kept(d.retargeted(command), command, t, now);
    lemma_holds_end_by_is_kept(d, Command::Stop, t, now);
    lemma_holds_end_by_is_kept(d.retargeted(Command::Stop), command, t, now);
}

/// With no refresh, every output is low once the lease has lapsed and the
/// minimum active time has passed: when the loop wakes at `w`, at or after
/// the lease deadline, with every hold ending by `w + OUTPUT_MIN_ACTIVE_MS`,
/// the lease lapses, the target becomes idle, and an output step at any
/// `now >= w + OUTPUT_MIN_ACTIVE_MS` leaves all four outputs off.
pub proof fn lemma_lapsed_lease_releases_all_outputs(c: DirectionControl, w: u64, now: u64)
    requires
        c.lease() matches Some(l) && l <= w,
        c.debouncer().holds_end_by(w),
        w + OUTPUT_MIN_ACTIVE_MS <= now,
    ensures
        c.timed_out(w).lease() is None,
        c.timed_out(w).debouncer().spec_target() == idle_drive(),
        c.timed_out(w).debounced(now).debouncer().spec_actual() == idle_drive(),
{
    let d = c.debouncer();
    let r = d.retargeted(Command::Stop);
    lemma_target_follows_commands(d, Command::Stop, w);
    lemma_target_follows_commands(r, Command::Stop, w);
    lemma_holds_end_by_is_kept(d, Command::Stop, w, w);
    lemma_holds_end_by_is_kept(r, Command::Stop, w, w);
    lemma_idle_target_releases_after_holds(r.stepped(w), w, now);
}

/// End to end, as the loop runs it: a moving drive command at `t` (the
/// holds of every earlier call ending by `t0 + OUTPUT_MIN_ACTIVE_MS`,
/// `t0 <= t`), an output step at `s` between the command and the wake, and
/// no further command. Waking at `w >= t + DIRECTION_TIMEOUT_MS` lapses the
/// lease, and an output step at any `now >= w + OUTPUT_MIN_ACTIVE_MS` leaves
/// all four outputs off; waking on time, that is from
/// `t + DIRECTION_TIMEOUT_MS + OUTPUT_MIN_ACTIVE_MS` on.
pub proof fn lemma_unrefreshed_drive_is_all_low_after_lease_and_hold(
    c: DirectionControl,
    drive: DriveCommand,
    t0: u64,
    t: u64,
    s: u64,
    w: u64,
    now: u64,
)
    requires
        c.debouncer().holds_end_by(t0),
        t0 <= t <= s <= w,
        drive.spec_is_active(),
        t + DIRECTION_TIMEOUT_MS <= w,
        w + OUTPUT_MIN_ACTIVE_MS <= now,
    ensures
        c.commanded(Command::Drive(drive), t).debounced(s).timed_out(w).debounced(
            now,
        ).debouncer().spec_actual() == idle_drive(),
{
    let command = Command::Drive(drive);
    let c1 = c.commanded(command, t);
    let c2 = c1.debounced(s);
    lemma_loop_keeps_holds_bounded(c, command, t0, t);
    lemma_loop_keeps_holds_bounded(c1, command, t, s);
    lemma_holds_end_by_is_kept(c2.debouncer(), command, s, w);
    assert(c2.lease() == Some(saturating_sum(t, DIRECTION_TIMEOUT_MS)));
    lemma_lapsed_lease_releases_all_outputs(c2, w, now);
}

/// The lease is still `lease`, or has lapsed to an idle target; every hold
/// ends by `bound + OUTPUT_MIN_ACTIVE_MS`.
spec fn leased_or_lapsed(c: DirectionControl, bound: u64, lease: u64) -> bool {
    &&& c.debouncer().holds_end_by(bound)
    &&& (c.lease() == Some(lease) || (c.lease() is None && c.debouncer().spec_target()
        == idle_drive()))
}

/// The lease has lapsed to an idle target, every hold ending by
/// `w + OUTPUT_MIN_ACTIVE_MS`.
spec fn lapsed(c: DirectionControl, w: u64) -> bool {
    &&& c.lease() is None
    &&& c.debouncer().spec_target() == idle_drive()
    &&& c.debouncer().holds_end_by(w)
}

/// No lease, an idle target and every output off.
spec fn all_low(c: DirectionControl) -> bool {
    &&& c.lease() is None
    &&& c.debouncer().spec_target() == idle_drive()
    &&& c.debouncer().spec_actual() == idle_drive()
}

/// The instants of `events` never go back and lie in `[from, to]`.
pub open spec fn loop_times_within(events: Seq<LoopEvent>, from: u64, to: u64) -> bool {
    &&& forall|k: int| 0 <= k < events.len() ==> from <= #[trigger] events[k].1 <= to
    &&& forall|k1: int, k2: int|
        0 <= k1 < k2 < events.len() ==> #[trigger] events[k1].1 <= #[trigger] events[k2].1
}

proof fn lemma_after_loop_concat(c: DirectionControl, a: Seq<LoopEvent>, b: Seq<LoopEvent>)
    ensures
        c.after_loop(a + b) == c.after_loop(a).after_loop(b),
    decreases a.len(),
{
    if a.len() == 0 {
        assert(a + b =~= b);
    } else {
        assert((a + b)[0] == a[0]);
        assert((a + b).drop_first() =~= a.drop_first() + b);
        let next = if a[0].0 {
            c.timed_out(a[0].1)
        } else {
            c.debounced(a[0].1)
        };
        lemma_after_loop_concat(next, a.drop_first(), b);
    }
}

proof fn lemma_after_one_turn(c: DirectionControl, e: LoopEvent)
    ensures
        c.after_loop(seq![e]) == if e.0 {
            c.timed_out(e.1)
        } else {
            c.debounced(e.1)
        },
{
    assert(seq![e].drop_first() =~= Seq::<LoopEvent>::empty());
    assert(seq![e][0] == e);
    let next = if e.0 {
        c.timed_out(e.1)
    } else {
        c.debounced(e.1)
    };
    assert(next.after_loop(Seq::<LoopEvent>::empty()) == next);
}

proof fn lemma_leased_or_lapsed_kept(
    c: DirectionControl,
    bound: u64,
    lease: u64,
    events: Seq<LoopEvent>,
    to: u64,
)
    requires
        leased_or_lapsed(c, bound, lease),
        bound <= to,
        loop_times_within(events, bound, to),
    ensures
        leased_or_lapsed(c.after_loop(events), to, lease),
    decreases events.len(),
{
    let d = c.debouncer();
    if events.len() == 0 {
        lemma_holds_end_by_is_kept(d, Command::Stop, bound, to);
    } else {
        let x = events[0].1;
        lemma_loop_keeps_holds_bounded(c, Command::Stop, bound, x);
        lemma_target_follows_commands(d, Command::Stop, x);
        lemma_target_follows_commands(d.retargeted(Command::Stop), Command::Stop, x);
        lemma_holds_end_by_is_kept(d, Command::Stop, bound, x);
        let next = if events[0].0 {
            c.timed_out(x)
        } else {
            c.debounced(x)
        };
        assert(leased_or_lapsed(next, x, lease));
        let rest = events.drop_first();
        assert forall|k: int| 0 <= k < rest.len() implies x <= #[trigger] rest[k].1 <= to by {
            assert(rest[k] == events[k + 1]);
        }
        assert forall|k1: int, k2: int| 0 <= k1 < k2 < rest.len() implies #[trigger] rest[k1].1
            <= #[trigger] rest[k2].1 by {
            assert(rest[k1] == events[k1 + 1]);
            assert(rest[k2] == events[k2 + 1]);
        }
        lemma_leased_or_lapsed_kept(next, x, lease, rest, to);
    }
}

proof fn lemma_lapsed_kept(c: DirectionControl, w: u64, events: Seq<LoopEvent>)
    requires
        lapsed(c, w),
    ensures
        lapsed(c.after_loop(events), w),
    decreases events.len(),
{
    if events.len() > 0 {
        let x = events[0].1;
        lemma_idle_target_keeps_holds(c.debouncer(), w, x);
        let next = if events[0].0 {
            c.timed_out(x)
        } else {
            c.debounced(x)
        };
        lemma_lapsed_kept(next, w, events.drop_first());
    }
}

proof fn lemma_all_low_kept(c: DirectionControl, events: Seq<LoopEvent>)
    requires
        all_low(c),
    ensures
        all_low(c.after_loop(events)),
    decreases events.len(),
{
    if events.len() > 0 {
        let x = events[0].1;
        lemma_step_rules(c.debouncer(), Command::Stop, x);
        let next = if events[0].0 {
            c.timed_out(x)
        } else {
            c.debounced(x)
        };
        lemma_all_low_kept(next, events.drop_first());
    }
}

/// The lease law over any run of the loop: after a moving drive command at
/// `t` (the holds of every earlier call ending by `t0 + OUTPUT_MIN_ACTIVE_MS`,
/// `t0 <= t`) and then any number of wakes and output steps with no further
/// command, at instants from `t` on that never go back, the outputs are all
/// low after a wake at `events[i].1 >= t + DIRECTION_TIMEOUT_MS` followed by
/// an output step at `events[j].1 >= events[i].1 + OUTPUT_MIN_ACTIVE_MS`,
/// and stay low whatever turns follow. The loop wakes no later than its
/// lease deadline, so waking on time all outputs are low from
/// `t + DIRECTION_TIMEOUT_MS + OUTPUT_MIN_ACTIVE_MS` on.
pub proof fn lemma_unrefreshed_drive_is_all_low(
    c: DirectionControl,
    drive: DriveCommand,
    t0: u64,
    t: u64,
    events: Seq<LoopEvent>,
    i: int,
    j: int,
)
    requires
        c.debouncer().holds_end_by(t0),
        t0 <= t,
        drive.spec_is_active(),
        loop_times_within(events, t, u64::MAX),
        0 <= i < j < events.len(),
        events[i].0,
        t + DIRECTION_TIMEOUT_MS <= events[i].1,
        !events[j].0,
        events[i].1 + OUTPUT_MIN_ACTIVE_MS <= events[j].1,
    ensures
        c.commanded(Command::Drive(drive), t).after_loop(events).debouncer().spec_actual()
            == idle_drive(),
        c.commanded(Command::Drive(drive), t).after_loop(events).lease() is None,
{
    let command = Command::Drive(drive);
    let c1 = c.commanded(command, t);
    let lease = (t + DIRECTION_TIMEOUT_MS) as u64;
    let w = events[i].1;
    let s = events[j].1;
    lemma_loop_keeps_holds_bounded(c, command, t0, t);
    assert(leased_or_lapsed(c1, t, lease));
    let a = events.take(i);
    let b = events.subrange(i + 1, j);
    let rest = events.skip(j + 1);
    assert(events =~= a + seq![events[i]] + b + seq![events[j]] + rest);
    assert forall|k: int| 0 <= k < a.len() implies t <= #[trigger] a[k].1 <= w by {
        assert(a[k] == events[k]);
    }
    assert forall|k1: int, k2: int| 0 <= k1 < k2 < a.len() implies #[trigger] a[k1].1
        <= #[trigger] a[k2].1 by {
        assert(a[k1] == events[k1]);
        assert(a[k2] == events[k2]);
    }
    lemma_leased_or_lapsed_kept(c1, t, lease, a, w);
    let c2 = c1.after_loop(a);
    let d2 = c2.debouncer();
    lemma_loop_keeps_holds_bounded(c2, Command::Stop, w, w);
    lemma_target_follows_commands(d2, Command::Stop, w);
    lemma_target_follows_commands(d2.retargeted(Command::Stop), Command::Stop, w);
    lemma_after_one_turn(c2, events[i]);
    let c3 = c2.timed_out(w);
    assert(lapsed(c3, w));
    lemma_lapsed_kept(c3, w, b);
    let c4 = c3.after_loop(b);
    lemma_after_one_turn(c4, events[j]);
    lemma_idle_target_releases_after_holds(c4.debouncer(), w, s);
    lemma_step_rules(c4.debouncer(), Command::Stop, s);
    let c5 = c4.debounced(s);
    assert(all_low(c5));
    lemma_all_low_kept(c5, rest);
    lemma_after_loop_concat(c1, a, seq![events[i]]);
    lemma_after_loop_concat(c1, a + seq![events[i]], b);
    lemma_after_loop_concat(c1, a + seq![events[i]] + b, seq![events[j]]);
    lemma_after_loop_concat(c1, a + seq![events[i]] + b + seq![events[j]], rest);
}

/// The loop turns are the calls: no turn leaves the state alone, and one
/// more turn is [`DirectionControl::on_timeout`] (a wake) or
/// [`DirectionControl::apply_debounced_drive`] (an output step) at its
/// instant, after the others.
pub proof fn lemma_loop_turns_are_calls(c: DirectionControl, events: Seq<LoopEvent>, e: LoopEvent)
    ensures
        c.after_loop(Seq::empty()) == c,
        c.after_loop(events.push(e)) == if e.0 {
            c.after_loop(events).timed_out(e.1)
        } else {
            c.after_loop(events).debounced(e.1)
        },
{
    assert(events.push(e) =~= events + seq![e]);
    lemma_after_loop_concat(c, events, seq![e]);
    lemma_after_one_turn(c.after_loop(events), e);
}

} // verus!
