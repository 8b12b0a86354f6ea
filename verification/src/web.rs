//! The dashboard vocabulary under its earlier single-module layout: the drive
//! types, the wire protocol, the page, and [`DriveDebouncer`], all with the
//! behaviour of their homes in [`crate::drive`], [`crate::protocol`] and
//! [`crate::dashboard`].
use vstd::prelude::*;
pub use crate::dashboard::INDEX_HTML;
pub use crate::drive::{
    AzimuthDirection, Command, DriveCommand, ElevationDirection, OUTPUT_MIN_ACTIVE_MS,
    OUTPUT_MIN_INACTIVE_MS,
};
pub use crate::protocol::{
    ClientMessage, ControlStatus, PositionTelemetry, COMMAND_REFRESH_MS, COMMAND_TIMEOUT_MS,
    TAKE_CONTROL_MESSAGE, TELEMETRY_PERIOD_MS, WS_PATH,
};
use crate::drive::{
    command_target, lemma_fresh_debouncers_are_equal, moves_only_toward_target, no_direct_reversal,
    Debouncer,
};
use crate::protocol::{azimuth_text, elevation_text, parse_command, spec_parse_command};

verus! {

impl DriveCommand {
    /// Browser token for the azimuth direction (`cw` / `ccw`), or `None` when
    /// azimuth is idle.
    pub fn azimuth_token(&self) -> (t: Option<&'static str>)
        ensures
            match self.azimuth {
                Some(d) => t matches Some(s) && s@ == azimuth_text(d),
                None => t is None,
            },
    {
        crate::protocol::azimuth_token(self.azimuth)
    }

    /// Browser token for the elevation direction (`up` / `down`), or `None`
    /// when elevation is idle.
    pub fn elevation_token(&self) -> (t: Option<&'static str>)
        ensures
            match self.elevation {
                Some(d) => t matches Some(s) && s@ == elevation_text(d),
                None => t is None,
            },
    {
        crate::protocol::elevation_token(self.elevation)
    }
}

impl Command {
    /// Parse a dashboard WebSocket text message, as [`parse_command`] does.
    pub fn parse(message: &str) -> (r: Option<Self>)
        ensures
            r == spec_parse_command(message@),
    {
        parse_command(message)
    }
}

/// Minimum active/inactive-time filter for the four physical direction
/// outputs; the [`Debouncer`] under the dashboard's name.
#[derive(Clone, Copy, Debug, PartialEq, Eq)]
pub struct DriveDebouncer {
    inner: Debouncer,
}

impl DriveDebouncer {
    /// The debouncer state this filter holds.
    pub closed spec fn debouncer(self) -> Debouncer {
        self.inner
    }

    /// Create an idle debouncer.
    pub fn new() -> (d: Self)
        ensures
            d.debouncer().is_fresh(),
    {
        Self { inner: Debouncer::new() }
    }

    /// The currently requested drive state.
    pub fn target(&self) -> (t: DriveCommand)
        ensures
            t == self.debouncer().spec_target(),
    {
        self.inner.target()
    }

    /// The drive state that is allowed to be physically applied now.
    pub fn actual(&self) -> (a: DriveCommand)
        ensures
            a == self.debouncer().spec_actual(),
    {
        self.inner.actual()
    }

    /// Set a new target command and advance the debounced output state.
    /// Returns `true` when the actual state changed.
    pub fn set_target(&mut self, command: Command, now_ms: u64) -> (changed: bool)
        ensures
            final(self).debouncer() == old(self).debouncer().retargeted(command).stepped(now_ms),
            final(self).debouncer().spec_target() == command_target(command),
            changed == (final(self).debouncer().spec_actual() != old(
                self,
            ).debouncer().spec_actual()),
            now_ms < u64::MAX ==> no_direct_reversal(
                old(self).debouncer().spec_actual(),
                final(self).debouncer().spec_actual(),
            ),
            moves_only_toward_target(
                old(self).debouncer().spec_actual(),
                final(self).debouncer().spec_actual(),
                final(self).debouncer().spec_target(),
            ),
    {
        self.inner.set_target(command, now_ms)
    }

    /// Advance the debounced output state at `now_ms`. Returns `true` when
    /// the actual state changed.
    pub fn update(&mut self, now_ms: u64) -> (changed: bool)
        ensures
            final(self).debouncer() == old(self).debouncer().stepped(now_ms),
            changed == (final(self).debouncer().spec_actual() != old(
                self,
            ).debouncer().spec_actual()),
            now_ms < u64::MAX ==> no_direct_reversal(
                old(self).debouncer().spec_actual(),
                final(self).debouncer().spec_actual(),
            ),
            moves_only_toward_target(
                old(self).debouncer().spec_actual(),
                final(self).debouncer().spec_actual(),
                final(self).debouncer().spec_target(),
            ),
    {
        self.inner.update(now_ms)
    }

    /// Next millisecond instant where a delayed target may become applicable;
    /// see [`Debouncer::next_transition_ms`].
    pub fn next_transition_ms(&self, now_ms: u64) -> (next: Option<u64>)
        ensures
            next == self.debouncer().spec_next_transition(now_ms),
            next is None <==> self.debouncer().spec_actual() == self.debouncer().spec_target(),
            next matches Some(at) ==> {
                &&& now_ms <= at
                &&& self.debouncer().stepped(at).spec_actual() != self.debouncer().spec_actual()
                &&& forall|t: u64|
                    now_ms <= t < at ==> #[trigger] self.debouncer().stepped(t) == self.debouncer()
            },
    {
        self.inner.next_transition_ms(now_ms)
    }
}

impl Default for DriveDebouncer {
    fn default() -> (d: Self)
        ensures
            d.debouncer().is_fresh(),
    {
        Self::new()
    }
}

/// A fresh [`DriveDebouncer`] holds exactly a fresh [`Debouncer`], and each
/// of its calls has the contract of the matching [`Debouncer`] call over
/// that state: the same calls on both give the same results, targets,
/// actual states and transition instants.
pub proof fn lemma_drive_debouncer_is_a_debouncer(a: DriveDebouncer, b: Debouncer)
    requires
        a.debouncer().is_fresh(),
        b.is_fresh(),
    ensures
        a.debouncer() == b,
{
    lemma_fresh_debouncers_are_equal(a.debouncer(), b);
}

} // verus!
