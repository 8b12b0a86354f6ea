//! The decisions a dashboard WebSocket connection makes: what a text message
//! from the browser does to the shared control state, and when the next
//! telemetry frame is due. The firmware's socket loop reads the frames,
//! calls these, and writes the replies.
use vstd::prelude::*;
use crate::control::SharedState;
use crate::drive::Command;
use crate::protocol::{
    drive_prefix, spec_parse_client_message, ClientMessage, ControlStatus, PositionTelemetry,
    TELEMETRY_PERIOD_MS,
};

verus! {

/// Whether a text starts with `drive:`.
pub open spec fn is_drive_text(message: Seq<char>) -> bool {
    message.len() >= 6 && message.take(6) == drive_prefix()
}

/// The controller after a text message from `client_id`: `control:take`
/// hands control to the sender; nothing else changes ownership.
pub open spec fn controller_after_text(message: Seq<char>, client_id: u32, controller: u32) -> u32 {
    if spec_parse_client_message(message) == Some(ClientMessage::TakeControl) {
        client_id
    } else {
        controller
    }
}

/// The command signalled to the drive after a text message from `client_id`:
/// `control:take` stops any stale lease; a valid command from the controller
/// is forwarded; a malformed `drive:` message from the controller stops the
/// drive; everything else leaves the pending command alone.
pub open spec fn pending_after_text(
    message: Seq<char>,
    client_id: u32,
    controller: u32,
    pending: Option<Command>,
) -> Option<Command> {
    match spec_parse_client_message(message) {
        Some(ClientMessage::TakeControl) => Some(Command::Stop),
        Some(ClientMessage::Command(command)) => if controller == client_id {
            Some(command)
        } else {
            pending
        },
        None => if is_drive_text(message) && controller == client_id {
            Some(Command::Stop)
        } else {
            pending
        },
    }
}

/// Apply a browser text message from connection `client_id` to the shared
/// state: take control, forward a command when the sender is the
/// controller, or stop the drive when the controller sends a malformed
/// `drive:` message.
pub fn handle_text(state: &mut SharedState, client_id: u32, message: &str)
    ensures
        final(state).controller() == controller_after_text(
            message@,
            client_id,
            old(state).controller(),
        ),
        final(state).pending() == pending_after_text(
            message@,
            client_id,
            old(state).controller(),
            old(state).pending(),
        ),
        final(state).next_id() == old(state).next_id(),
        final(state).spec_position() == old(state).spec_position(),
        final(state).applied_drive() == old(state).applied_drive(),
{
    match ClientMessage::parse(message) {
        Some(ClientMessage::TakeControl) => state.take_control(client_id),
        Some(ClientMessage::Command(command)) => {
            let _ = state.accept_command(client_id, command);
        },
        None => {
            let n = message.unicode_len();
            if n >= 6 && crate::protocol::range_is(message, 0, 6, &['d', 'r', 'i', 'v', 'e', ':'])
                && state.is_controller(client_id) {
                state.apply_command(Command::Stop);
            }
        },
    }
}

/// A connection that does not own control can never change what the drive
/// is asked to do, except by taking control (which stops the drive).
pub proof fn lemma_viewers_cannot_drive(
    message: Seq<char>,
    client_id: u32,
    controller: u32,
    pending: Option<Command>,
)
    requires
        controller != client_id,
        spec_parse_client_message(message) != Some(ClientMessage::TakeControl),
    ensures
        pending_after_text(message, client_id, controller, pending) == pending,
        controller_after_text(message, client_id, controller) == controller,
{
}

/// The controller's malformed `drive:` message fails safe: it stops the
/// drive rather than leaving an earlier command running.
pub proof fn lemma_malformed_drive_stops(message: Seq<char>, client_id: u32, pending: Option<Command>)
    requires
        is_drive_text(message),
        spec_parse_client_message(message) is None,
    ensures
        pending_after_text(message, client_id, client_id, pending) == Some(Command::Stop),
{
}

/// `start` advanced by `k` periods.
pub open spec fn after_periods(start: u64, k: nat, period: u64) -> int {
    start + k * period
}

/// `due` is `next` advanced by the fewest whole periods that put it after
/// `now` (`next` itself when it already is).
pub open spec fn is_next_due(due: int, next: u64, period: u64, now: u64) -> bool {
    &&& due > now
    &&& due >= next
    &&& due == next || due - period <= now
    &&& exists|k: nat| due == #[trigger] after_periods(next, k, period)
}

/// The next telemetry instant after `now`: `next` advanced by whole
/// periods until it is later than `now`.
pub fn next_telemetry_after(next: u64, period: u64, now: u64) -> (due: u64)
    requires
        period > 0,
        now + period <= u64::MAX,
    ensures
        is_next_due(due as int, next, period, now),
{
    let mut due = next;
    let ghost mut k: nat = 0;
    while due <= now
        invariant
            period > 0,
            now + period <= u64::MAX,
            due >= next,
            due == next || due - period <= now,
            due == next + k * period,
            due <= now + period || due == next,
        decreases now + period - due,
    {
        due = due + period;
        proof {
            assert(due == next + (k + 1) * period) by (nonlinear_arith)
                requires
                    due == next + k * period + period,
            ;
            k = k + 1;
        }
    }
    assert(due == after_periods(next, k, period));
    due
}

/// Something a dashboard connection receives.
#[derive(Clone, Copy, Debug, PartialEq, Eq)]
pub enum SocketEvent<'a> {
    /// A text frame from the browser.
    Text(&'a str),
    /// A binary or pong frame, which the dashboard ignores.
    Ignored,
    /// A ping frame.
    Ping,
    /// The browser closed the connection.
    Close,
    /// A frame that broke the WebSocket protocol.
    Invalid,
    /// The telemetry timer fired.
    TelemetryDue,
}

/// What the connection sends in reply to an event.
#[derive(Clone, Copy, Debug, PartialEq, Eq)]
pub enum SocketAction {
    /// Send this control status.
    SendStatus(ControlStatus),
    /// Answer the ping with a pong carrying its data.
    SendPong,
    /// Send this position frame, then this control status.
    SendTelemetry(PositionTelemetry, ControlStatus),
    /// Close the connection, echoing the browser's reason.
    Close,
    /// Close the connection as having sent an invalid message.
    CloseInvalid,
    /// Send nothing.
    Nothing,
}

/// The shared state after `client_id` left: control it owned is released
/// and the drive stopped; nothing else changes.
pub open spec fn released(before: SharedState, after: SharedState, client_id: u32) -> bool {
    &&& before.controller() == client_id ==> after.controller() == 0 && after.pending() == Some(
        Command::Stop,
    )
    &&& before.controller() != client_id ==> after.controller() == before.controller()
        && after.pending() == before.pending()
    &&& after.next_id() == before.next_id()
    &&& after.spec_position() == before.spec_position()
    &&& after.applied_drive() == before.applied_drive()
}

/// The status a connection is shown: whether it owns control, and the drive
/// state last applied.
pub open spec fn status_for(state: SharedState, client_id: u32) -> ControlStatus {
    ControlStatus { controller: state.controller() == client_id, drive: state.applied_drive() }
}

/// One dashboard WebSocket connection: its id and when its next telemetry
/// frame is due.
pub struct DashboardSession {
    client_id: u32,
    next_telemetry_ms: u64,
}

impl DashboardSession {
    /// The connection id registered for this session.
    pub closed spec fn id(self) -> u32 {
        self.client_id
    }

    /// When the next telemetry frame is due, in milliseconds.
    pub closed spec fn telemetry_due(self) -> u64 {
        self.next_telemetry_ms
    }

    /// Open a session at `now_ms`: register the connection, schedule the
    /// first telemetry frame one period later, and return the control
    /// status to send first.
    pub fn open(state: &mut SharedState, now_ms: u64) -> (opened: (Self, ControlStatus))
        requires
            now_ms + TELEMETRY_PERIOD_MS <= u64::MAX,
        ensures
            *final(state) == old(state).after_register(),
            opened.0.id() == old(state).registered_id(),
            opened.0.telemetry_due() == now_ms + TELEMETRY_PERIOD_MS,
            opened.1 == status_for(*final(state), opened.0.id()),
    {
        let client_id = state.register_client();
        let status = state.control_status(client_id);
        (DashboardSession { client_id, next_telemetry_ms: now_ms + TELEMETRY_PERIOD_MS }, status)
    }

    /// The connection id of this session.
    pub fn client_id(&self) -> (id: u32)
        ensures
            id == self.id(),
    {
        self.client_id
    }

    /// When the next telemetry frame is due, in milliseconds.
    pub fn next_telemetry_ms(&self) -> (due: u64)
        ensures
            due == self.telemetry_due(),
    {
        self.next_telemetry_ms
    }

    /// React to one event at `now_ms`. A text message is applied to the
    /// shared state and answered with the new status; a ping is answered
    /// with a pong; a close or an invalid frame releases the connection's
    /// control and closes it; the telemetry timer sends the latest sample
    /// and the status and schedules the next frame.
    pub fn on_event(&mut self, state: &mut SharedState, event: SocketEvent, now_ms: u64) -> (action:
        SocketAction)
        requires
            event is TelemetryDue ==> now_ms + TELEMETRY_PERIOD_MS <= u64::MAX,
        ensures
            final(self).id() == old(self).id(),
            !(event is TelemetryDue) ==> final(self).telemetry_due() == old(self).telemetry_due(),
            match event {
                SocketEvent::Text(message) => {
                    &&& final(state).controller() == controller_after_text(
                        message@,
                        old(self).id(),
                        old(state).controller(),
                    )
                    &&& final(state).pending() == pending_after_text(
                        message@,
                        old(self).id(),
                        old(state).controller(),
                        old(state).pending(),
                    )
                    &&& final(state).next_id() == old(state).next_id()
                    &&& final(state).spec_position() == old(state).spec_position()
                    &&& final(state).applied_drive() == old(state).applied_drive()
                    &&& action == SocketAction::SendStatus(status_for(*final(state), old(self).id()))
                },
                SocketEvent::Ignored => *final(state) == *old(state) && action
                    == SocketAction::Nothing,
                SocketEvent::Ping => *final(state) == *old(state) && action == SocketAction::SendPong,
                SocketEvent::Close => released(*old(state), *final(state), old(self).id()) && action
                    == SocketAction::Close,
                SocketEvent::Invalid => released(*old(state), *final(state), old(self).id())
                    && action == SocketAction::CloseInvalid,
                SocketEvent::TelemetryDue => {
                    &&& *final(state) == *old(state)
                    &&& action == SocketAction::SendTelemetry(
                        old(state).spec_position(),
                        status_for(*old(state), old(self).id()),
                    )
                    &&& is_next_due(
                        final(self).telemetry_due() as int,
                        old(self).telemetry_due(),
                        TELEMETRY_PERIOD_MS,
                        now_ms,
                    )
                },
            },
    {
        match event {
            SocketEvent::Text(message) => {
                handle_text(state, self.client_id, message);
                SocketAction::SendStatus(state.control_status(self.client_id))
            },
            SocketEvent::Ignored => SocketAction::Nothing,
            SocketEvent::Ping => SocketAction::SendPong,
            SocketEvent::Close => {
                state.release_client(self.client_id);
                SocketAction::Close
            },
            SocketEvent::Invalid => {
                state.release_client(self.client_id);
                SocketAction::CloseInvalid
            },
            SocketEvent::TelemetryDue => {
                let position = state.position();
                let status = state.control_status(self.client_id);
                self.next_telemetry_ms = next_telemetry_after(
                    self.next_telemetry_ms,
                    TELEMETRY_PERIOD_MS,
                    now_ms,
                );
                SocketAction::SendTelemetry(position, status)
            },
        }
    }

    /// End the session after a transport failure: the connection's control
    /// is released as on a close.
    pub fn end(self, state: &mut SharedState)
        ensures
            released(*old(state), *final(state), self.id()),
    {
        state.release_client(self.client_id);
    }
}

} // verus!
