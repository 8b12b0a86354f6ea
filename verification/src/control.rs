//! The coordination state the firmware's tasks share: the latest feedback
//! sample, which dashboard connection owns drive control, the drive state
//! last applied to the outputs, and the drive command waiting for the output
//! task. The firmware keeps one instance behind a lock; every decision about
//! ownership and command acceptance is made here.
use vstd::prelude::*;
use crate::drive::{AzimuthDirection, Command, DriveCommand, ElevationDirection};
use crate::protocol::{ControlStatus, PositionTelemetry};

verus! {

/// The 2-bit code of an azimuth state: 0 idle, 1 clockwise, 2 counter-clockwise.
pub open spec fn azimuth_code(azimuth: Option<AzimuthDirection>) -> u8 {
    match azimuth {
        Some(AzimuthDirection::Clockwise) => 1,
        Some(AzimuthDirection::CounterClockwise) => 2,
        None => 0,
    }
}

/// The 2-bit code of an elevation state: 0 idle, 1 up, 2 down.
pub open spec fn elevation_code(elevation: Option<ElevationDirection>) -> u8 {
    match elevation {
        Some(ElevationDirection::Up) => 1,
        Some(ElevationDirection::Down) => 2,
        None => 0,
    }
}

/// The byte a drive state is stored as: the azimuth code in bits 1:0 and the
/// elevation code in bits 3:2.
pub open spec fn spec_encode_drive(drive: DriveCommand) -> u8 {
    (azimuth_code(drive.azimuth) + 4 * elevation_code(drive.elevation)) as u8
}

/// The drive state a stored byte stands for; a 2-bit field holding 3 reads as
/// idle.
pub open spec fn spec_decode_drive(bits: u8) -> DriveCommand {
    DriveCommand {
        azimuth: if bits % 4 == 1 {
            Some(AzimuthDirection::Clockwise)
        } else if bits % 4 == 2 {
            Some(AzimuthDirection::CounterClockwise)
        } else {
            None
        },
        elevation: if (bits / 4) % 4 == 1 {
            Some(ElevationDirection::Up)
        } else if (bits / 4) % 4 == 2 {
            Some(ElevationDirection::Down)
        } else {
            None
        },
    }
}

/// Pack a drive state into one byte.
pub fn encode_drive(drive: DriveCommand) -> (bits: u8)
    ensures
        bits == spec_encode_drive(drive),
        bits < 16,
{
    let azimuth: u8 = match drive.azimuth {
        Some(AzimuthDirection::Clockwise) => 1,
        Some(AzimuthDirection::CounterClockwise) => 2,
        None => 0,
    };
    let elevation: u8 = match drive.elevation {
        Some(ElevationDirection::Up) => 1,
        Some(ElevationDirection::Down) => 2,
        None => 0,
    };
    azimuth + elevation * 4
}

/// Unpack a drive state from its byte.
pub fn decode_drive(bits: u8) -> (drive: DriveCommand)
    ensures
        drive == spec_decode_drive(bits),
{
    let azimuth_bits = bits % 4;
    let elevation_bits = (bits / 4) % 4;
    DriveCommand {
        azimuth: if azimuth_bits == 1 {
            Some(AzimuthDirection::Clockwise)
        } else if azimuth_bits == 2 {
            Some(AzimuthDirection::CounterClockwise)
        } else {
            None
        },
        elevation: if elevation_bits == 1 {
            Some(ElevationDirection::Up)
        } else if elevation_bits == 2 {
            Some(ElevationDirection::Down)
        } else {
            None
        },
    }
}

/// Decoding a stored drive state gives back exactly the state stored.
pub proof fn lemma_drive_encoding_round_trips(drive: DriveCommand)
    ensures
        spec_decode_drive(spec_encode_drive(drive)) == drive,
{
}

/// Coordination state shared between the firmware tasks: the latest feedback
/// sample, the connection-id allocator, the current controller (0 for none),
/// the applied drive state, and the drive command waiting to be applied.
pub struct SharedState {
    position: PositionTelemetry,
    next_client_id: u32,
    controller_id: u32,
    drive: u8,
    pending: Option<Command>,
}

impl SharedState {
    /// The latest feedback sample.
    pub closed spec fn spec_position(self) -> PositionTelemetry {
        self.position
    }

    /// The connection that owns drive control, or 0 when none does.
    pub closed spec fn controller(self) -> u32 {
        self.controller_id
    }

    /// The id the next registered connection is offered.
    pub closed spec fn next_id(self) -> u32 {
        self.next_client_id
    }

    /// The drive state last recorded as applied to the outputs.
    pub closed spec fn applied_drive(self) -> DriveCommand {
        spec_decode_drive(self.drive)
    }

    /// The drive command signalled to the output task and not yet taken.
    pub closed spec fn pending(self) -> Option<Command> {
        self.pending
    }

    /// The id [`SharedState::register_client`] hands out next.
    pub closed spec fn registered_id(self) -> u32 {
        if self.next_client_id != 0 {
            self.next_client_id
        } else {
            1
        }
    }

    /// The state after [`SharedState::register_client`].
    pub closed spec fn after_register(self) -> Self {
        let id = self.registered_id();
        SharedState {
            next_client_id: ((id as int + 1) % 0x1_0000_0000) as u32,
            controller_id: if self.controller_id == 0 {
                id
            } else {
                self.controller_id
            },
            ..self
        }
    }

    /// Create empty shared state: a zero sample, ids starting at 1, no
    /// controller, an idle drive and no pending command.
    pub fn new() -> (s: Self)
        ensures
            s.spec_position() == (PositionTelemetry { a0_mv: 0, a1_mv: 0 }),
            s.next_id() == 1,
            s.controller() == 0,
            s.applied_drive() == (DriveCommand { azimuth: None, elevation: None }),
            s.pending() is None,
    {
        Self {
            position: PositionTelemetry::zero(),
            next_client_id: 1,
            controller_id: 0,
            drive: encode_drive(DriveCommand::idle()),
            pending: None,
        }
    }

    /// Store the latest raw ADC millivolt readings.
    pub fn store_position(&mut self, position: PositionTelemetry)
        ensures
            final(self).spec_position() == position,
            final(self).controller() == old(self).controller(),
            final(self).next_id() == old(self).next_id(),
            final(self).applied_drive() == old(self).applied_drive(),
            final(self).pending() == old(self).pending(),
    {
        self.position = position;
    }

    /// Read the latest raw ADC millivolt readings.
    pub fn position(&self) -> (p: PositionTelemetry)
        ensures
            p == self.spec_position(),
    {
        self.position
    }

    /// Allocate a WebSocket connection id (never 0, ids counting up with
    /// wrap-around past 0) and make it the controller when no connection
    /// owns control.
    pub fn register_client(&mut self) -> (id: u32)
        ensures
            id == old(self).registered_id(),
            *final(self) == old(self).after_register(),
            id != 0,
            id == if old(self).next_id() != 0 {
                old(self).next_id()
            } else {
                1
            },
            final(self).next_id() == (id as int + 1) % 0x1_0000_0000,
            final(self).controller() == if old(self).controller() == 0 {
                id
            } else {
                old(self).controller()
            },
            final(self).spec_position() == old(self).spec_position(),
            final(self).applied_drive() == old(self).applied_drive(),
            final(self).pending() == old(self).pending(),
    {
        let first = self.next_client_id;
        self.next_client_id = self.next_client_id.wrapping_add(1);
        let id = if first == 0 {
            let second = self.next_client_id;
            self.next_client_id = self.next_client_id.wrapping_add(1);
            second
        } else {
            first
        };
        if self.controller_id == 0 {
            self.controller_id = id;
        }
        id
    }

    /// Whether a WebSocket connection currently owns drive control.
    pub fn is_controller(&self, client_id: u32) -> (c: bool)
        ensures
            c == (self.controller() == client_id),
    {
        self.controller_id == client_id
    }

    /// The control status as seen by one connection: whether it owns control,
    /// and the drive state last applied.
    pub fn control_status(&self, client_id: u32) -> (status: ControlStatus)
        ensures
            status.controller == (self.controller() == client_id),
            status.drive == self.applied_drive(),
    {
        ControlStatus {
            controller: self.is_controller(client_id),
            drive: decode_drive(self.drive),
        }
    }

    /// Make a connection the controller and stop any stale drive lease.
    pub fn take_control(&mut self, client_id: u32)
        ensures
            final(self).controller() == client_id,
            final(self).pending() == Some(Command::Stop),
            final(self).next_id() == old(self).next_id(),
            final(self).spec_position() == old(self).spec_position(),
            final(self).applied_drive() == old(self).applied_drive(),
    {
        self.controller_id = client_id;
        self.apply_command(Command::Stop);
    }

    /// Release control if the disconnecting connection still owns it, and
    /// then stop the drive; a connection that does not own control changes
    /// nothing.
    pub fn release_client(&mut self, client_id: u32)
        ensures
            old(self).controller() == client_id ==> final(self).controller() == 0
                && final(self).pending() == Some(Command::Stop),
            old(self).controller() != client_id ==> final(self).controller() == old(
                self,
            ).controller() && final(self).pending() == old(self).pending(),
            final(self).next_id() == old(self).next_id(),
            final(self).spec_position() == old(self).spec_position(),
            final(self).applied_drive() == old(self).applied_drive(),
    {
        if self.controller_id == client_id {
            self.controller_id = 0;
            self.apply_command(Command::Stop);
        }
    }

    /// Accept a client command only from the current controller: it is
    /// signalled to the output task and `true` returned; from any other
    /// connection nothing changes and `false` is returned.
    pub fn accept_command(&mut self, client_id: u32, command: Command) -> (accepted: bool)
        ensures
            accepted == (old(self).controller() == client_id),
            accepted ==> final(self).pending() == Some(command),
            !accepted ==> final(self).pending() == old(self).pending(),
            final(self).controller() == old(self).controller(),
            final(self).next_id() == old(self).next_id(),
            final(self).spec_position() == old(self).spec_position(),
            final(self).applied_drive() == old(self).applied_drive(),
    {
        if !self.is_controller(client_id) {
            return false;
        }
        self.apply_command(command);
        true
    }

    /// Signal a requested drive-state command to the task that owns the GPIOs;
    /// it replaces any command not yet taken.
    pub fn apply_command(&mut self, command: Command)
        ensures
            final(self).pending() == Some(command),
            final(self).controller() == old(self).controller(),
            final(self).next_id() == old(self).next_id(),
            final(self).spec_position() == old(self).spec_position(),
            final(self).applied_drive() == old(self).applied_drive(),
    {
        self.pending = Some(command);
    }

    /// Record the drive state currently applied to the output GPIOs.
    pub fn record_applied_drive(&mut self, drive: DriveCommand)
        ensures
            final(self).applied_drive() == drive,
            final(self).controller() == old(self).controller(),
            final(self).next_id() == old(self).next_id(),
            final(self).spec_position() == old(self).spec_position(),
            final(self).pending() == old(self).pending(),
    {
        self.drive = encode_drive(drive);
        proof {
            lemma_drive_encoding_round_trips(drive);
        }
    }

    /// Whether a drive command is waiting to be taken.
    pub fn has_pending_command(&self) -> (waiting: bool)
        ensures
            waiting == self.pending() is Some,
    {
        self.pending.is_some()
    }

    /// Take the most recently signalled drive command, if one is waiting.
    pub fn take_command(&mut self) -> (command: Option<Command>)
        ensures
            command == old(self).pending(),
            final(self).pending() is None,
            final(self).controller() == old(self).controller(),
            final(self).next_id() == old(self).next_id(),
            final(self).spec_position() == old(self).spec_position(),
            final(self).applied_drive() == old(self).applied_drive(),
    {
        let command = self.pending;
        self.pending = None;
        command
    }
}

/// Two connections registered one after the other get different ids, and
/// when no connection had control the first of them keeps it.
pub proof fn lemma_consecutive_registrations_differ(s: SharedState)
    ensures
        s.registered_id() != s.after_register().registered_id(),
        s.controller() == 0 ==> s.after_register().after_register().controller()
            == s.registered_id(),
{
}

} // verus!
