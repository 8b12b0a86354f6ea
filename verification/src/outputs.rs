//! The four direction outputs (CW, CCW, UP, DOWN transistor switches) as a
//! plan of pin writes: which pins to drive low or high, in which order, to
//! move the outputs from the applied drive state to a new one. Within an
//! axis the old direction is always released before the new one is
//! energised, so no two opposite outputs are ever on together.
use vstd::prelude::*;
use crate::drive::{AzimuthDirection, DriveCommand, ElevationDirection};

verus! {

/// One of the four direction outputs, in schematic order.
#[derive(Clone, Copy, Debug, PartialEq, Eq, Structural)]
pub enum DirectionPin {
    /// Clockwise azimuth switch.
    Cw,
    /// Counter-clockwise azimuth switch.
    Ccw,
    /// Upward elevation switch.
    Up,
    /// Downward elevation switch.
    Down,
}

/// Drive `pin` high (energised) or low (released).
#[derive(Clone, Copy, Debug, PartialEq, Eq, Structural)]
pub struct PinWrite {
    /// The output to drive.
    pub pin: DirectionPin,
    /// `true` for high, `false` for low.
    pub high: bool,
}

/// The levels of the four outputs.
#[derive(Clone, Copy, Debug, PartialEq, Eq, Structural)]
pub struct PinLevels {
    /// Clockwise output level.
    pub cw: bool,
    /// Counter-clockwise output level.
    pub ccw: bool,
    /// Up output level.
    pub up: bool,
    /// Down output level.
    pub down: bool,
}

/// The output levels that express a drive state: exactly the pins of its
/// directions are high.
pub open spec fn levels_of(drive: DriveCommand) -> PinLevels {
    PinLevels {
        cw: drive.azimuth == Some(AzimuthDirection::Clockwise),
        ccw: drive.azimuth == Some(AzimuthDirection::CounterClockwise),
        up: drive.elevation == Some(ElevationDirection::Up),
        down: drive.elevation == Some(ElevationDirection::Down),
    }
}

/// The levels after one pin write.
pub open spec fn write_pin(levels: PinLevels, write: PinWrite) -> PinLevels {
    match write.pin {
        DirectionPin::Cw => PinLevels { cw: write.high, ..levels },
        DirectionPin::Ccw => PinLevels { ccw: write.high, ..levels },
        DirectionPin::Up => PinLevels { up: write.high, ..levels },
        DirectionPin::Down => PinLevels { down: write.high, ..levels },
    }
}

/// The levels after a sequence of pin writes, applied in order.
pub open spec fn apply_writes(levels: PinLevels, writes: Seq<PinWrite>) -> PinLevels
    decreases writes.len(),
{
    if writes.len() == 0 {
        levels
    } else {
        apply_writes(write_pin(levels, writes[0]), writes.drop_first())
    }
}

/// No axis has both of its opposite outputs energised.
pub open spec fn conflict_free(levels: PinLevels) -> bool {
    !(levels.cw && levels.ccw) && !(levels.up && levels.down)
}

/// Every state passed through while applying `writes` in order, the first
/// and the last included, is conflict-free.
pub open spec fn safe_sequence(levels: PinLevels, writes: Seq<PinWrite>) -> bool
    decreases writes.len(),
{
    conflict_free(levels) && (writes.len() > 0 ==> safe_sequence(
        write_pin(levels, writes[0]),
        writes.drop_first(),
    ))
}

/// The output pin of an azimuth direction.
pub open spec fn azimuth_pin(direction: AzimuthDirection) -> DirectionPin {
    match direction {
        AzimuthDirection::Clockwise => DirectionPin::Cw,
        AzimuthDirection::CounterClockwise => DirectionPin::Ccw,
    }
}

/// The output pin of an elevation direction.
pub open spec fn elevation_pin(direction: ElevationDirection) -> DirectionPin {
    match direction {
        ElevationDirection::Up => DirectionPin::Up,
        ElevationDirection::Down => DirectionPin::Down,
    }
}

/// The writes that move one axis from `from` to `to`: nothing when they are
/// equal, else release the old pin (if any), then energise the new (if any).
pub open spec fn axis_writes(from: Option<DirectionPin>, to: Option<DirectionPin>) -> Seq<
    PinWrite,
> {
    if from == to {
        Seq::empty()
    } else {
        (match from {
            Some(p) => seq![PinWrite { pin: p, high: false }],
            None => Seq::empty(),
        }) + (match to {
            Some(p) => seq![PinWrite { pin: p, high: true }],
            None => Seq::empty(),
        })
    }
}

/// The azimuth pin of a drive state, if it moves in azimuth.
pub open spec fn azimuth_pin_of(drive: DriveCommand) -> Option<DirectionPin> {
    match drive.azimuth {
        Some(d) => Some(azimuth_pin(d)),
        None => None,
    }
}

/// The elevation pin of a drive state, if it moves in elevation.
pub open spec fn elevation_pin_of(drive: DriveCommand) -> Option<DirectionPin> {
    match drive.elevation {
        Some(d) => Some(elevation_pin(d)),
        None => None,
    }
}

/// The writes that move the outputs from `applied` to `drive`: the azimuth
/// axis, then the elevation axis.
pub open spec fn transition_writes(applied: DriveCommand, drive: DriveCommand) -> Seq<PinWrite> {
    axis_writes(azimuth_pin_of(applied), azimuth_pin_of(drive)) + axis_writes(
        elevation_pin_of(applied),
        elevation_pin_of(drive),
    )
}

/// The writes that drive every output low, in schematic order.
pub open spec fn stop_writes() -> Seq<PinWrite> {
    seq![
        PinWrite { pin: DirectionPin::Cw, high: false },
        PinWrite { pin: DirectionPin::Ccw, high: false },
        PinWrite { pin: DirectionPin::Up, high: false },
        PinWrite { pin: DirectionPin::Down, high: false },
    ]
}

/// The model of the four direction outputs: the drive state they express.
pub struct DirectionOutputs {
    applied: DriveCommand,
}

impl DirectionOutputs {
    /// The drive state the outputs currently express.
    pub closed spec fn applied(self) -> DriveCommand {
        self.applied
    }

    /// Outputs with no axis energised.
    pub fn new() -> (o: Self)
        ensures
            o.applied() == (DriveCommand { azimuth: None, elevation: None }),
    {
        Self { applied: DriveCommand::idle() }
    }

    /// The drive state the outputs currently express.
    pub fn applied_drive(&self) -> (d: DriveCommand)
        ensures
            d == self.applied(),
    {
        self.applied
    }

    /// Plan the pin writes that change the outputs to express `drive`, and
    /// record it as applied. Applied in order from the levels of the old
    /// state, the writes reach the levels of `drive`, and no state on the
    /// way energises two opposite outputs.
    pub fn apply_drive(&mut self, drive: DriveCommand) -> (writes: Vec<PinWrite>)
        ensures
            writes@ == transition_writes(old(self).applied(), drive),
            final(self).applied() == drive,
            apply_writes(levels_of(old(self).applied()), writes@) == levels_of(drive),
            safe_sequence(levels_of(old(self).applied()), writes@),
    {
        let mut writes: Vec<PinWrite> = Vec::new();
        if self.applied.azimuth != drive.azimuth {
            match self.applied.azimuth {
                Some(AzimuthDirection::Clockwise) => writes.push(
                    PinWrite { pin: DirectionPin::Cw, high: false },
                ),
                Some(AzimuthDirection::CounterClockwise) => writes.push(
                    PinWrite { pin: DirectionPin::Ccw, high: false },
                ),
                None => {},
            }
            match drive.azimuth {
                Some(AzimuthDirection::Clockwise) => writes.push(
                    PinWrite { pin: DirectionPin::Cw, high: true },
                ),
                Some(AzimuthDirection::CounterClockwise) => writes.push(
                    PinWrite { pin: DirectionPin::Ccw, high: true },
                ),
                None => {},
            }
        }
        let ghost azimuth_part = writes@;
        assert(azimuth_part =~= axis_writes(azimuth_pin_of(self.applied), azimuth_pin_of(drive)));
        if self.applied.elevation != drive.elevation {
            match self.applied.elevation {
                Some(ElevationDirection::Up) => writes.push(
                    PinWrite { pin: DirectionPin::Up, high: false },
                ),
                Some(ElevationDirection::Down) => writes.push(
                    PinWrite { pin: DirectionPin::Down, high: false },
                ),
                None => {},
            }
            match drive.elevation {
                Some(ElevationDirection::Up) => writes.push(
                    PinWrite { pin: DirectionPin::Up, high: true },
                ),
                Some(ElevationDirection::Down) => writes.push(
                    PinWrite { pin: DirectionPin::Down, high: true },
                ),
                None => {},
            }
        }
        assert(writes@ =~= transition_writes(self.applied, drive));
        proof {
            lemma_transition_is_safe(self.applied, drive);
        }
        self.applied = drive;
        writes
    }

    /// Plan the writes that drive every output low, whatever their levels,
    /// and record the idle state as applied.
    pub fn stop(&mut self) -> (writes: Vec<PinWrite>)
        ensures
            writes@ == stop_writes(),
            final(self).applied() == (DriveCommand { azimuth: None, elevation: None }),
            forall|levels: PinLevels|
                #[trigger] apply_writes(levels, writes@) == levels_of(
                    DriveCommand { azimuth: None, elevation: None },
                ),
    {
        let mut writes: Vec<PinWrite> = Vec::new();
        writes.push(PinWrite { pin: DirectionPin::Cw, high: false });
        writes.push(PinWrite { pin: DirectionPin::Ccw, high: false });
        writes.push(PinWrite { pin: DirectionPin::Up, high: false });
        writes.push(PinWrite { pin: DirectionPin::Down, high: false });
        assert(writes@ =~= stop_writes());
        self.applied = DriveCommand::idle();
        proof {
            assert forall|levels: PinLevels|
                #[trigger] apply_writes(levels, writes@) == levels_of(
                    DriveCommand { azimuth: None, elevation: None },
                ) by {
                lemma_stop_writes(levels);
            }
        }
        writes
    }
}

proof fn lemma_stop_writes(levels: PinLevels)
    ensures
        apply_writes(levels, stop_writes()) == levels_of(
            DriveCommand { azimuth: None, elevation: None },
        ),
{
    let w = stop_writes();
    reveal_with_fuel(apply_writes, 5);
    assert(w.drop_first() =~= seq![w[1], w[2], w[3]]);
    assert(w.drop_first().drop_first() =~= seq![w[2], w[3]]);
    assert(w.drop_first().drop_first().drop_first() =~= seq![w[3]]);
    assert(w.drop_first().drop_first().drop_first().drop_first() =~= Seq::<PinWrite>::empty());
}

/// Applying two write sequences one after the other.
proof fn lemma_apply_concat(levels: PinLevels, a: Seq<PinWrite>, b: Seq<PinWrite>)
    ensures
        apply_writes(levels, a + b) == apply_writes(apply_writes(levels, a), b),
        safe_sequence(levels, a + b) == (safe_sequence(levels, a) && safe_sequence(
            apply_writes(levels, a),
            b,
        )),
    decreases a.len(),
{
    if a.len() == 0 {
        assert(a + b =~= b);
    } else {
        assert((a + b).drop_first() =~= a.drop_first() + b);
        assert((a + b)[0] == a[0]);
        lemma_apply_concat(write_pin(levels, a[0]), a.drop_first(), b);
        lemma_safe_sequence_ends_conflict_free(write_pin(levels, a[0]), a.drop_first());
    }
}

proof fn lemma_safe_sequence_ends_conflict_free(levels: PinLevels, writes: Seq<PinWrite>)
    ensures
        safe_sequence(levels, writes) ==> conflict_free(apply_writes(levels, writes)),
    decreases writes.len(),
{
    if writes.len() > 0 {
        lemma_safe_sequence_ends_conflict_free(write_pin(levels, writes[0]), writes.drop_first());
    }
}

proof fn lemma_two_writes(levels: PinLevels, w0: PinWrite, w1: PinWrite)
    ensures
        apply_writes(levels, seq![w0, w1]) == write_pin(write_pin(levels, w0), w1),
        safe_sequence(levels, seq![w0, w1]) == (conflict_free(levels) && conflict_free(
            write_pin(levels, w0),
        ) && conflict_free(write_pin(write_pin(levels, w0), w1))),
{
    reveal_with_fuel(apply_writes, 3);
    reveal_with_fuel(safe_sequence, 3);
    assert(seq![w0, w1].drop_first() =~= seq![w1]);
    assert(seq![w1].drop_first() =~= Seq::<PinWrite>::empty());
}

proof fn lemma_one_write(levels: PinLevels, w0: PinWrite)
    ensures
        apply_writes(levels, seq![w0]) == write_pin(levels, w0),
        safe_sequence(levels, seq![w0]) == (conflict_free(levels) && conflict_free(
            write_pin(levels, w0),
        )),
{
    reveal_with_fuel(apply_writes, 2);
    reveal_with_fuel(safe_sequence, 2);
    assert(seq![w0].drop_first() =~= Seq::<PinWrite>::empty());
}

/// Moving the outputs from one drive state to another reaches the new
/// state's levels through conflict-free states only.
pub proof fn lemma_transition_is_safe(applied: DriveCommand, drive: DriveCommand)
    ensures
        apply_writes(levels_of(applied), transition_writes(applied, drive)) == levels_of(drive),
        safe_sequence(levels_of(applied), transition_writes(applied, drive)),
{
    let az = axis_writes(azimuth_pin_of(applied), azimuth_pin_of(drive));
    let el = axis_writes(elevation_pin_of(applied), elevation_pin_of(drive));
    let start = levels_of(applied);
    let middle = levels_of(DriveCommand { azimuth: drive.azimuth, elevation: applied.elevation });
    lemma_apply_concat(start, az, el);
    // The azimuth writes.
    if azimuth_pin_of(applied) == azimuth_pin_of(drive) {
        assert(applied.azimuth == drive.azimuth);
        assert(az =~= Seq::<PinWrite>::empty());
    } else {
        match (azimuth_pin_of(applied), azimuth_pin_of(drive)) {
            (Some(p), Some(q)) => {
                assert(az =~= seq![PinWrite { pin: p, high: false }, PinWrite { pin: q, high: true }]);
                lemma_two_writes(start, az[0], az[1]);
            },
            (Some(p), None) => {
                assert(az =~= seq![PinWrite { pin: p, high: false }]);
                lemma_one_write(start, az[0]);
            },
            (None, Some(q)) => {
                assert(az =~= seq![PinWrite { pin: q, high: true }]);
                lemma_one_write(start, az[0]);
            },
            (None, None) => {},
        }
    }
    assert(apply_writes(start, az) == middle);
    assert(safe_sequence(start, az));
    // The elevation writes.
    if elevation_pin_of(applied) == elevation_pin_of(drive) {
        assert(applied.elevation == drive.elevation);
        assert(el =~= Seq::<PinWrite>::empty());
    } else {
        match (elevation_pin_of(applied), elevation_pin_of(drive)) {
            (Some(p), Some(q)) => {
                assert(el =~= seq![PinWrite { pin: p, high: false }, PinWrite { pin: q, high: true }]);
                lemma_two_writes(middle, el[0], el[1]);
            },
            (Some(p), None) => {
                assert(el =~= seq![PinWrite { pin: p, high: false }]);
                lemma_one_write(middle, el[0]);
            },
            (None, Some(q)) => {
                assert(el =~= seq![PinWrite { pin: q, high: true }]);
                lemma_one_write(middle, el[0]);
            },
            (None, None) => {},
        }
    }
}

} // verus!
