//! The ADS1015 power-on self-test as a sequence of bus operations and the
//! decisions between them. The test proves more than an address ACK: the
//! Config register must read back what was written (OS bit aside), and two
//! complementary scratch patterns must survive a round trip through the
//! comparator-threshold registers; then one reading per feedback channel is
//! taken for the report. The firmware performs each operation on the I²C bus
//! and feeds the outcome back.
use vstd::prelude::*;
use crate::ads1015::{
    config_matches, config_single_shot, count_to_mv, decode_count, div_toward_zero, signed16,
    spec_config_matches, spec_config_single_shot, DataRate, FullScale, Mux, Register, SCRATCH_HI,
    SCRATCH_LO,
};

verus! {

/// The full-scale range of every reading: ±2.048 V, so the divided rotator
/// feedback (about 0.90–2.02 V) sits near the top of the span.
pub open spec fn feedback_range() -> FullScale {
    FullScale::V2_048
}

/// The data rate of the single-shot reads: 1600 SPS, about 625 µs each.
pub open spec fn feedback_rate() -> DataRate {
    DataRate::Sps1600
}

/// The Config word that starts a single-shot reading of `mux` at the
/// feedback range and rate.
pub fn channel_config(mux: Mux) -> (cfg: u16)
    ensures
        cfg == spec_config_single_shot(mux, feedback_range(), feedback_rate()),
{
    config_single_shot(mux, FullScale::V2_048, DataRate::Sps1600)
}

/// A raw Conversion-register word at the feedback range, in millivolts:
/// the signed 12-bit count, one millivolt per count at ±2.048 V.
pub open spec fn feedback_mv(raw: u16) -> int {
    signed16(raw) / 16
}

/// A raw Conversion-register word at the feedback range, in millivolts.
pub fn raw_to_mv(raw: u16) -> (mv: i32)
    ensures
        mv == feedback_mv(raw),
        mv == div_toward_zero((signed16(raw) / 16) * 2048, 2048),
        mv == signed16(raw) / 16,
{
    count_to_mv(decode_count(raw), FullScale::V2_048)
}

/// The I²C write that stores `value` in `reg`: the register's pointer byte,
/// then the value most significant byte first, as the ADS1015 expects.
pub fn register_write_frame(reg: Register, value: u16) -> (frame: [u8; 3])
    ensures
        frame@ == seq![reg.spec_addr(), (value / 256) as u8, (value % 256) as u8],
{
    let hi = (value / 256) as u8;
    let lo = (value % 256) as u8;
    let frame = [reg.addr(), hi, lo];
    assert(frame@ =~= seq![reg.spec_addr(), (value / 256) as u8, (value % 256) as u8]);
    frame
}

/// The 16-bit register value carried by the two bytes of a register read,
/// most significant byte first.
pub fn register_value(bytes: [u8; 2]) -> (value: u16)
    ensures
        value == bytes@[0] * 256 + bytes@[1],
{
    let hi = bytes[0] as u16;
    let lo = bytes[1] as u16;
    hi * 256 + lo
}

/// What a successful POST measured, for logging.
#[derive(Clone, Copy, Debug, PartialEq, Eq, Structural)]
pub struct PostReport {
    /// The Config register as read back after configuring the device.
    pub config: u16,
    /// Channel A0 in millivolts (informational, not a pass/fail gate).
    pub a0_mv: i32,
    /// Channel A1 in millivolts (informational, not a pass/fail gate).
    pub a1_mv: i32,
}

/// Why a POST failed.
#[derive(Clone, Copy, Debug, PartialEq, Eq, Structural)]
pub enum PostError {
    /// Nothing answered the presence read.
    NoDevice,
    /// The Config register did not read back what was written (OS masked).
    ConfigRoundtrip {
        /// The value written.
        wrote: u16,
        /// The value read back.
        read: u16,
    },
    /// A threshold-register scratch pattern did not survive a round trip.
    ScratchRoundtrip {
        /// The pattern written.
        wrote: u16,
        /// The value read back.
        read: u16,
    },
    /// A bus transaction failed after the device had answered.
    Bus,
}

/// A bus operation the POST asks the firmware to perform.
#[derive(Clone, Copy, Debug, PartialEq, Eq, Structural)]
pub enum BusOp {
    /// Read a 16-bit register.
    Read(Register),
    /// Write a 16-bit register.
    Write(Register, u16),
    /// Take one single-shot reading of a channel: write its Config word
    /// ([`channel_config`]), wait out the conversion, and read the
    /// Conversion register.
    Convert(Mux),
}

/// What a bus operation gave back.
#[derive(Clone, Copy, Debug, PartialEq, Eq, Structural)]
pub enum BusOutcome {
    /// The transaction failed.
    Failed,
    /// A write completed.
    Written,
    /// A read returned this value.
    Value(u16),
    /// A reading left this word in the Conversion register.
    Conversion(u16),
}

/// Where the POST stands: the operation whose outcome it waits for.
#[derive(Clone, Copy, Debug, PartialEq, Eq, Structural)]
pub enum PostStep {
    /// The presence read of the Config register.
    Presence,
    /// Writing the operating configuration.
    WriteConfig,
    /// Reading the configuration back.
    ReadConfig,
    /// Writing the low scratch pattern.
    WriteScratchLo,
    /// Reading the low scratch pattern back.
    ReadScratchLo,
    /// Writing the high scratch pattern.
    WriteScratchHi,
    /// Reading the high scratch pattern back.
    ReadScratchHi,
    /// The reading of channel A0.
    ReadA0,
    /// The reading of channel A1.
    ReadA1,
    /// The test has reported its result.
    Finished,
}

/// The next thing the POST wants: a bus operation, or its final result.
#[derive(Clone, Copy, Debug, PartialEq, Eq)]
pub enum PostProgress {
    /// Perform this operation and report its outcome.
    Issue(BusOp),
    /// The test is over with this result.
    Finished(Result<PostReport, PostError>),
}

/// The state of a running ADS1015 POST.
#[derive(Clone, Copy, Debug, PartialEq, Eq)]
pub struct Post {
    step: PostStep,
    config_read: u16,
    a0_mv: i32,
}

/// The operating configuration the POST writes: a single-shot read of A0.
pub open spec fn post_config() -> u16 {
    spec_config_single_shot(Mux::Ain0, feedback_range(), feedback_rate()) as u16
}

impl Post {
    /// The operation whose outcome the POST waits for.
    pub closed spec fn step(self) -> PostStep {
        self.step
    }

    /// The POST before its first operation.
    pub closed spec fn initial() -> Self {
        Post { step: PostStep::Presence, config_read: 0, a0_mv: 0 }
    }

    /// One step: the state and progress after the outcome of the pending
    /// operation. A failed presence read means no device; any later failure
    /// is a bus error; a Config read-back that differs outside the OS bit, or
    /// a scratch read-back that differs at all, fails the test.
    pub closed spec fn advanced(self, outcome: BusOutcome) -> (Self, PostProgress) {
        let bus = (Post { step: PostStep::Finished, ..self }, PostProgress::Finished(Err(PostError::Bus)));
        match self.step {
            PostStep::Presence => match outcome {
                BusOutcome::Value(_) => (
                    Post { step: PostStep::WriteConfig, ..self },
                    PostProgress::Issue(BusOp::Write(Register::Config, post_config())),
                ),
                _ => (
                    Post { step: PostStep::Finished, ..self },
                    PostProgress::Finished(Err(PostError::NoDevice)),
                ),
            },
            PostStep::WriteConfig => match outcome {
                BusOutcome::Written => (
                    Post { step: PostStep::ReadConfig, ..self },
                    PostProgress::Issue(BusOp::Read(Register::Config)),
                ),
                _ => bus,
            },
            PostStep::ReadConfig => match outcome {
                BusOutcome::Value(read) => if spec_config_matches(post_config(), read) {
                    (
                        Post { step: PostStep::WriteScratchLo, config_read: read, ..self },
                        PostProgress::Issue(BusOp::Write(Register::LoThresh, SCRATCH_LO)),
                    )
                } else {
                    (
                        Post { step: PostStep::Finished, ..self },
                        PostProgress::Finished(
                            Err(PostError::ConfigRoundtrip { wrote: post_config(), read }),
                        ),
                    )
                },
                _ => bus,
            },
            PostStep::WriteScratchLo => match outcome {
                BusOutcome::Written => (
                    Post { step: PostStep::ReadScratchLo, ..self },
                    PostProgress::Issue(BusOp::Read(Register::LoThresh)),
                ),
                _ => bus,
            },
            PostStep::ReadScratchLo => match outcome {
                BusOutcome::Value(read) => if read == SCRATCH_LO {
                    (
                        Post { step: PostStep::WriteScratchHi, ..self },
                        PostProgress::Issue(BusOp::Write(Register::HiThresh, SCRATCH_HI)),
                    )
                } else {
                    (
                        Post { step: PostStep::Finished, ..self },
                        PostProgress::Finished(
                            Err(PostError::ScratchRoundtrip { wrote: SCRATCH_LO, read }),
                        ),
                    )
                },
                _ => bus,
            },
            PostStep::WriteScratchHi => match outcome {
                BusOutcome::Written => (
                    Post { step: PostStep::ReadScratchHi, ..self },
                    PostProgress::Issue(BusOp::Read(Register::HiThresh)),
                ),
                _ => bus,
            },
            PostStep::ReadScratchHi => match outcome {
                BusOutcome::Value(read) => if read == SCRATCH_HI {
                    (
                        Post { step: PostStep::ReadA0, ..self },
                        PostProgress::Issue(BusOp::Convert(Mux::Ain0)),
                    )
                } else {
                    (
                        Post { step: PostStep::Finished, ..self },
                        PostProgress::Finished(
                            Err(PostError::ScratchRoundtrip { wrote: SCRATCH_HI, read }),
                        ),
                    )
                },
                _ => bus,
            },
            PostStep::ReadA0 => match outcome {
                BusOutcome::Conversion(raw) => (
                    Post { step: PostStep::ReadA1, a0_mv: feedback_mv(raw) as i32, ..self },
                    PostProgress::Issue(BusOp::Convert(Mux::Ain1)),
                ),
                _ => bus,
            },
            PostStep::ReadA1 => match outcome {
                BusOutcome::Conversion(raw) => (
                    Post { step: PostStep::Finished, ..self },
                    PostProgress::Finished(
                        Ok(
                            PostReport {
                                config: self.config_read,
                                a0_mv: self.a0_mv,
                                a1_mv: feedback_mv(raw) as i32,
                            },
                        ),
                    ),
                ),
                _ => bus,
            },
            PostStep::Finished => bus,
        }
    }

    /// The state of a POST after being fed `outcomes` one after the other.
    pub closed spec fn after(self, outcomes: Seq<BusOutcome>) -> Self
        decreases outcomes.len(),
    {
        if outcomes.len() == 0 {
            self
        } else {
            self.advanced(outcomes[0]).0.after(outcomes.drop_first())
        }
    }

    /// The state of a running POST after `o`, read off the outcomes: where
    /// it stands, the Config it read back, and the A0 reading.
    closed spec fn running_after(o: Seq<BusOutcome>) -> Self {
        Post {
            step: if o.len() == 0 {
                PostStep::Presence
            } else if o.len() == 1 {
                PostStep::WriteConfig
            } else if o.len() == 2 {
                PostStep::ReadConfig
            } else if o.len() == 3 {
                PostStep::WriteScratchLo
            } else if o.len() == 4 {
                PostStep::ReadScratchLo
            } else if o.len() == 5 {
                PostStep::WriteScratchHi
            } else if o.len() == 6 {
                PostStep::ReadScratchHi
            } else if o.len() == 7 {
                PostStep::ReadA0
            } else {
                PostStep::ReadA1
            },
            config_read: if o.len() >= 3 {
                o[2]->Value_0
            } else {
                0
            },
            a0_mv: if o.len() >= 8 {
                feedback_mv(o[7]->Conversion_0) as i32
            } else {
                0
            },
        }
    }

    /// The result of a POST fed `outcomes` one after the other, once it has
    /// finished; `None` while it still waits for an outcome.
    pub closed spec fn result_after(self, outcomes: Seq<BusOutcome>) -> Option<
        Result<PostReport, PostError>,
    >
        decreases outcomes.len(),
    {
        if outcomes.len() == 0 {
            None
        } else {
            match self.advanced(outcomes[0]) {
                (_, PostProgress::Finished(result)) => Some(result),
                (next, PostProgress::Issue(_)) => next.result_after(outcomes.drop_first()),
            }
        }
    }

    /// Begin a POST: the first operation is the presence read of Config.
    pub fn start() -> (started: (Self, BusOp))
        ensures
            started.0 == Self::initial(),
            started.0 == Self::initial().after(Seq::empty()),
            started.1 == BusOp::Read(Register::Config),
            started.1 == post_op(0),
    {
        (Post { step: PostStep::Presence, config_read: 0, a0_mv: 0 }, BusOp::Read(Register::Config))
    }

    /// Feed the outcome of the pending operation; returns the next operation
    /// or the final result.
    pub fn advance(&mut self, outcome: BusOutcome) -> (progress: PostProgress)
        ensures
            (*final(self), progress) == old(self).advanced(outcome),
    {
        let cfg = channel_config(Mux::Ain0);
        match self.step {
            PostStep::Presence => match outcome {
                BusOutcome::Value(_) => {
                    self.step = PostStep::WriteConfig;
                    PostProgress::Issue(BusOp::Write(Register::Config, cfg))
                },
                _ => {
                    self.step = PostStep::Finished;
                    PostProgress::Finished(Err(PostError::NoDevice))
                },
            },
            PostStep::WriteConfig => match outcome {
                BusOutcome::Written => {
                    self.step = PostStep::ReadConfig;
                    PostProgress::Issue(BusOp::Read(Register::Config))
                },
                _ => self.bus_error(),
            },
            PostStep::ReadConfig => match outcome {
                BusOutcome::Value(read) => if config_matches(cfg, read) {
                    self.step = PostStep::WriteScratchLo;
                    self.config_read = read;
                    PostProgress::Issue(BusOp::Write(Register::LoThresh, SCRATCH_LO))
                } else {
                    self.step = PostStep::Finished;
                    PostProgress::Finished(Err(PostError::ConfigRoundtrip { wrote: cfg, read }))
                },
                _ => self.bus_error(),
            },
            PostStep::WriteScratchLo => match outcome {
                BusOutcome::Written => {
                    self.step = PostStep::ReadScratchLo;
                    PostProgress::Issue(BusOp::Read(Register::LoThresh))
                },
                _ => self.bus_error(),
            },
            PostStep::ReadScratchLo => match outcome {
                BusOutcome::Value(read) => if read == SCRATCH_LO {
                    self.step = PostStep::WriteScratchHi;
                    PostProgress::Issue(BusOp::Write(Register::HiThresh, SCRATCH_HI))
                } else {
                    self.step = PostStep::Finished;
                    PostProgress::Finished(
                        Err(PostError::ScratchRoundtrip { wrote: SCRATCH_LO, read }),
                    )
                },
                _ => self.bus_error(),
            },
            PostStep::WriteScratchHi => match outcome {
                BusOutcome::Written => {
                    self.step = PostStep::ReadScratchHi;
                    PostProgress::Issue(BusOp::Read(Register::HiThresh))
                },
                _ => self.bus_error(),
            },
            PostStep::ReadScratchHi => match outcome {
                BusOutcome::Value(read) => if read == SCRATCH_HI {
                    self.step = PostStep::ReadA0;
                    PostProgress::Issue(BusOp::Convert(Mux::Ain0))
                } else {
                    self.step = PostStep::Finished;
                    PostProgress::Finished(
                        Err(PostError::ScratchRoundtrip { wrote: SCRATCH_HI, read }),
                    )
                },
                _ => self.bus_error(),
            },
            PostStep::ReadA0 => match outcome {
                BusOutcome::Conversion(raw) => {
                    self.step = PostStep::ReadA1;
                    self.a0_mv = raw_to_mv(raw);
                    PostProgress::Issue(BusOp::Convert(Mux::Ain1))
                },
                _ => self.bus_error(),
            },
            PostStep::ReadA1 => match outcome {
                BusOutcome::Conversion(raw) => {
                    self.step = PostStep::Finished;
                    PostProgress::Finished(
                        Ok(
                            PostReport {
                                config: self.config_read,
                                a0_mv: self.a0_mv,
                                a1_mv: raw_to_mv(raw),
                            },
                        ),
                    )
                },
                _ => self.bus_error(),
            },
            PostStep::Finished => self.bus_error(),
        }
    }

    fn bus_error(&mut self) -> (progress: PostProgress)
        ensures
            *final(self) == (Post { step: PostStep::Finished, ..*old(self) }),
            progress == PostProgress::Finished(Err(PostError::Bus)),
    {
        self.step = PostStep::Finished;
        PostProgress::Finished(Err(PostError::Bus))
    }
}

/// The result of a POST fed `o`, outcome by outcome, or `None` while it
/// still waits: no value from the presence read means no device; a failed
/// or unexpected outcome after that is a bus error; a Config read-back that
/// differs outside the OS bit, or a scratch read-back that differs at all,
/// fails with the values written and read; otherwise the report carries the
/// read-back Config and the two readings.
pub open spec fn post_outcome(o: Seq<BusOutcome>) -> Option<Result<PostReport, PostError>> {
    if o.len() < 1 {
        None
    } else if !(o[0] is Value) {
        Some(Err(PostError::NoDevice))
    } else if o.len() < 2 {
        None
    } else if o[1] != BusOutcome::Written {
        Some(Err(PostError::Bus))
    } else if o.len() < 3 {
        None
    } else if !(o[2] is Value) {
        Some(Err(PostError::Bus))
    } else if !spec_config_matches(post_config(), o[2]->Value_0) {
        Some(Err(PostError::ConfigRoundtrip { wrote: post_config(), read: o[2]->Value_0 }))
    } else if o.len() < 4 {
        None
    } else if o[3] != BusOutcome::Written {
        Some(Err(PostError::Bus))
    } else if o.len() < 5 {
        None
    } else if !(o[4] is Value) {
        Some(Err(PostError::Bus))
    } else if o[4]->Value_0 != SCRATCH_LO {
        Some(Err(PostError::ScratchRoundtrip { wrote: SCRATCH_LO, read: o[4]->Value_0 }))
    } else if o.len() < 6 {
        None
    } else if o[5] != BusOutcome::Written {
        Some(Err(PostError::Bus))
    } else if o.len() < 7 {
        None
    } else if !(o[6] is Value) {
        Some(Err(PostError::Bus))
    } else if o[6]->Value_0 != SCRATCH_HI {
        Some(Err(PostError::ScratchRoundtrip { wrote: SCRATCH_HI, read: o[6]->Value_0 }))
    } else if o.len() < 8 {
        None
    } else if !(o[7] is Conversion) {
        Some(Err(PostError::Bus))
    } else if o.len() < 9 {
        None
    } else if !(o[8] is Conversion) {
        Some(Err(PostError::Bus))
    } else {
        Some(
            Ok(
                PostReport {
                    config: o[2]->Value_0,
                    a0_mv: feedback_mv(o[7]->Conversion_0) as i32,
                    a1_mv: feedback_mv(o[8]->Conversion_0) as i32,
                },
            ),
        )
    }
}

/// Dropping `k` outcomes then one more is dropping `k + 1`.
proof fn lemma_skip_step(o: Seq<BusOutcome>, k: int)
    requires
        0 <= k < o.len(),
    ensures
        o.skip(k)[0] == o[k],
        o.skip(k).drop_first() == o.skip(k + 1),
{
    assert(o.skip(k).drop_first() =~= o.skip(k + 1));
}

/// The POST's whole result, outcome sequence by outcome sequence, is
/// [`post_outcome`]: every pass, every failure and when each comes.
pub proof fn lemma_post_result(o: Seq<BusOutcome>)
    ensures
        Post::initial().result_after(o) == post_outcome(o),
{
    reveal_with_fuel(Post::result_after, 10);
    assert(o.skip(0) =~= o);
    assert forall|j: int| 0 <= j < o.len() implies #[trigger] o.skip(j)[0] == o[j] && o.skip(
        j,
    ).drop_first() == o.skip(j + 1) by {
        lemma_skip_step(o, j);
    }
    assert(o.len() > 0 ==> o.skip(0)[0] == o[0]);
}

/// The POST passes only on a device that proved itself: it answered, stored
/// the configuration (read back equal outside the OS bit), returned both
/// complementary scratch patterns exactly, and delivered both readings; the
/// report carries the read-back Config and the two readings, each the
/// millivolts of the Conversion word read.
pub proof fn lemma_post_passes_only_on_a_working_device(outcomes: Seq<BusOutcome>)
    ensures
        Post::initial().result_after(outcomes) matches Some(Ok(report)) ==> {
            &&& outcomes.len() >= 9
            &&& outcomes[0] is Value
            &&& outcomes[1] == BusOutcome::Written
            &&& outcomes[2] == BusOutcome::Value(report.config)
            &&& spec_config_matches(post_config(), report.config)
            &&& outcomes[3] == BusOutcome::Written
            &&& outcomes[4] == BusOutcome::Value(SCRATCH_LO)
            &&& outcomes[5] == BusOutcome::Written
            &&& outcomes[6] == BusOutcome::Value(SCRATCH_HI)
            &&& outcomes[7] is Conversion
            &&& report.a0_mv == feedback_mv(outcomes[7]->Conversion_0)
            &&& outcomes[8] is Conversion
            &&& report.a1_mv == feedback_mv(outcomes[8]->Conversion_0)
        },
{
    lemma_post_result(outcomes);
}

/// A device that does not answer the presence read is reported as absent.
pub proof fn lemma_silent_bus_means_no_device(outcomes: Seq<BusOutcome>)
    requires
        outcomes.len() > 0,
        !(outcomes[0] is Value),
    ensures
        Post::initial().result_after(outcomes) == Some(
            Err::<PostReport, PostError>(PostError::NoDevice),
        ),
{
    lemma_post_result(outcomes);
}

/// The operation a running POST asks for after `k` outcomes: the presence
/// read of Config, the Config write and read-back, the two scratch
/// round trips, and the readings of A0 and A1.
pub open spec fn post_op(k: int) -> BusOp {
    if k == 0 {
        BusOp::Read(Register::Config)
    } else if k == 1 {
        BusOp::Write(Register::Config, post_config())
    } else if k == 2 {
        BusOp::Read(Register::Config)
    } else if k == 3 {
        BusOp::Write(Register::LoThresh, SCRATCH_LO)
    } else if k == 4 {
        BusOp::Read(Register::LoThresh)
    } else if k == 5 {
        BusOp::Write(Register::HiThresh, SCRATCH_HI)
    } else if k == 6 {
        BusOp::Read(Register::HiThresh)
    } else if k == 7 {
        BusOp::Convert(Mux::Ain0)
    } else {
        BusOp::Convert(Mux::Ain1)
    }
}

/// Feeding one more outcome is one more step.
proof fn lemma_after_push(p: Post, o: Seq<BusOutcome>, e: BusOutcome)
    ensures
        p.after(o.push(e)) == p.after(o).advanced(e).0,
    decreases o.len(),
{
    if o.len() == 0 {
        assert(o.push(e).drop_first() =~= Seq::<BusOutcome>::empty());
        assert(o.push(e)[0] == e);
        assert(p.advanced(e).0.after(Seq::<BusOutcome>::empty()) == p.advanced(e).0);
    } else {
        assert(o.push(e).drop_first() =~= o.drop_first().push(e));
        assert(o.push(e)[0] == o[0]);
        lemma_after_push(p.advanced(o[0]).0, o.drop_first(), e);
    }
}

/// A POST still running after `o` stands where the outcomes put it.
proof fn lemma_running_state(o: Seq<BusOutcome>)
    requires
        post_outcome(o) is None,
    ensures
        o.len() <= 8,
        Post::initial().after(o) == Post::running_after(o),
{
    reveal_with_fuel(Post::after, 10);
    assert(o.skip(0) =~= o);
    assert forall|j: int| 0 <= j < o.len() implies #[trigger] o.skip(j)[0] == o[j] && o.skip(
        j,
    ).drop_first() == o.skip(j + 1) by {
        lemma_skip_step(o, j);
    }
    assert(o.len() > 0 ==> o.skip(0)[0] == o[0]);
    if o.len() <= 8 {
        assert(o.skip(o.len() as int) =~= Seq::<BusOutcome>::empty());
    }
}

/// One step of a running POST, in terms of the outcomes so far: fed the
/// next outcome `e`, it either finishes with [`post_outcome`] of the
/// longer sequence or asks for the next operation, [`post_op`].
/// With [`Post::start`] and [`Post::advance`], a caller that keeps its
/// POST equal to `Post::initial().after(o)` knows each operation asked for
/// and the result.
pub proof fn lemma_post_step(o: Seq<BusOutcome>, e: BusOutcome)
    requires
        post_outcome(o) is None,
    ensures
        o.len() <= 8,
        Post::initial().after(o).advanced(e).0 == Post::initial().after(o.push(e)),
        Post::initial().after(o).advanced(e).1 == match post_outcome(o.push(e)) {
            Some(result) => PostProgress::Finished(result),
            None => PostProgress::Issue(post_op(o.len() + 1int)),
        },
{
    lemma_running_state(o);
    lemma_after_push(Post::initial(), o, e);
    let q = o.push(e);
    assert(forall|j: int| 0 <= j < o.len() ==> #[trigger] q[j] == o[j]);
    assert(q[o.len() as int] == e);
}

} // verus!
