//! ADS1015 register model: Config-register packing, conversion-result
//! decoding, and the power-on self-test predicates. Pure; the bus
//! transactions that use it live in the firmware shell.
use vstd::prelude::*;

verus! {

/// 7-bit I²C address of the ADS1015 with its ADDR pin tied to GND.
pub const I2C_ADDR: u8 = 0x48;

/// The four ADS1015 registers, selected by the pointer byte that opens every
/// I²C transaction.
#[derive(Clone, Copy, PartialEq, Eq, Debug, Structural)]
pub enum Register {
    /// Conversion result (read-only), left-justified 12-bit sample.
    Conversion,
    /// Configuration / control register.
    Config,
    /// Comparator low threshold; a scratch register for the link check.
    LoThresh,
    /// Comparator high threshold; a scratch register for the link check.
    HiThresh,
}

impl Register {
    /// The pointer byte of this register, as the datasheet numbers them.
    pub open spec fn spec_addr(self) -> u8 {
        match self {
            Register::Conversion => 0x00,
            Register::Config => 0x01,
            Register::LoThresh => 0x02,
            Register::HiThresh => 0x03,
        }
    }

    /// The pointer byte that selects this register.
    pub fn addr(self) -> (a: u8)
        ensures
            a == self.spec_addr(),
    {
        match self {
            Register::Conversion => 0x00,
            Register::Config => 0x01,
            Register::LoThresh => 0x02,
            Register::HiThresh => 0x03,
        }
    }
}

/// Programmable-gain-amplifier full-scale range (Config bits 11:9).
#[derive(Clone, Copy, PartialEq, Eq, Debug, Structural)]
pub enum FullScale {
    /// ±6.144 V
    V6_144,
    /// ±4.096 V
    V4_096,
    /// ±2.048 V, the setting used for the rotator feedback.
    V2_048,
    /// ±1.024 V
    V1_024,
    /// ±0.512 V
    V0_512,
    /// ±0.256 V
    V0_256,
}

impl FullScale {
    /// The 3-bit PGA selector of this range (datasheet table).
    pub open spec fn code(self) -> u16 {
        match self {
            FullScale::V6_144 => 0,
            FullScale::V4_096 => 1,
            FullScale::V2_048 => 2,
            FullScale::V1_024 => 3,
            FullScale::V0_512 => 4,
            FullScale::V0_256 => 5,
        }
    }

    /// Full-scale magnitude in millivolts (the voltage at +2048 codes).
    pub open spec fn spec_full_scale_mv(self) -> i32 {
        match self {
            FullScale::V6_144 => 6144,
            FullScale::V4_096 => 4096,
            FullScale::V2_048 => 2048,
            FullScale::V1_024 => 1024,
            FullScale::V0_512 => 512,
            FullScale::V0_256 => 256,
        }
    }

    /// The 3-bit PGA selector, already shifted into Config bits 11:9.
    pub fn bits(self) -> (b: u16)
        ensures
            b == self.code() * 512,
    {
        let field: u16 = match self {
            FullScale::V6_144 => 0,
            FullScale::V4_096 => 1,
            FullScale::V2_048 => 2,
            FullScale::V1_024 => 3,
            FullScale::V0_512 => 4,
            FullScale::V0_256 => 5,
        };
        field * 512
    }

    /// Full-scale magnitude in millivolts (the voltage at +2048 codes).
    pub fn full_scale_mv(self) -> (mv: i32)
        ensures
            mv == self.spec_full_scale_mv(),
    {
        match self {
            FullScale::V6_144 => 6144,
            FullScale::V4_096 => 4096,
            FullScale::V2_048 => 2048,
            FullScale::V1_024 => 1024,
            FullScale::V0_512 => 512,
            FullScale::V0_256 => 256,
        }
    }
}

/// Input-multiplexer selection (Config bits 14:12).
#[derive(Clone, Copy, PartialEq, Eq, Debug, Structural)]
pub enum Mux {
    /// AIN0 − AIN1 (differential), the power-on default.
    Diff0_1,
    /// AIN0 − AIN3 (differential).
    Diff0_3,
    /// AIN1 − AIN3 (differential).
    Diff1_3,
    /// AIN2 − AIN3 (differential).
    Diff2_3,
    /// AIN0 vs GND, one rotator feedback channel.
    Ain0,
    /// AIN1 vs GND, the other rotator feedback channel.
    Ain1,
    /// AIN2 vs GND (unused).
    Ain2,
    /// AIN3 vs GND (unused).
    Ain3,
}

impl Mux {
    /// The 3-bit MUX selector of this input (datasheet table).
    pub open spec fn code(self) -> u16 {
        match self {
            Mux::Diff0_1 => 0,
            Mux::Diff0_3 => 1,
            Mux::Diff1_3 => 2,
            Mux::Diff2_3 => 3,
            Mux::Ain0 => 4,
            Mux::Ain1 => 5,
            Mux::Ain2 => 6,
            Mux::Ain3 => 7,
        }
    }

    /// The 3-bit MUX selector, already shifted into Config bits 14:12.
    pub fn bits(self) -> (b: u16)
        ensures
            b == self.code() * 4096,
    {
        let field: u16 = match self {
            Mux::Diff0_1 => 0,
            Mux::Diff0_3 => 1,
            Mux::Diff1_3 => 2,
            Mux::Diff2_3 => 3,
            Mux::Ain0 => 4,
            Mux::Ain1 => 5,
            Mux::Ain2 => 6,
            Mux::Ain3 => 7,
        };
        field * 4096
    }
}

/// Conversion data rate in samples per second (Config bits 7:5).
#[derive(Clone, Copy, PartialEq, Eq, Debug, Structural)]
pub enum DataRate {
    /// 128 SPS
    Sps128,
    /// 250 SPS
    Sps250,
    /// 490 SPS
    Sps490,
    /// 920 SPS
    Sps920,
    /// 1600 SPS, the power-on default and the rate used here.
    Sps1600,
    /// 2400 SPS
    Sps2400,
    /// 3300 SPS
    Sps3300,
}

impl DataRate {
    /// The 3-bit data-rate selector of this rate (datasheet table).
    pub open spec fn code(self) -> u16 {
        match self {
            DataRate::Sps128 => 0,
            DataRate::Sps250 => 1,
            DataRate::Sps490 => 2,
            DataRate::Sps920 => 3,
            DataRate::Sps1600 => 4,
            DataRate::Sps2400 => 5,
            DataRate::Sps3300 => 6,
        }
    }

    /// The 3-bit data-rate selector, already shifted into Config bits 7:5.
    pub fn bits(self) -> (b: u16)
        ensures
            b == self.code() * 32,
    {
        let field: u16 = match self {
            DataRate::Sps128 => 0,
            DataRate::Sps250 => 1,
            DataRate::Sps490 => 2,
            DataRate::Sps920 => 3,
            DataRate::Sps1600 => 4,
            DataRate::Sps2400 => 5,
            DataRate::Sps3300 => 6,
        };
        field * 32
    }
}

/// Config bit 15 (OS): 1 starts a single-shot conversion on a write; on a
/// read it reports whether the device is idle.
pub const OS: u16 = 0x8000;

/// Config bit 8 (MODE) = 1 selects single-shot mode.
const MODE_SINGLE_SHOT: u16 = 0x0100;

/// Config bits 1:0 (COMP_QUE) = 0b11 disables the comparator.
const COMP_QUE_DISABLE: u16 = 0b11;

/// POST scratch pattern for the low-threshold register.
pub const SCRATCH_LO: u16 = 0x5AA5;

/// POST scratch pattern for the high-threshold register; the bitwise
/// complement of [`SCRATCH_LO`].
pub const SCRATCH_HI: u16 = 0xA55A;

/// The Config word that starts a single-shot conversion on `mux` at `fs` and
/// `dr`, with the comparator disabled: OS (bit 15), MUX (14:12), PGA (11:9),
/// MODE (8), DR (7:5) and COMP_QUE = 0b11.
pub open spec fn spec_config_single_shot(mux: Mux, fs: FullScale, dr: DataRate) -> int {
    0x8000 + mux.code() * 4096 + fs.code() * 512 + 0x100 + dr.code() * 32 + 3
}

/// Build the 16-bit Config value that starts a single-shot conversion on
/// `mux` at `fs` full-scale and `dr` data rate, with the comparator disabled.
pub fn config_single_shot(mux: Mux, fs: FullScale, dr: DataRate) -> (cfg: u16)
    ensures
        cfg == spec_config_single_shot(mux, fs, dr),
        (cfg / 4096) % 8 == mux.code(),
        (cfg / 512) % 8 == fs.code(),
        (cfg / 32) % 8 == dr.code(),
{
    let m = mux.bits();
    let f = fs.bits();
    let d = dr.bits();
    let mc: u16 = m / 4096;
    let fc: u16 = f / 512;
    let dc: u16 = d / 32;
    assert(m == mc << 12u16) by (bit_vector)
        requires
            m == mc * 4096,
            mc < 8,
    ;
    assert(f == fc << 9u16) by (bit_vector)
        requires
            f == fc * 512,
            fc < 8,
    ;
    assert(d == dc << 5u16) by (bit_vector)
        requires
            d == dc * 32,
            dc < 8,
    ;
    assert(OS | m | f | MODE_SINGLE_SHOT | d | COMP_QUE_DISABLE == 0x8000u16 + m + f + 0x100u16 + d
        + 3u16) by (bit_vector)
        requires
            m == mc << 12u16,
            f == fc << 9u16,
            d == dc << 5u16,
            mc < 8,
            fc < 8,
            dc < 8,
    ;
    OS | m | f | MODE_SINGLE_SHOT | d | COMP_QUE_DISABLE
}

/// Whether two Config words agree on every bit but the self-clearing OS bit.
pub open spec fn spec_config_matches(written: u16, read_back: u16) -> bool {
    written % 0x8000 == read_back % 0x8000
}

/// True if a Config read-back matches what was written, ignoring the
/// self-clearing [`OS`] bit.
pub fn config_matches(written: u16, read_back: u16) -> (m: bool)
    ensures
        m == spec_config_matches(written, read_back),
{
    assert((written & !OS) == written % 0x8000) by (bit_vector);
    assert((read_back & !OS) == read_back % 0x8000) by (bit_vector);
    (written & !OS) == (read_back & !OS)
}

/// The signed value of a 16-bit two's-complement word.
pub open spec fn signed16(raw: u16) -> int {
    if raw < 0x8000 {
        raw as int
    } else {
        raw as int - 0x10000
    }
}

/// Decode a raw 16-bit Conversion-register word into a signed 12-bit count:
/// the arithmetic (sign-extending) shift right by 4 of the left-justified
/// result, i.e. the floor of the signed word divided by 16.
pub fn decode_count(raw: u16) -> (count: i16)
    ensures
        count == signed16(raw) / 16,
        -2048 <= count < 2048,
{
    let q: u16 = raw / 16;
    if q < 2048 {
        q as i16
    } else {
        assert((raw as int - 0x10000) / 16 == q as int - 4096);
        (q as i32 - 4096) as i16
    }
}

/// Integer division rounding toward zero, as Rust's `/` does.
pub open spec fn div_toward_zero(a: int, b: int) -> int
    recommends
        b > 0,
{
    if a >= 0 {
        a / b
    } else {
        -((-a) / b)
    }
}

/// Convert a signed conversion count to millivolts at the given full-scale
/// range: `count * full_scale_mv / 2048`, rounded toward zero.
pub fn count_to_mv(count: i16, fs: FullScale) -> (mv: i32)
    ensures
        mv == div_toward_zero(count * fs.spec_full_scale_mv(), 2048),
{
    let scale = fs.full_scale_mv();
    assert(-32768 * 6144 <= count * scale <= 32767 * 6144) by (nonlinear_arith)
        requires
            -32768 <= count <= 32767,
            0 < scale <= 6144,
    ;
    let product: i32 = count as i32 * scale;
    if product >= 0 {
        product / 2048
    } else {
        let magnitude: i32 = -product;
        -(magnitude / 2048)
    }
}

/// A count of +2048 codes reads as exactly the full-scale voltage, and a
/// count of zero as zero millivolts, at every range.
pub proof fn lemma_full_scale_code_is_full_scale_voltage(fs: FullScale)
    ensures
        div_toward_zero(2048 * fs.spec_full_scale_mv(), 2048) == fs.spec_full_scale_mv(),
        div_toward_zero(0 * fs.spec_full_scale_mv(), 2048) == 0,
{
}

/// The pointer bytes are the datasheet's two-bit register addresses, in the
/// datasheet's order: Conversion 0x00, Config 0x01, Lo_thresh 0x02,
/// Hi_thresh 0x03. Distinct registers have distinct pointer bytes.
pub proof fn lemma_register_pointer_bytes(a: Register, b: Register)
    ensures
        a.spec_addr() < 4,
        Register::Conversion.spec_addr() < Register::Config.spec_addr(),
        Register::Config.spec_addr() < Register::LoThresh.spec_addr(),
        Register::LoThresh.spec_addr() < Register::HiThresh.spec_addr(),
        Register::Conversion.spec_addr() == 0x00,
        Register::Config.spec_addr() == 0x01,
        Register::LoThresh.spec_addr() == 0x02,
        Register::HiThresh.spec_addr() == 0x03,
        a.spec_addr() == b.spec_addr() ==> a == b,
{
}

impl Mux {
    /// The inputs this setting connects, as its name says: the positive
    /// input's AIN number, and the negative input's (`None` for GND).
    pub open spec fn inputs(self) -> (int, Option<int>) {
        match self {
            Mux::Diff0_1 => (0, Some(1)),
            Mux::Diff0_3 => (0, Some(3)),
            Mux::Diff1_3 => (1, Some(3)),
            Mux::Diff2_3 => (2, Some(3)),
            Mux::Ain0 => (0, None),
            Mux::Ain1 => (1, None),
            Mux::Ain2 => (2, None),
            Mux::Ain3 => (3, None),
        }
    }
}

/// What a MUX field of the Config register selects, per the datasheet: a
/// field `1xx` measures AIN`xx` against GND; `000`, `001`, `010` and `011`
/// measure AIN0−AIN1, AIN0−AIN3, AIN1−AIN3 and AIN2−AIN3.
pub open spec fn mux_field_inputs(field: int) -> (int, Option<int>) {
    if field >= 4 {
        (field - 4, None)
    } else if field == 0 {
        (0, Some(1))
    } else if field == 1 {
        (0, Some(3))
    } else if field == 2 {
        (1, Some(3))
    } else {
        (2, Some(3))
    }
}

/// The Config word measures the inputs the multiplexer setting is named
/// for: its MUX field (bits 14:12) selects exactly those inputs, the field
/// being the datasheet's (Diff0_1 0, Diff0_3 1, Diff1_3 2, Diff2_3 3, Ain0 4,
/// Ain1 5, Ain2 6, Ain3 7), and different settings get different fields.
pub proof fn lemma_mux_field_selects_named_inputs(
    mux: Mux,
    other: Mux,
    fs: FullScale,
    dr: DataRate,
)
    ensures
        0 <= mux.code() < 8,
        mux_field_inputs(mux.code() as int) == mux.inputs(),
        mux_field_inputs((spec_config_single_shot(mux, fs, dr) / 4096) % 8) == mux.inputs(),
        mux.inputs().1 is None ==> mux.code() == 4 + mux.inputs().0,
        mux.code() == other.code() ==> mux == other,
{
    lemma_config_fields(mux, fs, dr);
}

/// What a PGA field of the Config register selects, per the datasheet, in
/// millivolts: `000` is ±6.144 V, `001` ±4.096 V, and each further step
/// halves the range down to ±0.256 V, which `101` and above keep.
pub open spec fn pga_field_range_mv(field: int) -> int
    decreases field,
{
    if field <= 0 {
        6144
    } else if field == 1 {
        4096
    } else if field >= 5 {
        256
    } else {
        pga_field_range_mv(field - 1) / 2
    }
}

/// The Config word selects the range the conversion is scaled by: its PGA
/// field (bits 11:9) selects exactly the full-scale voltage of the range, so
/// a larger field is a smaller range, and different ranges get different
/// fields.
pub proof fn lemma_pga_field_selects_full_scale(
    fs: FullScale,
    other: FullScale,
    mux: Mux,
    dr: DataRate,
)
    ensures
        0 <= fs.code() < 6,
        pga_field_range_mv(fs.code() as int) == fs.spec_full_scale_mv(),
        pga_field_range_mv((spec_config_single_shot(mux, fs, dr) / 512) % 8)
            == fs.spec_full_scale_mv(),
        fs.code() < other.code() <==> fs.spec_full_scale_mv() > other.spec_full_scale_mv(),
        fs.code() == other.code() ==> fs == other,
{
    reveal_with_fuel(pga_field_range_mv, 5);
    lemma_config_fields(mux, fs, dr);
}

impl DataRate {
    /// The conversion rate this setting is named for, in samples per
    /// second.
    pub open spec fn samples_per_second(self) -> int {
        match self {
            DataRate::Sps128 => 128,
            DataRate::Sps250 => 250,
            DataRate::Sps490 => 490,
            DataRate::Sps920 => 920,
            DataRate::Sps1600 => 1600,
            DataRate::Sps2400 => 2400,
            DataRate::Sps3300 => 3300,
        }
    }
}

/// The DR field (bits 7:5) orders the rates as the datasheet does: a larger
/// field is a faster rate, from 128 SPS at `000` to 3300 SPS at `110`.
pub proof fn lemma_dr_field_orders_rates(dr: DataRate, other: DataRate)
    ensures
        0 <= dr.code() < 7,
        dr.code() < other.code() <==> dr.samples_per_second() < other.samples_per_second(),
        dr.code() == 0 <==> dr.samples_per_second() == 128,
        dr.code() == 6 <==> dr.samples_per_second() == 3300,
{
}

/// The field values of a Config word: MUX in bits 14:12, PGA in 11:9, DR
/// in 7:5.
proof fn lemma_config_fields(mux: Mux, fs: FullScale, dr: DataRate)
    ensures
        (spec_config_single_shot(mux, fs, dr) / 4096) % 8 == mux.code(),
        (spec_config_single_shot(mux, fs, dr) / 512) % 8 == fs.code(),
        (spec_config_single_shot(mux, fs, dr) / 32) % 8 == dr.code(),
{
    let m = mux.code() as int;
    let f = fs.code() as int;
    let d = dr.code() as int;
    assert(0 <= m < 8 && 0 <= f < 8 && 0 <= d < 8);
    let c = spec_config_single_shot(mux, fs, dr);
    assert(c == 0x8000 + m * 4096 + f * 512 + 0x100 + d * 32 + 3);
    assert((0x8000 + m * 4096 + f * 512 + 0x100 + d * 32 + 3) / 4096 == 8 + m) by (nonlinear_arith)
        requires
            0 <= m < 8,
            0 <= f < 8,
            0 <= d < 8,
    ;
    assert((0x8000 + m * 4096 + f * 512 + 0x100 + d * 32 + 3) / 512 == 64 + 8 * m + f) by (
    nonlinear_arith)
        requires
            0 <= m < 8,
            0 <= f < 8,
            0 <= d < 8,
    ;
    assert((0x8000 + m * 4096 + f * 512 + 0x100 + d * 32 + 3) / 32 == 1024 + 128 * m + 16 * f + 8
        + d) by (nonlinear_arith)
        requires
            0 <= m < 8,
            0 <= f < 8,
            0 <= d < 8,
    ;
}

} // verus!
