//! The dashboard's WebSocket wire protocol: parsing browser messages
//! (`stop`, `control:take`, or `drive:` followed by one or two `+`-joined
//! axis tokens `cw`/`ccw`/`up`/`down`) and framing position telemetry and
//! control state as compact JSON.
use vstd::prelude::*;
use vstd::string::StrSliceExecFns;
use vstd::string::StringExecFns;
use crate::drive::{
    AzimuthDirection, Command, DriveCommand, ElevationDirection, OUTPUT_MIN_ACTIVE_MS,
    OUTPUT_MIN_INACTIVE_MS,
};

verus! {

/// `core::fmt::Error`, the error type of `core::fmt::Result`.
#[verifier::external_type_specification]
#[verifier::external_body]
pub struct ExFmtError(core::fmt::Error);

/// WebSocket route used by the dashboard.
pub const WS_PATH: &'static str = "/ws";

/// WebSocket message used by a viewer to become the controller.
pub const TAKE_CONTROL_MESSAGE: &'static str = "control:take";

/// How often the firmware samples feedback and emits position telemetry.
pub const TELEMETRY_PERIOD_MS: u64 = 500;

/// How often the browser repeats a held drive state.
pub const COMMAND_REFRESH_MS: u64 = 150;

/// How long the firmware allows a movement command to live without refresh.
pub const COMMAND_TIMEOUT_MS: u64 = 750;

/// The browser's refresh beats the firmware lease, and neither actuator
/// minimum outlasts that lease, so a held control cannot expire before its
/// debounced output is even applied.
pub proof fn lemma_refresh_stays_inside_lease()
    ensures
        COMMAND_REFRESH_MS < COMMAND_TIMEOUT_MS,
        OUTPUT_MIN_ACTIVE_MS <= COMMAND_TIMEOUT_MS,
        OUTPUT_MIN_INACTIVE_MS <= COMMAND_TIMEOUT_MS,
{
}

/// The text of `control:take`.
pub open spec fn take_control_text() -> Seq<char> {
    seq!['c', 'o', 'n', 't', 'r', 'o', 'l', ':', 't', 'a', 'k', 'e']
}

/// The text of `stop`.
pub open spec fn stop_text() -> Seq<char> {
    seq!['s', 't', 'o', 'p']
}

/// The text of the `drive:` prefix.
pub open spec fn drive_prefix() -> Seq<char> {
    seq!['d', 'r', 'i', 'v', 'e', ':']
}

/// The browser token of an azimuth direction.
pub open spec fn azimuth_text(direction: AzimuthDirection) -> Seq<char> {
    match direction {
        AzimuthDirection::Clockwise => seq!['c', 'w'],
        AzimuthDirection::CounterClockwise => seq!['c', 'c', 'w'],
    }
}

/// The browser token of an elevation direction.
pub open spec fn elevation_text(direction: ElevationDirection) -> Seq<char> {
    match direction {
        ElevationDirection::Up => seq!['u', 'p'],
        ElevationDirection::Down => seq!['d', 'o', 'w', 'n'],
    }
}

/// The wire tokens are the dashboard's words: `cw` clockwise, `ccw`
/// counter-clockwise, `up` and `down`; no two directions share a token.
pub proof fn lemma_wire_tokens()
    ensures
        azimuth_text(AzimuthDirection::Clockwise) == "cw"@,
        azimuth_text(AzimuthDirection::CounterClockwise) == "ccw"@,
        elevation_text(ElevationDirection::Up) == "up"@,
        elevation_text(ElevationDirection::Down) == "down"@,
        azimuth_text(AzimuthDirection::Clockwise) != azimuth_text(
            AzimuthDirection::CounterClockwise,
        ),
        elevation_text(ElevationDirection::Up) != elevation_text(ElevationDirection::Down),
{
    reveal_strlit("cw");
    reveal_strlit("ccw");
    reveal_strlit("up");
    reveal_strlit("down");
    assert(azimuth_text(AzimuthDirection::Clockwise) =~= "cw"@);
    assert(azimuth_text(AzimuthDirection::CounterClockwise) =~= "ccw"@);
    assert(elevation_text(ElevationDirection::Up) =~= "up"@);
    assert(elevation_text(ElevationDirection::Down) =~= "down"@);
}

/// The azimuth direction a token names, if it names one.
pub open spec fn azimuth_of(token: Seq<char>) -> Option<AzimuthDirection> {
    if token == azimuth_text(AzimuthDirection::Clockwise) {
        Some(AzimuthDirection::Clockwise)
    } else if token == azimuth_text(AzimuthDirection::CounterClockwise) {
        Some(AzimuthDirection::CounterClockwise)
    } else {
        None
    }
}

/// The elevation direction a token names, if it names one.
pub open spec fn elevation_of(token: Seq<char>) -> Option<ElevationDirection> {
    if token == elevation_text(ElevationDirection::Up) {
        Some(ElevationDirection::Up)
    } else if token == elevation_text(ElevationDirection::Down) {
        Some(ElevationDirection::Down)
    } else {
        None
    }
}

/// The index of the first `+` in `text`, if there is one.
pub open spec fn first_plus(text: Seq<char>) -> Option<int>
    decreases text.len(),
{
    if text.len() == 0 {
        None
    } else if text[0] == '+' {
        Some(0)
    } else {
        match first_plus(text.drop_first()) {
            Some(i) => Some(i + 1),
            None => None,
        }
    }
}

/// Two `+`-joined tokens: one azimuth and one elevation token, in either
/// order.
pub open spec fn drive_pair(first: Seq<char>, second: Seq<char>) -> Option<Command> {
    if azimuth_of(first) is Some && elevation_of(second) is Some {
        Some(
            Command::Drive(
                DriveCommand { azimuth: azimuth_of(first), elevation: elevation_of(second) },
            ),
        )
    } else if elevation_of(first) is Some && azimuth_of(second) is Some {
        Some(
            Command::Drive(
                DriveCommand { azimuth: azimuth_of(second), elevation: elevation_of(first) },
            ),
        )
    } else {
        None
    }
}

/// The command named by the text after `drive:`: a single axis token, or an
/// azimuth and an elevation token joined by `+`; anything else (an empty
/// body, an unknown token, two tokens for one axis, three or more tokens) is
/// no command.
pub open spec fn drive_body(body: Seq<char>) -> Option<Command> {
    match first_plus(body) {
        None => if azimuth_of(body) is Some {
            Some(Command::Drive(DriveCommand { azimuth: azimuth_of(body), elevation: None }))
        } else if elevation_of(body) is Some {
            Some(Command::Drive(DriveCommand { azimuth: None, elevation: elevation_of(body) }))
        } else {
            None
        },
        Some(i) => drive_pair(body.take(i), body.skip(i + 1)),
    }
}

/// The command a dashboard text message encodes: `stop`, or `drive:` and a
/// drive body; nothing else is a command.
pub open spec fn spec_parse_command(message: Seq<char>) -> Option<Command> {
    if message == stop_text() {
        Some(Command::Stop)
    } else if message.len() >= 6 && message.take(6) == drive_prefix() {
        drive_body(message.skip(6))
    } else {
        None
    }
}

/// The text the dashboard sends to hold `drive` (see its `command()`):
/// `stop` when no axis moves, else `drive:` and the azimuth and/or elevation
/// tokens joined by `+`.
pub open spec fn command_text(drive: DriveCommand) -> Seq<char> {
    match (drive.azimuth, drive.elevation) {
        (None, None) => stop_text(),
        (Some(a), None) => drive_prefix() + azimuth_text(a),
        (None, Some(e)) => drive_prefix() + elevation_text(e),
        (Some(a), Some(e)) => drive_prefix() + azimuth_text(a) + seq!['+'] + elevation_text(e),
    }
}

/// Whether `s@[start..end]` is exactly `lit`.
pub(crate) fn range_is(s: &str, start: usize, end: usize, lit: &[char]) -> (r: bool)
    requires
        start <= end <= s@.len(),
    ensures
        r == (s@.subrange(start as int, end as int) == lit@),
{
    if end - start != lit.len() {
        return false;
    }
    let mut i: usize = 0;
    while i < lit.len()
        invariant
            start <= end <= s@.len(),
            end - start == lit@.len(),
            i <= lit@.len(),
            forall|j: int| 0 <= j < i ==> s@[start + j] == lit@[j],
        decreases lit@.len() - i,
    {
        if s.get_char(start + i) != lit[i] {
            assert(s@.subrange(start as int, end as int)[i as int] != lit@[i as int]);
            return false;
        }
        i += 1;
    }
    assert(s@.subrange(start as int, end as int) =~= lit@);
    true
}

/// The azimuth direction named by `s@[start..end]`.
fn azimuth_at(s: &str, start: usize, end: usize) -> (r: Option<AzimuthDirection>)
    requires
        start <= end <= s@.len(),
    ensures
        r == azimuth_of(s@.subrange(start as int, end as int)),
{
    if range_is(s, start, end, &['c', 'w']) {
        Some(AzimuthDirection::Clockwise)
    } else if range_is(s, start, end, &['c', 'c', 'w']) {
        Some(AzimuthDirection::CounterClockwise)
    } else {
        None
    }
}

/// The elevation direction named by `s@[start..end]`.
fn elevation_at(s: &str, start: usize, end: usize) -> (r: Option<ElevationDirection>)
    requires
        start <= end <= s@.len(),
    ensures
        r == elevation_of(s@.subrange(start as int, end as int)),
{
    if range_is(s, start, end, &['u', 'p']) {
        Some(ElevationDirection::Up)
    } else if range_is(s, start, end, &['d', 'o', 'w', 'n']) {
        Some(ElevationDirection::Down)
    } else {
        None
    }
}

proof fn lemma_first_plus(text: Seq<char>, i: int)
    requires
        0 <= i <= text.len(),
        forall|j: int| 0 <= j < i ==> text[j] != '+',
    ensures
        i < text.len() && text[i] == '+' ==> first_plus(text) == Some(i),
        i == text.len() ==> first_plus(text) is None,
    decreases i,
{
    if i > 0 {
        let rest = text.drop_first();
        assert forall|j: int| 0 <= j < i - 1 implies rest[j] != '+' by {
            assert(rest[j] == text[j + 1]);
        }
        lemma_first_plus(rest, i - 1);
    }
}

/// Parse a dashboard drive/stop text message into a [`Command`]: `stop`, or
/// `drive:` followed by one or two `+`-joined axis tokens with at most one
/// token per axis.
pub fn parse_command(message: &str) -> (r: Option<Command>)
    ensures
        r == spec_parse_command(message@),
{
    let n = message.unicode_len();
    if range_is(message, 0, n, &['s', 't', 'o', 'p']) {
        assert(message@.subrange(0, n as int) =~= message@);
        return Some(Command::Stop);
    }
    assert(message@.subrange(0, n as int) =~= message@);
    if n < 6 || !range_is(message, 0, 6, &['d', 'r', 'i', 'v', 'e', ':']) {
        return None;
    }
    let ghost body = message@.skip(6);
    let mut i: usize = 6;
    while i < n && message.get_char(i) != '+'
        invariant
            6 <= i <= n,
            n == message@.len(),
            body == message@.skip(6),
            forall|j: int| 0 <= j < i - 6 ==> body[j] != '+',
        decreases n - i,
    {
        i += 1;
    }
    proof {
        lemma_first_plus(body, i - 6);
    }
    if i == n {
        assert(message@.subrange(6, n as int) =~= body);
        if let Some(azimuth) = azimuth_at(message, 6, n) {
            return Some(Command::Drive(DriveCommand { azimuth: Some(azimuth), elevation: None }));
        }
        if let Some(elevation) = elevation_at(message, 6, n) {
            return Some(Command::Drive(DriveCommand { azimuth: None, elevation: Some(elevation) }));
        }
        return None;
    }
    assert(message@.subrange(6, i as int) =~= body.take(i - 6));
    assert(message@.subrange(i + 1, n as int) =~= body.skip(i - 6 + 1));
    let first_azimuth = azimuth_at(message, 6, i);
    let first_elevation = elevation_at(message, 6, i);
    let second_azimuth = azimuth_at(message, i + 1, n);
    let second_elevation = elevation_at(message, i + 1, n);
    if first_azimuth.is_some() && second_elevation.is_some() {
        Some(Command::Drive(DriveCommand { azimuth: first_azimuth, elevation: second_elevation }))
    } else if first_elevation.is_some() && second_azimuth.is_some() {
        Some(Command::Drive(DriveCommand { azimuth: second_azimuth, elevation: first_elevation }))
    } else {
        None
    }
}

/// The text the dashboard sends for a drive state parses back to exactly
/// that state: `stop` for the idle state, the drive itself otherwise.
pub proof fn lemma_dashboard_commands_parse_back(drive: DriveCommand)
    ensures
        spec_parse_command(command_text(drive)) == if drive.spec_is_active() {
            Some(Command::Drive(drive))
        } else {
            Some(Command::Stop)
        },
{
    let t = command_text(drive);
    match (drive.azimuth, drive.elevation) {
        (None, None) => {},
        (Some(a), None) => {
            assert(t.take(6) =~= drive_prefix());
            assert(t.skip(6) =~= azimuth_text(a));
            assert(t != stop_text()) by {
                assert(t.len() != 4);
            }
            lemma_first_plus(t.skip(6), t.skip(6).len() as int);
        },
        (None, Some(e)) => {
            assert(t.take(6) =~= drive_prefix());
            assert(t.skip(6) =~= elevation_text(e));
            assert(t != stop_text()) by {
                assert(t.len() != 4);
            }
            lemma_first_plus(t.skip(6), t.skip(6).len() as int);
            assert(azimuth_of(t.skip(6)) is None) by {
                assert(t.skip(6)[0] != 'c');
            }
        },
        (Some(a), Some(e)) => {
            let body = azimuth_text(a) + seq!['+'] + elevation_text(e);
            assert(t.take(6) =~= drive_prefix());
            assert(t.skip(6) =~= body);
            assert(t != stop_text()) by {
                assert(t.len() != 4);
            }
            let k = azimuth_text(a).len() as int;
            lemma_first_plus(body, k);
            assert(body.take(k) =~= azimuth_text(a));
            assert(body.skip(k + 1) =~= elevation_text(e));
        },
    }
}

/// A client-originated WebSocket message.
#[derive(Clone, Copy, Debug, PartialEq, Eq, Structural)]
pub enum ClientMessage {
    /// Request controller ownership for this connection.
    TakeControl,
    /// Drive-state command for the active controller.
    Command(Command),
}

/// The client message a text encodes, if any.
pub open spec fn spec_parse_client_message(message: Seq<char>) -> Option<ClientMessage> {
    if message == take_control_text() {
        Some(ClientMessage::TakeControl)
    } else {
        match spec_parse_command(message) {
            Some(command) => Some(ClientMessage::Command(command)),
            None => None,
        }
    }
}

impl ClientMessage {
    /// Parse a browser-originated WebSocket text message.
    pub fn parse(message: &str) -> (r: Option<Self>)
        ensures
            r == spec_parse_client_message(message@),
    {
        let n = message.unicode_len();
        assert(message@.subrange(0, n as int) =~= message@);
        if range_is(message, 0, n, &['c', 'o', 'n', 't', 'r', 'o', 'l', ':', 't', 'a', 'k', 'e']) {
            Some(Self::TakeControl)
        } else {
            match parse_command(message) {
                Some(command) => Some(Self::Command(command)),
                None => None,
            }
        }
    }
}

/// The `control:take` constant is the take-control message the parser knows.
pub proof fn lemma_take_control_constant_parses()
    ensures
        spec_parse_client_message(TAKE_CONTROL_MESSAGE@) == Some(ClientMessage::TakeControl),
{
    reveal_strlit("control:take");
    assert(TAKE_CONTROL_MESSAGE@ =~= take_control_text());
}

/// Browser token for an azimuth direction, or `None` when azimuth is idle.
pub(crate) fn azimuth_token(direction: Option<AzimuthDirection>) -> (t: Option<&'static str>)
    ensures
        match direction {
            Some(d) => t matches Some(s) && s@ == azimuth_text(d),
            None => t is None,
        },
{
    match direction {
        Some(AzimuthDirection::Clockwise) => {
            proof {
                reveal_strlit("cw");
            }
            Some("cw")
        },
        Some(AzimuthDirection::CounterClockwise) => {
            proof {
                reveal_strlit("ccw");
            }
            Some("ccw")
        },
        None => None,
    }
}

/// Browser token for an elevation direction, or `None` when elevation is idle.
pub(crate) fn elevation_token(direction: Option<ElevationDirection>) -> (t: Option<&'static str>)
    ensures
        match direction {
            Some(d) => t matches Some(s) && s@ == elevation_text(d),
            None => t is None,
        },
{
    match direction {
        Some(ElevationDirection::Up) => {
            proof {
                reveal_strlit("up");
            }
            Some("up")
        },
        Some(ElevationDirection::Down) => {
            proof {
                reveal_strlit("down");
            }
            Some("down")
        },
        None => None,
    }
}

/// The character of a decimal digit.
pub open spec fn digit_char(d: int) -> char {
    if d == 0 {
        '0'
    } else if d == 1 {
        '1'
    } else if d == 2 {
        '2'
    } else if d == 3 {
        '3'
    } else if d == 4 {
        '4'
    } else if d == 5 {
        '5'
    } else if d == 6 {
        '6'
    } else if d == 7 {
        '7'
    } else if d == 8 {
        '8'
    } else {
        '9'
    }
}

/// The decimal digits of `n`, most significant first, without leading zeros.
pub open spec fn decimal_digits(n: nat) -> Seq<char>
    decreases n,
{
    if n < 10 {
        seq![digit_char(n as int)]
    } else {
        decimal_digits(n / 10).push(digit_char((n % 10) as int))
    }
}

/// The decimal representation of `v`, with a leading `-` when negative.
pub open spec fn decimal(v: int) -> Seq<char> {
    if v < 0 {
        seq!['-'] + decimal_digits((-v) as nat)
    } else {
        decimal_digits(v as nat)
    }
}

/// The numeric value of a character read as an ASCII decimal digit.
pub open spec fn digit_value(c: char) -> int {
    (c as u32) as int - ('0' as u32) as int
}

/// Whether a character is an ASCII decimal digit.
pub open spec fn is_ascii_digit(c: char) -> bool {
    '0' <= c && c <= '9'
}

/// The number a string of decimal digits reads as, most significant first.
pub open spec fn digits_value(s: Seq<char>) -> int
    decreases s.len(),
{
    if s.len() == 0 {
        0
    } else {
        digits_value(s.drop_last()) * 10 + digit_value(s.last())
    }
}

/// The digit characters are the ASCII digits: the character of `d` is
/// `'0' + d`, so it reads back as `d`.
pub proof fn lemma_digit_char_is_ascii_digit(d: int)
    requires
        0 <= d < 10,
    ensures
        (digit_char(d) as u32) as int == ('0' as u32) as int + d,
        is_ascii_digit(digit_char(d)),
        digit_value(digit_char(d)) == d,
{
}

/// The decimal text of `n` is made of ASCII digits, has no leading zero,
/// and reads back as `n`.
pub proof fn lemma_decimal_digits_read_back(n: nat)
    ensures
        decimal_digits(n).len() >= 1,
        n >= 10 ==> decimal_digits(n).len() > 1,
        forall|i: int| 0 <= i < decimal_digits(n).len() ==> is_ascii_digit(#[trigger] decimal_digits(n)[i]),
        decimal_digits(n).len() > 1 ==> decimal_digits(n)[0] != '0',
        digits_value(decimal_digits(n)) == n,
    decreases n,
{
    if n < 10 {
        lemma_digit_char_is_ascii_digit(n as int);
        assert(seq![digit_char(n as int)].drop_last() =~= Seq::<char>::empty());
        assert(digits_value(Seq::<char>::empty()) == 0);
        assert(seq![digit_char(n as int)].last() == digit_char(n as int));
    } else {
        let q = n / 10;
        let r = n % 10;
        lemma_decimal_digits_read_back(q);
        lemma_digit_char_is_ascii_digit(r as int);
        let s = decimal_digits(n);
        assert(s == decimal_digits(q).push(digit_char(r as int)));
        assert(s.drop_last() =~= decimal_digits(q));
        assert(s.last() == digit_char(r as int));
        assert(q * 10 + r == n);
        assert(digits_value(s) == digits_value(decimal_digits(q)) * 10 + digit_value(
            digit_char(r as int),
        ));
        if q < 10 {
            lemma_digit_char_is_ascii_digit(q as int);
            assert(q >= 1);
            assert(decimal_digits(q)[0] == digit_char(q as int));
            assert((digit_char(q as int) as u32) != ('0' as u32));
        }
        assert forall|i: int| 0 <= i < s.len() implies is_ascii_digit(#[trigger] s[i]) by {
            if i < s.len() - 1 {
                assert(s[i] == decimal_digits(q)[i]);
            }
        }
        assert(s[0] == decimal_digits(q)[0]);
    }
}

/// The decimal text of any integer: a `-` before the digits exactly when it
/// is negative, and the digits read back as its magnitude; so the text
/// reads back as the integer itself.
pub proof fn lemma_decimal_reads_back(v: int)
    ensures
        v >= 0 ==> decimal(v) == decimal_digits(v as nat) && digits_value(decimal(v)) == v,
        v < 0 ==> decimal(v)[0] == '-' && decimal(v).skip(1) == decimal_digits((-v) as nat)
            && digits_value(decimal(v).skip(1)) == -v,
        forall|i: int|
            (v < 0 ==> 1 <= i) && 0 <= i < decimal(v).len() ==> is_ascii_digit(#[trigger] decimal(v)[i]),
{
    if v >= 0 {
        lemma_decimal_digits_read_back(v as nat);
    } else {
        let m = (-v) as nat;
        lemma_decimal_digits_read_back(m);
        assert(decimal(v).skip(1) =~= decimal_digits(m));
        assert forall|i: int| 1 <= i < decimal(v).len() implies is_ascii_digit(#[trigger] decimal(v)[i]) by {
            assert(decimal(v)[i] == decimal_digits(m)[i - 1]);
        }
    }
}

/// The integer a decimal text reads as: digits, optionally after a `-`.
pub open spec fn read_decimal(s: Seq<char>) -> int {
    if s.len() > 0 && s[0] == '-' {
        -digits_value(s.skip(1))
    } else {
        digits_value(s)
    }
}

/// Writing an integer in decimal and reading the text back gives the
/// integer.
pub proof fn lemma_decimal_round_trip(v: int)
    ensures
        read_decimal(decimal(v)) == v,
{
    lemma_decimal_reads_back(v);
    if v >= 0 {
        lemma_decimal_digits_read_back(v as nat);
        lemma_digit_char_is_ascii_digit(0);
        let d = decimal_digits(v as nat);
        assert(is_ascii_digit(d[0]));
        assert(d[0] != '-');
    }
}

/// The one-character string of a decimal digit.
fn digit_str(d: u64) -> (s: &'static str)
    requires
        d < 10,
    ensures
        s@ == seq![digit_char(d as int)],
{
    proof {
        reveal_strlit("0");
        reveal_strlit("1");
        reveal_strlit("2");
        reveal_strlit("3");
        reveal_strlit("4");
        reveal_strlit("5");
        reveal_strlit("6");
        reveal_strlit("7");
        reveal_strlit("8");
        reveal_strlit("9");
    }
    if d == 0 {
        "0"
    } else if d == 1 {
        "1"
    } else if d == 2 {
        "2"
    } else if d == 3 {
        "3"
    } else if d == 4 {
        "4"
    } else if d == 5 {
        "5"
    } else if d == 6 {
        "6"
    } else if d == 7 {
        "7"
    } else if d == 8 {
        "8"
    } else {
        "9"
    }
}

/// Append the decimal digits of `n`.
fn append_digits(out: &mut String, n: u64)
    ensures
        final(out)@ == old(out)@ + decimal_digits(n as nat),
    decreases n,
{
    if n >= 10 {
        append_digits(out, n / 10);
    }
    out.append(digit_str(n % 10));
    proof {
        if n >= 10 {
            assert(decimal_digits(n as nat) == decimal_digits((n / 10) as nat).push(
                digit_char((n % 10) as int),
            ));
        }
    }
    assert(final(out)@ =~= old(out)@ + decimal_digits(n as nat));
}

/// Append the decimal representation of `v`.
fn append_decimal(out: &mut String, v: i32)
    ensures
        final(out)@ == old(out)@ + decimal(v as int),
{
    if v < 0 {
        proof {
            reveal_strlit("-");
        }
        out.append("-");
        let magnitude: u64 = (-(v as i64)) as u64;
        append_digits(out, magnitude);
        assert(final(out)@ =~= old(out)@ + decimal(v as int));
    } else {
        append_digits(out, v as u64);
    }
}

/// Controller ownership and active drive state reported to each browser.
#[derive(Clone, Copy, Debug, PartialEq, Eq, Structural)]
pub struct ControlStatus {
    /// Whether the receiving connection currently owns control.
    pub controller: bool,
    /// Server-confirmed drive state.
    pub drive: DriveCommand,
}

/// A JSON string member value: the quoted token, or `null` when absent.
pub open spec fn json_token(token: Option<Seq<char>>) -> Seq<char> {
    match token {
        Some(t) => "\""@ + t + "\""@,
        None => "null"@,
    }
}

/// The compact JSON frame of a control status:
/// `{"type":"control","controller":<bool>,"azimuth":<token>,"elevation":<token>}`.
pub open spec fn control_json(status: ControlStatus) -> Seq<char> {
    "{\"type\":\"control\",\"controller\":"@ + (if status.controller {
        "true"@
    } else {
        "false"@
    }) + ",\"azimuth\":"@ + json_token(
        match status.drive.azimuth {
            Some(a) => Some(azimuth_text(a)),
            None => None,
        },
    ) + ",\"elevation\":"@ + json_token(
        match status.drive.elevation {
            Some(e) => Some(elevation_text(e)),
            None => None,
        },
    ) + "}"@
}

/// Append a JSON string member value: the quoted token, or `null`.
fn append_token(out: &mut String, value: Option<&str>)
    ensures
        final(out)@ == old(out)@ + json_token(
            match value {
                Some(v) => Some(v@),
                None => None,
            },
        ),
{
    match value {
        Some(value) => {
            out.append("\"");
            out.append(value);
            out.append("\"");
        },
        None => {
            out.append("null");
        },
    }
    assert(final(out)@ =~= old(out)@ + json_token(
        match value {
            Some(v) => Some(v@),
            None => None,
        },
    ));
}

impl ControlStatus {
    /// Write this status as a compact WebSocket JSON message.
    pub fn write_json(&self, out: &mut String) -> (r: core::fmt::Result)
        ensures
            r is Ok,
            final(out)@ == old(out)@ + control_json(*self),
    {
        out.append("{\"type\":\"control\",\"controller\":");
        if self.controller {
            out.append("true");
        } else {
            out.append("false");
        }
        out.append(",\"azimuth\":");
        append_token(out, azimuth_token(self.drive.azimuth));
        out.append(",\"elevation\":");
        append_token(out, elevation_token(self.drive.elevation));
        out.append("}");
        assert(final(out)@ =~= old(out)@ + control_json(*self));
        Ok(())
    }
}

/// Raw position feedback reported to the browser.
#[derive(Clone, Copy, Debug, PartialEq, Eq, Structural)]
pub struct PositionTelemetry {
    /// ADS1015 channel A0 in millivolts.
    pub a0_mv: i32,
    /// ADS1015 channel A1 in millivolts.
    pub a1_mv: i32,
}

/// The compact JSON frame of a telemetry sample:
/// `{"type":"position","a0_mv":<int>,"a1_mv":<int>}`.
pub open spec fn position_json(sample: PositionTelemetry) -> Seq<char> {
    "{\"type\":\"position\",\"a0_mv\":"@ + decimal(sample.a0_mv as int) + ",\"a1_mv\":"@
        + decimal(sample.a1_mv as int) + "}"@
}

/// The numbers in a telemetry frame are the samples: the frame is the
/// fixed text around the decimal of each sample, and each decimal reads back
/// as its sample.
pub proof fn lemma_position_frame_reads_back(sample: PositionTelemetry)
    ensures
        position_json(sample) == "{\"type\":\"position\",\"a0_mv\":"@ + decimal(sample.a0_mv as int)
            + ",\"a1_mv\":"@ + decimal(sample.a1_mv as int) + "}"@,
        read_decimal(decimal(sample.a0_mv as int)) == sample.a0_mv,
        read_decimal(decimal(sample.a1_mv as int)) == sample.a1_mv,
{
    lemma_decimal_round_trip(sample.a0_mv as int);
    lemma_decimal_round_trip(sample.a1_mv as int);
}

impl PositionTelemetry {
    /// A zeroed telemetry sample used before the first ADC read completes.
    pub fn zero() -> (z: Self)
        ensures
            z.a0_mv == 0,
            z.a1_mv == 0,
    {
        Self { a0_mv: 0, a1_mv: 0 }
    }

    /// Write this telemetry sample as a compact WebSocket JSON message.
    pub fn write_json(&self, out: &mut String) -> (r: core::fmt::Result)
        ensures
            r is Ok,
            final(out)@ == old(out)@ + position_json(*self),
    {
        out.append("{\"type\":\"position\",\"a0_mv\":");
        append_decimal(out, self.a0_mv);
        out.append(",\"a1_mv\":");
        append_decimal(out, self.a1_mv);
        out.append("}");
        assert(final(out)@ =~= old(out)@ + position_json(*self));
        Ok(())
    }
}

} // verus!
