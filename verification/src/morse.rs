//! International Morse Code encoder.
//!
//! Turns text such as `"HELLO WORLD"` into a stream of [`Pulse`]s, each an
//! on or off period measured in dit units: a dot is 1 unit on, a dash 3 units
//! on, the gap inside a letter 1 unit off, between letters 3 units off and
//! between words 7 units off. Letters are case-insensitive, whitespace is a
//! word gap, unknown characters are skipped, and the stream never starts or
//! ends with an off pulse.
use vstd::prelude::*;
use vstd::string::StrSliceExecFns;

verus! {

/// Duration of a [`Pulse`] in dit units.
pub type Units = u8;

/// A single on-or-off pulse of given duration, in Morse units.
#[derive(Debug, Clone, Copy, PartialEq, Eq, Structural)]
pub struct Pulse {
    /// Whether the key is down (the LED is on) for this pulse.
    pub on: bool,
    /// Length of the pulse in dit units.
    pub units: Units,
}

/// A dot in a [`pattern`].
pub const DOT: bool = false;

/// A dash in a [`pattern`].
pub const DASH: bool = true;

/// The ASCII upper-case form of `c`; every other character is unchanged.
pub open spec fn ascii_upper(c: char) -> char {
    if 'a' <= c && c <= 'z' {
        ((c as u32) - 32) as char
    } else {
        c
    }
}

/// Whether `c` has the Unicode `White_Space` property.
pub open spec fn spec_is_whitespace(c: char) -> bool {
    let u = c as u32;
    ||| 0x09 <= u <= 0x0D
    ||| u == 0x20
    ||| u == 0x85
    ||| u == 0xA0
    ||| u == 0x1680
    ||| 0x2000 <= u <= 0x200A
    ||| u == 0x2028
    ||| u == 0x2029
    ||| u == 0x202F
    ||| u == 0x205F
    ||| u == 0x3000
}

/// The dot (`false`) / dash (`true`) pattern of the International Morse
/// character `c`, upper-case and lower-case letters alike; `None` for a
/// character outside the table.
pub open spec fn spec_pattern(c: char) -> Option<Seq<bool>> {
    let u = ascii_upper(c);
    if u == 'A' {
        Some(seq![DOT, DASH])
    } else if u == 'B' {
        Some(seq![DASH, DOT, DOT, DOT])
    } else if u == 'C' {
        Some(seq![DASH, DOT, DASH, DOT])
    } else if u == 'D' {
        Some(seq![DASH, DOT, DOT])
    } else if u == 'E' {
        Some(seq![DOT])
    } else if u == 'F' {
        Some(seq![DOT, DOT, DASH, DOT])
    } else if u == 'G' {
        Some(seq![DASH, DASH, DOT])
    } else if u == 'H' {
        Some(seq![DOT, DOT, DOT, DOT])
    } else if u == 'I' {
        Some(seq![DOT, DOT])
    } else if u == 'J' {
        Some(seq![DOT, DASH, DASH, DASH])
    } else if u == 'K' {
        Some(seq![DASH, DOT, DASH])
    } else if u == 'L' {
        Some(seq![DOT, DASH, DOT, DOT])
    } else if u == 'M' {
        Some(seq![DASH, DASH])
    } else if u == 'N' {
        Some(seq![DASH, DOT])
    } else if u == 'O' {
        Some(seq![DASH, DASH, DASH])
    } else if u == 'P' {
        Some(seq![DOT, DASH, DASH, DOT])
    } else if u == 'Q' {
        Some(seq![DASH, DASH, DOT, DASH])
    } else if u == 'R' {
        Some(seq![DOT, DASH, DOT])
    } else if u == 'S' {
        Some(seq![DOT, DOT, DOT])
    } else if u == 'T' {
        Some(seq![DASH])
    } else if u == 'U' {
        Some(seq![DOT, DOT, DASH])
    } else if u == 'V' {
        Some(seq![DOT, DOT, DOT, DASH])
    } else if u == 'W' {
        Some(seq![DOT, DASH, DASH])
    } else if u == 'X' {
        Some(seq![DASH, DOT, DOT, DASH])
    } else if u == 'Y' {
        Some(seq![DASH, DOT, DASH, DASH])
    } else if u == 'Z' {
        Some(seq![DASH, DASH, DOT, DOT])
    } else if u == '0' {
        Some(seq![DASH, DASH, DASH, DASH, DASH])
    } else if u == '1' {
        Some(seq![DOT, DASH, DASH, DASH, DASH])
    } else if u == '2' {
        Some(seq![DOT, DOT, DASH, DASH, DASH])
    } else if u == '3' {
        Some(seq![DOT, DOT, DOT, DASH, DASH])
    } else if u == '4' {
        Some(seq![DOT, DOT, DOT, DOT, DASH])
    } else if u == '5' {
        Some(seq![DOT, DOT, DOT, DOT, DOT])
    } else if u == '6' {
        Some(seq![DASH, DOT, DOT, DOT, DOT])
    } else if u == '7' {
        Some(seq![DASH, DASH, DOT, DOT, DOT])
    } else if u == '8' {
        Some(seq![DASH, DASH, DASH, DOT, DOT])
    } else if u == '9' {
        Some(seq![DASH, DASH, DASH, DASH, DOT])
    } else if u == '.' {
        Some(seq![DOT, DASH, DOT, DASH, DOT, DASH])
    } else if u == ',' {
        Some(seq![DASH, DASH, DOT, DOT, DASH, DASH])
    } else if u == '?' {
        Some(seq![DOT, DOT, DASH, DASH, DOT, DOT])
    } else if u == '/' {
        Some(seq![DASH, DOT, DOT, DASH, DOT])
    } else {
        None
    }
}

/// An on pulse of `units`.
pub open spec fn on(units: Units) -> Pulse {
    Pulse { on: true, units }
}

/// An off pulse of `units`.
pub open spec fn off(units: Units) -> Pulse {
    Pulse { on: false, units }
}

/// The pulses of the dots and dashes of `pattern` from index `idx` on: each
/// symbol on for 1 (dot) or 3 (dash) units, consecutive symbols separated by
/// a 1-unit gap.
pub open spec fn symbols_from(pattern: Seq<bool>, idx: int) -> Seq<Pulse>
    decreases pattern.len() - idx,
{
    if idx < 0 || idx >= pattern.len() {
        Seq::empty()
    } else {
        seq![on(if pattern[idx] { 3 } else { 1 })] + (if idx + 1 < pattern.len() {
            seq![off(1)]
        } else {
            Seq::empty()
        }) + symbols_from(pattern, idx + 1)
    }
}

/// The pulses that encode `text`, given whether anything has been keyed yet
/// (`started`) and whether whitespace has been seen since the last letter
/// (`word_break`). A letter after earlier output is preceded by a 3-unit gap,
/// or a 7-unit gap when whitespace came between; whitespace before the first
/// letter and after the last one produces nothing; unknown characters are
/// skipped.
pub open spec fn encode_from(text: Seq<char>, started: bool, word_break: bool) -> Seq<Pulse>
    decreases text.len(),
{
    if text.len() == 0 {
        Seq::empty()
    } else if spec_is_whitespace(text[0]) {
        encode_from(text.drop_first(), started, word_break || started)
    } else {
        match spec_pattern(text[0]) {
            None => encode_from(text.drop_first(), started, word_break),
            Some(pattern) => (if started {
                seq![off(if word_break { 7 } else { 3 })]
            } else {
                Seq::empty()
            }) + symbols_from(pattern, 0) + encode_from(text.drop_first(), true, false),
        }
    }
}

/// The full Morse pulse sequence for `text`.
pub open spec fn encode(text: Seq<char>) -> Seq<Pulse> {
    encode_from(text, false, false)
}

/// ASCII upper-casing of a character.
fn to_ascii_upper(c: char) -> (u: char)
    ensures
        u == ascii_upper(c),
{
    if 'a' <= c && c <= 'z' {
        let b: u8 = c as u8;
        (b - 32) as char
    } else {
        c
    }
}

/// Whether `c` has the Unicode `White_Space` property.
pub fn is_whitespace(c: char) -> (w: bool)
    ensures
        w == spec_is_whitespace(c),
{
    let u: u32 = c as u32;
    (0x09 <= u && u <= 0x0D) || u == 0x20 || u == 0x85 || u == 0xA0 || u == 0x1680 || (0x2000
        <= u && u <= 0x200A) || u == 0x2028 || u == 0x2029 || u == 0x202F || u == 0x205F || u
        == 0x3000
}

/// Dot/dash pattern for a single character (`false` = dot, `true` = dash),
/// or `None` if the character has no Morse code here. Letters of either case,
/// digits and `. , ? /` are supported.
pub fn pattern(c: char) -> (p: Option<&'static [bool]>)
    ensures
        p matches Some(s) ==> spec_pattern(c) == Some(s@),
        p is None <==> spec_pattern(c) is None,
{
    let u = to_ascii_upper(c);
    let p: &'static [bool] = if u == 'A' {
        &[DOT, DASH]
    } else if u == 'B' {
        &[DASH, DOT, DOT, DOT]
    } else if u == 'C' {
        &[DASH, DOT, DASH, DOT]
    } else if u == 'D' {
        &[DASH, DOT, DOT]
    } else if u == 'E' {
        &[DOT]
    } else if u == 'F' {
        &[DOT, DOT, DASH, DOT]
    } else if u == 'G' {
        &[DASH, DASH, DOT]
    } else if u == 'H' {
        &[DOT, DOT, DOT, DOT]
    } else if u == 'I' {
        &[DOT, DOT]
    } else if u == 'J' {
        &[DOT, DASH, DASH, DASH]
    } else if u == 'K' {
        &[DASH, DOT, DASH]
    } else if u == 'L' {
        &[DOT, DASH, DOT, DOT]
    } else if u == 'M' {
        &[DASH, DASH]
    } else if u == 'N' {
        &[DASH, DOT]
    } else if u == 'O' {
        &[DASH, DASH, DASH]
    } else if u == 'P' {
        &[DOT, DASH, DASH, DOT]
    } else if u == 'Q' {
        &[DASH, DASH, DOT, DASH]
    } else if u == 'R' {
        &[DOT, DASH, DOT]
    } else if u == 'S' {
        &[DOT, DOT, DOT]
    } else if u == 'T' {
        &[DASH]
    } else if u == 'U' {
        &[DOT, DOT, DASH]
    } else if u == 'V' {
        &[DOT, DOT, DOT, DASH]
    } else if u == 'W' {
        &[DOT, DASH, DASH]
    } else if u == 'X' {
        &[DASH, DOT, DOT, DASH]
    } else if u == 'Y' {
        &[DASH, DOT, DASH, DASH]
    } else if u == 'Z' {
        &[DASH, DASH, DOT, DOT]
    } else if u == '0' {
        &[DASH, DASH, DASH, DASH, DASH]
    } else if u == '1' {
        &[DOT, DASH, DASH, DASH, DASH]
    } else if u == '2' {
        &[DOT, DOT, DASH, DASH, DASH]
    } else if u == '3' {
        &[DOT, DOT, DOT, DASH, DASH]
    } else if u == '4' {
        &[DOT, DOT, DOT, DOT, DASH]
    } else if u == '5' {
        &[DOT, DOT, DOT, DOT, DOT]
    } else if u == '6' {
        &[DASH, DOT, DOT, DOT, DOT]
    } else if u == '7' {
        &[DASH, DASH, DOT, DOT, DOT]
    } else if u == '8' {
        &[DASH, DASH, DASH, DOT, DOT]
    } else if u == '9' {
        &[DASH, DASH, DASH, DASH, DOT]
    } else if u == '.' {
        &[DOT, DASH, DOT, DASH, DOT, DASH]
    } else if u == ',' {
        &[DASH, DASH, DOT, DOT, DASH, DASH]
    } else if u == '?' {
        &[DOT, DOT, DASH, DASH, DOT, DOT]
    } else if u == '/' {
        &[DASH, DOT, DOT, DASH, DOT]
    } else {
        return None;
    };
    Some(p)
}

/// The off pulse a queued gap stands for, if any.
pub open spec fn gap_pulses(gap: Option<Units>) -> Seq<Pulse> {
    match gap {
        Some(units) => seq![off(units)],
        None => Seq::empty(),
    }
}

/// Create a [`Pulses`] iterator that walks `text` and produces its Morse
/// timing sequence, [`encode`]`(text)`.
pub fn pulses(text: &str) -> (p: Pulses<'_>)
    ensures
        p.remaining() == encode(text@),
{
    let empty: &'static [bool] = &[];
    let p = Pulses {
        text,
        len: text.unicode_len(),
        pos: 0,
        pattern: empty,
        idx: 0,
        pending_gap: None,
        has_started: false,
        word_break_pending: false,
    };
    assert(text@.skip(0) =~= text@);
    p
}

/// Iterator over the Morse pulses that encode some text; construct it with
/// [`pulses`]. It borrows the text and does not allocate.
#[derive(Debug)]
pub struct Pulses<'a> {
    /// Source text.
    text: &'a str,
    /// Number of characters in `text`.
    len: usize,
    /// Index of the next character of `text` to read.
    pos: usize,
    /// Dot/dash pattern of the letter being emitted, or empty between letters.
    pattern: &'static [bool],
    /// Index of the next dot/dash to emit within `pattern`.
    idx: usize,
    /// An off pulse of this many units is emitted on the next call.
    pending_gap: Option<Units>,
    /// At least one on pulse has been emitted.
    has_started: bool,
    /// Whitespace has been seen since the last emitted letter.
    word_break_pending: bool,
}

impl<'a> Clone for Pulses<'a> {
    /// An iterator at the same position, which produces the same pulses.
    fn clone(&self) -> (c: Self)
        ensures
            c.remaining() == self.remaining(),
    {
        proof {
            use_type_invariant(self);
        }
        Pulses {
            text: self.text,
            len: self.len,
            pos: self.pos,
            pattern: self.pattern,
            idx: self.idx,
            pending_gap: self.pending_gap,
            has_started: self.has_started,
            word_break_pending: self.word_break_pending,
        }
    }
}

impl<'a> Pulses<'a> {
    /// The iterator's internal consistency.
    #[verifier::type_invariant]
    spec fn wf(self) -> bool {
        &&& self.len == self.text@.len()
        &&& self.pos <= self.len
        &&& self.idx <= self.pattern@.len()
    }

    /// The pulses this iterator has still to produce, in order.
    pub closed spec fn remaining(self) -> Seq<Pulse> {
        gap_pulses(self.pending_gap) + symbols_from(self.pattern@, self.idx as int) + encode_from(
            self.text@.skip(self.pos as int),
            self.has_started || self.idx < self.pattern@.len(),
            self.word_break_pending,
        )
    }

    /// The next pulse: the first of [`Pulses::remaining`], which loses it;
    /// `None` once nothing remains.
    pub fn next(&mut self) -> (p: Option<Pulse>)
        ensures
            old(self).remaining().len() == 0 ==> p is None && final(self).remaining().len() == 0,
            old(self).remaining().len() > 0 ==> p == Some(old(self).remaining()[0])
                && final(self).remaining() == old(self).remaining().drop_first(),
    {
        proof {
            use_type_invariant(&*self);
        }
        loop
            invariant
                self.wf(),
                self.remaining() == old(self).remaining(),
            decreases self.len - self.pos,
        {
            if let Some(units) = self.pending_gap {
                self.pending_gap = None;
                assert(self.remaining() =~= old(self).remaining().drop_first());
                return Some(Pulse { on: false, units });
            }
            if self.idx < self.pattern.len() {
                let dash = self.pattern[self.idx];
                let ghost before = *self;
                self.idx += 1;
                if self.idx < self.pattern.len() {
                    self.pending_gap = Some(1);
                }
                self.has_started = true;
                let pulse = Pulse { on: true, units: if dash { 3 } else { 1 } };
                assert(symbols_from(before.pattern@, before.idx as int) == seq![pulse]
                    + gap_pulses(self.pending_gap) + symbols_from(self.pattern@, self.idx as int));
                assert(self.remaining() =~= old(self).remaining().drop_first());
                return Some(pulse);
            }
            if self.pos >= self.len {
                assert(self.text@.skip(self.pos as int) =~= Seq::<char>::empty());
                return None;
            }
            let ghost rest_before = self.text@.skip(self.pos as int);
            let c = self.text.get_char(self.pos);
            self.pos += 1;
            assert(rest_before[0] == c);
            assert(rest_before.drop_first() =~= self.text@.skip(self.pos as int));
            if is_whitespace(c) {
                if self.has_started {
                    self.word_break_pending = true;
                }
            } else {
                match pattern(c) {
                    None => {},
                    Some(pat) => {
                        let ghost gap_before = self.word_break_pending;
                        self.idx = 0;
                        self.pattern = pat;
                        if self.has_started {
                            self.pending_gap = Some(
                                if self.word_break_pending {
                                    7
                                } else {
                                    3
                                },
                            );
                        }
                        self.word_break_pending = false;
                    },
                }
            }
        }
    }

    /// Drain the iterator: every remaining pulse, in order.
    pub fn collect_remaining(&mut self) -> (all: Vec<Pulse>)
        ensures
            all@ == old(self).remaining(),
            final(self).remaining().len() == 0,
    {
        let mut all: Vec<Pulse> = Vec::new();
        loop
            invariant
                all@ + self.remaining() == old(self).remaining(),
            decreases self.remaining().len(),
        {
            match self.next() {
                Some(p) => {
                    all.push(p);
                },
                None => {
                    assert(all@ =~= old(self).remaining());
                    return all;
                },
            }
        }
    }
}

/// Consecutive pulses differ in `on`.
pub open spec fn alternates(pulses: Seq<Pulse>) -> bool {
    forall|i: int| 0 <= i < pulses.len() - 1 ==> #[trigger] pulses[i].on != pulses[i + 1].on
}

/// Every on pulse lasts 1 or 3 units and every off pulse 1, 3 or 7 units.
pub open spec fn timing_units(pulses: Seq<Pulse>) -> bool {
    forall|i: int|
        0 <= i < pulses.len() ==> if #[trigger] pulses[i].on {
            pulses[i].units == 1 || pulses[i].units == 3
        } else {
            pulses[i].units == 1 || pulses[i].units == 3 || pulses[i].units == 7
        }
}

/// The (`started`, `word_break`) flags of [`encode_from`] after reading `text`.
pub open spec fn flags_after(text: Seq<char>, started: bool, word_break: bool) -> (bool, bool)
    decreases text.len(),
{
    if text.len() == 0 {
        (started, word_break)
    } else if spec_is_whitespace(text[0]) {
        flags_after(text.drop_first(), started, word_break || started)
    } else {
        match spec_pattern(text[0]) {
            None => flags_after(text.drop_first(), started, word_break),
            Some(_) => flags_after(text.drop_first(), true, false),
        }
    }
}

proof fn lemma_alternates_concat(a: Seq<Pulse>, b: Seq<Pulse>)
    requires
        alternates(a),
        alternates(b),
        a.len() > 0 && b.len() > 0 ==> a.last().on != b[0].on,
        timing_units(a),
        timing_units(b),
    ensures
        alternates(a + b),
        timing_units(a + b),
{
    assert forall|i: int| 0 <= i < (a + b).len() - 1 implies #[trigger] (a + b)[i].on != (a
        + b)[i + 1].on by {
        if i + 1 < a.len() {
            assert(a[i].on != a[i + 1].on);
        } else if i >= a.len() {
            assert(b[i - a.len()].on != b[i - a.len() + 1].on);
        }
    }
    assert forall|i: int| 0 <= i < (a + b).len() implies if #[trigger] (a + b)[i].on {
        (a + b)[i].units == 1 || (a + b)[i].units == 3
    } else {
        (a + b)[i].units == 1 || (a + b)[i].units == 3 || (a + b)[i].units == 7
    } by {
        if i < a.len() {
            assert((a + b)[i] == a[i]);
        } else {
            assert((a + b)[i] == b[i - a.len()]);
        }
    }
}

proof fn lemma_symbols_shape(pattern: Seq<bool>, idx: int)
    requires
        0 <= idx < pattern.len(),
    ensures
        symbols_from(pattern, idx).len() > 0,
        symbols_from(pattern, idx)[0].on,
        symbols_from(pattern, idx).last().on,
        alternates(symbols_from(pattern, idx)),
        timing_units(symbols_from(pattern, idx)),
    decreases pattern.len() - idx,
{
    let head = seq![on(if pattern[idx] { 3 } else { 1 })];
    if idx + 1 < pattern.len() {
        lemma_symbols_shape(pattern, idx + 1);
        let tail = symbols_from(pattern, idx + 1);
        lemma_alternates_concat(seq![off(1)], tail);
        lemma_alternates_concat(head, seq![off(1)] + tail);
        assert(symbols_from(pattern, idx) =~= head + (seq![off(1)] + tail));
    } else {
        assert(symbols_from(pattern, idx + 1) =~= Seq::<Pulse>::empty());
        assert(symbols_from(pattern, idx) =~= head);
    }
}

proof fn lemma_encode_shape(text: Seq<char>, started: bool, word_break: bool)
    ensures
        alternates(encode_from(text, started, word_break)),
        timing_units(encode_from(text, started, word_break)),
        encode_from(text, started, word_break).len() > 0 ==> encode_from(
            text,
            started,
            word_break,
        ).last().on,
        encode_from(text, started, word_break).len() > 0 ==> encode_from(
            text,
            started,
            word_break,
        )[0].on == !started,
    decreases text.len(),
{
    if text.len() > 0 {
        let rest = text.drop_first();
        if spec_is_whitespace(text[0]) {
            lemma_encode_shape(rest, started, word_break || started);
        } else {
            match spec_pattern(text[0]) {
                None => lemma_encode_shape(rest, started, word_break),
                Some(pattern) => {
                    lemma_encode_shape(rest, true, false);
                    assert(pattern.len() > 0);
                    lemma_symbols_shape(pattern, 0);
                    let gap = if started {
                        seq![off(if word_break { 7 } else { 3 })]
                    } else {
                        Seq::empty()
                    };
                    let sym = symbols_from(pattern, 0);
                    let tail = encode_from(rest, true, false);
                    lemma_alternates_concat(sym, tail);
                    lemma_alternates_concat(gap, sym + tail);
                    assert(encode_from(text, started, word_break) =~= gap + (sym + tail));
                    assert((sym + tail).last() == if tail.len() > 0 {
                        tail.last()
                    } else {
                        sym.last()
                    });
                    assert((gap + (sym + tail))[0] == if started {
                        gap[0]
                    } else {
                        sym[0]
                    });
                },
            }
        }
    }
}

/// Encoding the concatenation of two texts is encoding the first, then the
/// second from where the first left off.
pub proof fn lemma_encode_concat(a: Seq<char>, b: Seq<char>, started: bool, word_break: bool)
    ensures
        encode_from(a + b, started, word_break) == encode_from(a, started, word_break)
            + encode_from(b, flags_after(a, started, word_break).0, flags_after(a, started, word_break).1),
    decreases a.len(),
{
    if a.len() == 0 {
        assert(a + b =~= b);
        assert(encode_from(a, started, word_break) =~= Seq::<Pulse>::empty());
        assert(encode_from(a + b, started, word_break) =~= encode_from(a, started, word_break)
            + encode_from(b, started, word_break));
    } else {
        assert((a + b)[0] == a[0]);
        assert((a + b).drop_first() =~= a.drop_first() + b);
        let rest = a.drop_first();
        if spec_is_whitespace(a[0]) {
            lemma_encode_concat(rest, b, started, word_break || started);
        } else {
            match spec_pattern(a[0]) {
                None => lemma_encode_concat(rest, b, started, word_break),
                Some(pattern) => {
                    lemma_encode_concat(rest, b, true, false);
                    let (s2, k2) = flags_after(a, started, word_break);
                    assert(encode_from(a + b, started, word_break) =~= encode_from(
                        a,
                        started,
                        word_break,
                    ) + encode_from(b, s2, k2));
                },
            }
        }
    }
}

/// The Morse output never has two consecutive pulses with the same key state,
/// starts and ends with key-down when it is not empty, and uses only the
/// standard element lengths (on: 1 or 3 units; off: 1, 3 or 7 units).
pub proof fn lemma_encoding_shape(text: Seq<char>)
    ensures
        alternates(encode(text)),
        timing_units(encode(text)),
        encode(text).len() > 0 ==> encode(text)[0].on,
        encode(text).len() > 0 ==> encode(text).last().on,
{
    lemma_encode_shape(text, false, false);
}

/// A text with at least one encodable character produces some output.
pub proof fn lemma_known_character_produces_output(before: Seq<char>, c: char, after: Seq<char>)
    requires
        spec_pattern(c) is Some,
        !spec_is_whitespace(c),
    ensures
        encode(before + seq![c] + after).len() > 0,
{
    let (s, k) = flags_after(before, false, false);
    lemma_encode_concat(before, seq![c] + after, false, false);
    assert(before + seq![c] + after =~= before + (seq![c] + after));
    assert((seq![c] + after)[0] == c);
    let pattern = spec_pattern(c)->0;
    assert(pattern.len() > 0);
    lemma_symbols_shape(pattern, 0);
}

/// Letters encode the same in either case.
pub proof fn lemma_case_insensitive(text: Seq<char>, started: bool, word_break: bool)
    ensures
        encode_from(text.map_values(|c: char| ascii_upper(c)), started, word_break) == encode_from(
            text,
            started,
            word_break,
        ),
    decreases text.len(),
{
    let upper = text.map_values(|c: char| ascii_upper(c));
    if text.len() > 0 {
        let rest = text.drop_first();
        assert(upper.drop_first() =~= rest.map_values(|c: char| ascii_upper(c)));
        assert(upper[0] == ascii_upper(text[0]));
        assert(spec_is_whitespace(upper[0]) == spec_is_whitespace(text[0]));
        assert(ascii_upper(upper[0]) == ascii_upper(text[0]));
        assert(spec_pattern(upper[0]) == spec_pattern(text[0]));
        if spec_is_whitespace(text[0]) {
            lemma_case_insensitive(rest, started, word_break || started);
        } else {
            match spec_pattern(text[0]) {
                None => lemma_case_insensitive(rest, started, word_break),
                Some(_) => lemma_case_insensitive(rest, true, false),
            }
        }
    } else {
        assert(upper =~= text);
    }
}

/// Characters without a Morse code are skipped: removing one from anywhere
/// in the text leaves the encoding unchanged.
pub proof fn lemma_unknown_characters_are_skipped(before: Seq<char>, c: char, after: Seq<char>)
    requires
        spec_pattern(c) is None,
        !spec_is_whitespace(c),
    ensures
        encode(before + seq![c] + after) == encode(before + after),
{
    lemma_encode_concat(before, seq![c] + after, false, false);
    lemma_encode_concat(before, after, false, false);
    assert(before + seq![c] + after =~= before + (seq![c] + after));
    assert((seq![c] + after).drop_first() =~= after);
}

/// Whitespace before the first letter produces no gap.
pub proof fn lemma_leading_whitespace_is_ignored(w: char, text: Seq<char>)
    requires
        spec_is_whitespace(w),
    ensures
        encode(seq![w] + text) == encode(text),
{
    assert((seq![w] + text).drop_first() =~= text);
}

/// Whitespace after the last letter produces no gap.
pub proof fn lemma_trailing_whitespace_is_ignored(text: Seq<char>, w: char)
    requires
        spec_is_whitespace(w),
    ensures
        encode(text + seq![w]) == encode(text),
{
    lemma_encode_concat(text, seq![w], false, false);
    let (s, k) = flags_after(text, false, false);
    assert(seq![w].drop_first() =~= Seq::<char>::empty());
    assert(encode_from(seq![w].drop_first(), s, k || s) =~= Seq::<Pulse>::empty());
    assert(encode_from(seq![w], s, k) =~= Seq::<Pulse>::empty());
    assert(encode(text + seq![w]) =~= encode(text));
}

/// A run of whitespace is one word gap: doubling a whitespace character
/// anywhere in the text leaves the encoding unchanged.
pub proof fn lemma_whitespace_runs_collapse(before: Seq<char>, w: char, after: Seq<char>)
    requires
        spec_is_whitespace(w),
    ensures
        encode(before + seq![w, w] + after) == encode(before + seq![w] + after),
{
    lemma_encode_concat(before, seq![w, w] + after, false, false);
    lemma_encode_concat(before, seq![w] + after, false, false);
    assert(before + seq![w, w] + after =~= before + (seq![w, w] + after));
    assert(before + seq![w] + after =~= before + (seq![w] + after));
    assert((seq![w, w] + after).drop_first() =~= seq![w] + after);
    assert((seq![w] + after).drop_first() =~= after);
    let (s, k) = flags_after(before, false, false);
    assert((seq![w, w] + after)[0] == w);
    assert((seq![w] + after)[0] == w);
    assert(encode_from(seq![w, w] + after, s, k) == encode_from(seq![w] + after, s, k || s));
    assert(encode_from(seq![w] + after, s, k || s) == encode_from(after, s, k || s));
    assert(encode_from(seq![w] + after, s, k) == encode_from(after, s, k || s));
}

/// The characters the Morse table knows: letters, digits and `. , ? /`.
pub open spec fn in_morse_table(u: char) -> bool {
    ||| 'A' <= u && u <= 'Z'
    ||| '0' <= u && u <= '9'
    ||| u == '.'
    ||| u == ','
    ||| u == '?'
    ||| u == '/'
}

/// Dot (0) or dash (1) at position `i` of a pattern, 0 past its end.
spec fn symbol_bit(p: Seq<bool>, i: int) -> int {
    if 0 <= i < p.len() && p[i] {
        1
    } else {
        0
    }
}

/// A number that tells patterns of up to six symbols apart: the length
/// times 64 plus the dashes as bits.
spec fn pattern_code(p: Seq<bool>) -> int {
    p.len() * 64 + symbol_bit(p, 0) + 2 * symbol_bit(p, 1) + 4 * symbol_bit(p, 2) + 8 * symbol_bit(
        p,
        3,
    ) + 16 * symbol_bit(p, 4) + 32 * symbol_bit(p, 5)
}

/// The table character whose pattern has the given code.
spec fn char_of_code(code: int) -> char {
    if code == 130 {
        'A'
    } else if code == 257 {
        'B'
    } else if code == 261 {
        'C'
    } else if code == 193 {
        'D'
    } else if code == 64 {
        'E'
    } else if code == 260 {
        'F'
    } else if code == 195 {
        'G'
    } else if code == 256 {
        'H'
    } else if code == 128 {
        'I'
    } else if code == 270 {
        'J'
    } else if code == 197 {
        'K'
    } else if code == 258 {
        'L'
    } else if code == 131 {
        'M'
    } else if code == 129 {
        'N'
    } else if code == 199 {
        'O'
    } else if code == 262 {
        'P'
    } else if code == 267 {
        'Q'
    } else if code == 194 {
        'R'
    } else if code == 192 {
        'S'
    } else if code == 65 {
        'T'
    } else if code == 196 {
        'U'
    } else if code == 264 {
        'V'
    } else if code == 198 {
        'W'
    } else if code == 265 {
        'X'
    } else if code == 269 {
        'Y'
    } else if code == 259 {
        'Z'
    } else if code == 351 {
        '0'
    } else if code == 350 {
        '1'
    } else if code == 348 {
        '2'
    } else if code == 344 {
        '3'
    } else if code == 336 {
        '4'
    } else if code == 320 {
        '5'
    } else if code == 321 {
        '6'
    } else if code == 323 {
        '7'
    } else if code == 327 {
        '8'
    } else if code == 335 {
        '9'
    } else if code == 426 {
        '.'
    } else if code == 435 {
        ','
    } else if code == 396 {
        '?'
    } else if code == 329 {
        '/'
    } else {
        ' '
    }
}

/// Every table pattern's code leads back to the upper-case character.
proof fn lemma_pattern_code_identifies(c: char)
    requires
        spec_pattern(c) is Some,
    ensures
        char_of_code(pattern_code(spec_pattern(c)->0)) == ascii_upper(c),
{
    let u = ascii_upper(c);
    let p = spec_pattern(c)->0;
    assert(char_of_code(pattern_code(p)) == u);
}

/// The table of [`pattern`]: it ignores case, knows exactly the letters,
/// digits and `. , ? /`, and gives different characters (up to case)
/// different patterns.
pub proof fn lemma_pattern_table(c: char, c1: char, c2: char)
    ensures
        spec_pattern(ascii_upper(c)) == spec_pattern(c),
        spec_pattern(c) is Some <==> in_morse_table(ascii_upper(c)),
        spec_pattern(c1) is Some && spec_pattern(c1) == spec_pattern(c2) ==> ascii_upper(c1)
            == ascii_upper(c2),
{
    assert(ascii_upper(ascii_upper(c)) == ascii_upper(c));
    if spec_pattern(c1) is Some && spec_pattern(c1) == spec_pattern(c2) {
        lemma_pattern_code_identifies(c1);
        lemma_pattern_code_identifies(c2);
    }
}

/// `text` with every character removed that is neither whitespace nor in
/// the Morse table.
pub open spec fn known_only(text: Seq<char>) -> Seq<char>
    decreases text.len(),
{
    if text.len() == 0 {
        text
    } else if !spec_is_whitespace(text[0]) && spec_pattern(text[0]) is None {
        known_only(text.drop_first())
    } else {
        seq![text[0]] + known_only(text.drop_first())
    }
}

proof fn lemma_known_only_encodes_alike(text: Seq<char>, started: bool, word_break: bool)
    ensures
        encode_from(known_only(text), started, word_break) == encode_from(text, started, word_break),
    decreases text.len(),
{
    if text.len() > 0 {
        let rest = text.drop_first();
        let k = known_only(rest);
        if !spec_is_whitespace(text[0]) && spec_pattern(text[0]) is None {
            lemma_known_only_encodes_alike(rest, started, word_break);
        } else {
            assert((seq![text[0]] + k)[0] == text[0]);
            assert((seq![text[0]] + k).drop_first() =~= k);
            if spec_is_whitespace(text[0]) {
                lemma_known_only_encodes_alike(rest, started, word_break || started);
            } else {
                lemma_known_only_encodes_alike(rest, true, false);
            }
        }
    }
}

/// Unknown characters are skipped all at once: removing every character
/// that is neither whitespace nor in the table leaves the encoding
/// unchanged (a pending word gap included).
pub proof fn lemma_all_unknown_characters_are_skipped(text: Seq<char>)
    ensures
        encode(known_only(text)) == encode(text),
{
    lemma_known_only_encodes_alike(text, false, false);
}

/// The rest of `text` with whitespace runs collapsed: `emitted` says a
/// non-whitespace character has already been kept, `gap` that whitespace
/// followed it; a run becomes one space, and only when a non-whitespace
/// character follows it.
pub open spec fn collapse_spaces_from(text: Seq<char>, emitted: bool, gap: bool) -> Seq<char>
    decreases text.len(),
{
    if text.len() == 0 {
        Seq::empty()
    } else if spec_is_whitespace(text[0]) {
        collapse_spaces_from(text.drop_first(), emitted, emitted)
    } else {
        (if gap {
            seq![' ']
        } else {
            Seq::empty()
        }) + seq![text[0]] + collapse_spaces_from(text.drop_first(), true, false)
    }
}

/// `text` trimmed of leading and trailing whitespace, with every run of
/// whitespace inside it replaced by one space.
pub open spec fn normalize_spaces(text: Seq<char>) -> Seq<char> {
    collapse_spaces_from(text, false, false)
}

proof fn lemma_collapsed_encodes_alike(
    text: Seq<char>,
    emitted: bool,
    gap: bool,
    started: bool,
    word_break: bool,
)
    requires
        started ==> emitted,
        gap ==> emitted,
    ensures
        encode_from(collapse_spaces_from(text, emitted, gap), started, word_break) == encode_from(
            text,
            started,
            if gap {
                word_break || started
            } else {
                word_break
            },
        ),
    decreases text.len(),
{
    if text.len() > 0 {
        let rest = text.drop_first();
        let wb = if gap {
            word_break || started
        } else {
            word_break
        };
        if spec_is_whitespace(text[0]) {
            lemma_collapsed_encodes_alike(rest, emitted, emitted, started, word_break);
        } else {
            let c = text[0];
            let tail = collapse_spaces_from(rest, true, false);
            let x = seq![c] + tail;
            assert(x[0] == c);
            assert(x.drop_first() =~= tail);
            if gap {
                let y = seq![' '] + x;
                assert(seq![' '] + seq![c] + tail =~= y);
                assert(y[0] == ' ');
                assert(spec_is_whitespace(' '));
                assert(y.drop_first() =~= x);
            } else {
                assert(Seq::<char>::empty() + seq![c] + tail =~= x);
            }
            assert(encode_from(collapse_spaces_from(text, emitted, gap), started, word_break)
                == encode_from(x, started, wb));
            match spec_pattern(c) {
                None => lemma_collapsed_encodes_alike(rest, true, false, started, wb),
                Some(_) => lemma_collapsed_encodes_alike(rest, true, false, true, false),
            }
        }
    }
}

/// Whitespace is only a word separator: trimming the text and replacing
/// every run of whitespace inside it by one space leaves the encoding
/// unchanged.
pub proof fn lemma_whitespace_normalizes(text: Seq<char>)
    ensures
        encode(normalize_spaces(text)) == encode(text),
{
    lemma_collapsed_encodes_alike(text, false, false, false, false);
}

/// Whether symbol `i` of the Morse code of digit `k` is a dash: the digits
/// 1 to 5 are `k` dots then dashes, 6 to 9 are `k - 5` dashes then dots, and
/// 0 is five dashes.
pub open spec fn digit_symbol_is_dash(k: int, i: int) -> bool {
    let j = if k == 0 {
        10
    } else {
        k
    };
    if j <= 5 {
        i >= j
    } else {
        i < j - 5
    }
}

/// The digits follow the Morse digit rule: each is five symbols, given by
/// [`digit_symbol_is_dash`].
pub proof fn lemma_digit_patterns(k: int)
    requires
        0 <= k < 10,
    ensures
        spec_pattern(((('0' as u32) as int + k) as u32) as char) == Some(
            Seq::new(5, |i: int| digit_symbol_is_dash(k, i)),
        ),
{
    let c = ((('0' as u32) as int + k) as u32) as char;
    let expected = Seq::new(5, |i: int| digit_symbol_is_dash(k, i));
    assert(spec_pattern(c)->0 =~= expected);
}

} // verus!
