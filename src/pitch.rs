use vstd::prelude::*;
use vstd::std_specs::cmp::{PartialEqSpec, PartialOrdSpec};

verus! {

/// A letter name of the diatonic scale, in order C D E F G A B.
#[derive(Clone, Copy, Debug, PartialEq, Eq, Structural)]
pub enum PitchName {
    C,
    D,
    E,
    F,
    G,
    A,
    B,
}

impl PitchName {
    /// Position of the letter within C D E F G A B (0..=6).
    pub open spec fn index(self) -> int {
        match self {
            PitchName::C => 0,
            PitchName::D => 1,
            PitchName::E => 2,
            PitchName::F => 3,
            PitchName::G => 4,
            PitchName::A => 5,
            PitchName::B => 6,
        }
    }

    /// Half-steps from C up to the natural letter within one octave.
    pub open spec fn base(self) -> int {
        match self {
            PitchName::C => 0,
            PitchName::D => 2,
            PitchName::E => 4,
            PitchName::F => 5,
            PitchName::G => 7,
            PitchName::A => 9,
            PitchName::B => 11,
        }
    }

    /// The character that writes the letter.
    pub open spec fn symbol(self) -> char {
        match self {
            PitchName::C => 'C',
            PitchName::D => 'D',
            PitchName::E => 'E',
            PitchName::F => 'F',
            PitchName::G => 'G',
            PitchName::A => 'A',
            PitchName::B => 'B',
        }
    }

    /// The letter written by one character, if any.
    pub open spec fn from_symbol(c: char) -> Option<PitchName> {
        if c == 'C' {
            Some(PitchName::C)
        } else if c == 'D' {
            Some(PitchName::D)
        } else if c == 'E' {
            Some(PitchName::E)
        } else if c == 'F' {
            Some(PitchName::F)
        } else if c == 'G' {
            Some(PitchName::G)
        } else if c == 'A' {
            Some(PitchName::A)
        } else if c == 'B' {
            Some(PitchName::B)
        } else {
            None
        }
    }

    /// The letter written by a whole text, if the text is exactly one letter.
    pub open spec fn from_text(s: Seq<char>) -> Option<PitchName> {
        if s.len() == 1 {
            PitchName::from_symbol(s[0])
        } else {
            None
        }
    }

    /// Position of the letter within C D E F G A B.
    pub fn position(&self) -> (r: u8)
        ensures
            r == self.index(),
    {
        match self {
            PitchName::C => 0,
            PitchName::D => 1,
            PitchName::E => 2,
            PitchName::F => 3,
            PitchName::G => 4,
            PitchName::A => 5,
            PitchName::B => 6,
        }
    }

    /// Half-steps from C up to the natural letter.
    pub fn half_steps(&self) -> (r: i32)
        ensures
            r == self.base(),
    {
        match self {
            PitchName::C => 0,
            PitchName::D => 2,
            PitchName::E => 4,
            PitchName::F => 5,
            PitchName::G => 7,
            PitchName::A => 9,
            PitchName::B => 11,
        }
    }

    /// The letter as text.
    pub fn to_string(&self) -> (r: String)
        ensures
            r@ == seq![self.symbol()],
    {
        let s = match self {
            PitchName::C => "C",
            PitchName::D => "D",
            PitchName::E => "E",
            PitchName::F => "F",
            PitchName::G => "G",
            PitchName::A => "A",
            PitchName::B => "B",
        };
        proof {
            reveal_strlit("C");
            reveal_strlit("D");
            reveal_strlit("E");
            reveal_strlit("F");
            reveal_strlit("G");
            reveal_strlit("A");
            reveal_strlit("B");
        }
        let r = String::from_str(s);
        assert(r@ =~= seq![self.symbol()]);
        r
    }

    /// Reads a letter name; fails unless the text is one of `C D E F G A B`.
    pub fn parse(text: &str) -> (r: Result<PitchName, ()>)
        ensures
            r == (match PitchName::from_text(text@) {
                Some(n) => Ok(n),
                None => Err(()),
            }),
    {
        if text.unicode_len() != 1 {
            return Err(());
        }
        let c = text.get_char(0);
        if c == 'C' {
            Ok(PitchName::C)
        } else if c == 'D' {
            Ok(PitchName::D)
        } else if c == 'E' {
            Ok(PitchName::E)
        } else if c == 'F' {
            Ok(PitchName::F)
        } else if c == 'G' {
            Ok(PitchName::G)
        } else if c == 'A' {
            Ok(PitchName::A)
        } else if c == 'B' {
            Ok(PitchName::B)
        } else {
            Err(())
        }
    }
}


/// An accidental: a shift of the natural letter by whole half-steps.
#[derive(Clone, Copy, Debug, PartialEq, Eq, Structural)]
pub enum Accidental {
    Sharp,
    Flat,
    DoubleSharp,
    DoubleFlat,
    Natural,
}

impl Accidental {
    /// The shift in half-steps.
    pub open spec fn shift(self) -> int {
        match self {
            Accidental::Sharp => 1,
            Accidental::Flat => -1,
            Accidental::DoubleSharp => 2,
            Accidental::DoubleFlat => -2,
            Accidental::Natural => 0,
        }
    }

    /// The marker that writes the accidental; empty for `Natural`.
    pub open spec fn marker(self) -> Seq<char> {
        match self {
            Accidental::Sharp => seq!['#'],
            Accidental::Flat => seq!['b'],
            Accidental::DoubleSharp => seq!['#', '#'],
            Accidental::DoubleFlat => seq!['b', 'b'],
            Accidental::Natural => Seq::empty(),
        }
    }

    /// The accidental written by a whole marker, if any.
    pub open spec fn from_marker(m: Seq<char>) -> Option<Accidental> {
        if m == seq!['#'] {
            Some(Accidental::Sharp)
        } else if m == seq!['b'] {
            Some(Accidental::Flat)
        } else if m == seq!['#', '#'] {
            Some(Accidental::DoubleSharp)
        } else if m == seq!['b', 'b'] {
            Some(Accidental::DoubleFlat)
        } else if m.len() == 0 {
            Some(Accidental::Natural)
        } else {
            None
        }
    }

    /// The shift in half-steps.
    pub fn half_steps(&self) -> (r: i32)
        ensures
            r == self.shift(),
    {
        match self {
            Accidental::Sharp => 1,
            Accidental::Flat => -1,
            Accidental::DoubleSharp => 2,
            Accidental::DoubleFlat => -2,
            Accidental::Natural => 0,
        }
    }

    /// The marker as text.
    pub fn to_string(&self) -> (r: String)
        ensures
            r@ == self.marker(),
    {
        let s = match self {
            Accidental::Sharp => "#",
            Accidental::Flat => "b",
            Accidental::DoubleSharp => "##",
            Accidental::DoubleFlat => "bb",
            Accidental::Natural => "",
        };
        proof {
            reveal_strlit("#");
            reveal_strlit("b");
            reveal_strlit("##");
            reveal_strlit("bb");
            reveal_strlit("");
        }
        let r = String::from_str(s);
        assert(r@ =~= self.marker());
        r
    }

    /// Reads a marker; fails unless the text is one of `""`, `#`, `b`, `##`, `bb`.
    pub fn parse(text: &str) -> (r: Result<Accidental, ()>)
        ensures
            r == (match Accidental::from_marker(text@) {
                Some(a) => Ok(a),
                None => Err(()),
            }),
    {
        let n = text.unicode_len();
        if n == 0 {
            return Ok(Accidental::Natural);
        }
        if n > 2 {
            proof {
                assert(text@ != seq!['#']);
                assert(text@ != seq!['b']);
                assert(text@ != seq!['#', '#']);
                assert(text@ != seq!['b', 'b']);
            }
            return Err(());
        }
        let c0 = text.get_char(0);
        if c0 != '#' && c0 != 'b' {
            proof {
                assert(text@ != seq!['#']);
                assert(text@ != seq!['b']);
                assert(text@ != seq!['#', '#']);
                assert(text@ != seq!['b', 'b']);
            }
            return Err(());
        }
        if n == 1 {
            proof {
                assert(text@ =~= seq![c0]);
            }
            if c0 == '#' {
                Ok(Accidental::Sharp)
            } else {
                Ok(Accidental::Flat)
            }
        } else {
            let c1 = text.get_char(1);
            proof {
                assert(text@ =~= seq![c0, c1]);
            }
            if c1 != c0 {
                Err(())
            } else if c0 == '#' {
                Ok(Accidental::DoubleSharp)
            } else {
                Ok(Accidental::DoubleFlat)
            }
        }
    }
}


/// The character of a decimal digit `d` (0..=9).
pub open spec fn digit_char(d: int) -> char {
    if d == 0 {
        '0'
    } else if d == 1 {
        '1'
    } else if d == 2 {
        '2'
    } else if d == 3 {
        '3'
    } else if d == 4 {
        '4'
    } else if d == 5 {
        '5'
    } else if d == 6 {
        '6'
    } else if d == 7 {
        '7'
    } else if d == 8 {
        '8'
    } else {
        '9'
    }
}

/// The value of a decimal digit character, if it is one.
pub open spec fn digit_value(c: char) -> Option<int> {
    if c == '0' {
        Some(0)
    } else if c == '1' {
        Some(1)
    } else if c == '2' {
        Some(2)
    } else if c == '3' {
        Some(3)
    } else if c == '4' {
        Some(4)
    } else if c == '5' {
        Some(5)
    } else if c == '6' {
        Some(6)
    } else if c == '7' {
        Some(7)
    } else if c == '8' {
        Some(8)
    } else if c == '9' {
        Some(9)
    } else {
        None
    }
}

/// The decimal digits of a natural number, without leading zeros.
pub open spec fn digits(n: nat) -> Seq<char>
    decreases n,
{
    if n < 10 {
        seq![digit_char(n as int)]
    } else {
        digits(n / 10) + seq![digit_char((n % 10) as int)]
    }
}

/// The decimal text of an integer, with a leading `-` when negative.
pub open spec fn decimal(n: int) -> Seq<char> {
    if n < 0 {
        seq!['-'] + digits((-n) as nat)
    } else {
        digits(n as nat)
    }
}

/// The octave written by the text grammar: one or two decimal digits
/// (0..=99; `05` reads as 5).
pub open spec fn octave_value(d: Seq<char>) -> Option<int> {
    if d.len() == 1 {
        digit_value(d[0])
    } else if d.len() == 2 {
        match (digit_value(d[0]), digit_value(d[1])) {
            (Some(a), Some(b)) => Some(10 * a + b),
            _ => None,
        }
    } else {
        None
    }
}

/// Length of the accidental marker at the front of `r`: a run of one or two
/// equal `#` or `b` characters.
pub open spec fn accidental_run(r: Seq<char>) -> int {
    if r.len() >= 1 && (r[0] == '#' || r[0] == 'b') {
        if r.len() >= 2 && r[1] == r[0] {
            2
        } else {
            1
        }
    } else {
        0
    }
}

/// The pitch written by a text `<Letter><Accidental><Octave>`, if the text
/// follows that grammar.
pub open spec fn parse_text(s: Seq<char>) -> Option<Pitch> {
    if s.len() == 0 {
        None
    } else {
        let rest = s.skip(1);
        let k = accidental_run(rest);
        match (
            PitchName::from_symbol(s[0]),
            Accidental::from_marker(rest.take(k)),
            octave_value(rest.skip(k)),
        ) {
            (Some(name), Some(accidental), Some(octave)) => Some(
                Pitch { name, accidental, octave: octave as i8 },
            ),
            _ => None,
        }
    }
}

/// The value of a decimal digit character.
fn read_digit(c: char) -> (r: Option<u8>)
    ensures
        r matches Some(d) ==> digit_value(c) == Some(d as int),
        r is None ==> digit_value(c) is None,
{
    if c == '0' {
        Some(0)
    } else if c == '1' {
        Some(1)
    } else if c == '2' {
        Some(2)
    } else if c == '3' {
        Some(3)
    } else if c == '4' {
        Some(4)
    } else if c == '5' {
        Some(5)
    } else if c == '6' {
        Some(6)
    } else if c == '7' {
        Some(7)
    } else if c == '8' {
        Some(8)
    } else if c == '9' {
        Some(9)
    } else {
        None
    }
}

/// The text of one decimal digit.
fn digit_text(d: u8) -> (r: &'static str)
    requires
        d < 10,
    ensures
        r@ == seq![digit_char(d as int)],
{
    proof {
        reveal_strlit("0");
        reveal_strlit("1");
        reveal_strlit("2");
        reveal_strlit("3");
        reveal_strlit("4");
        reveal_strlit("5");
        reveal_strlit("6");
        reveal_strlit("7");
        reveal_strlit("8");
        reveal_strlit("9");
    }
    let r = if d == 0 {
        "0"
    } else if d == 1 {
        "1"
    } else if d == 2 {
        "2"
    } else if d == 3 {
        "3"
    } else if d == 4 {
        "4"
    } else if d == 5 {
        "5"
    } else if d == 6 {
        "6"
    } else if d == 7 {
        "7"
    } else if d == 8 {
        "8"
    } else {
        "9"
    };
    assert(r@ =~= seq![digit_char(d as int)]);
    r
}

/// Reads an octave number in the text grammar: one or two digits (0..=99).
fn read_octave(text: &str) -> (r: Result<i8, ()>)
    ensures
        r matches Ok(o) ==> octave_value(text@) == Some(o as int),
        r is Err ==> octave_value(text@) is None,
{
    let n = text.unicode_len();
    if n == 1 {
        match read_digit(text.get_char(0)) {
            Some(d) => Ok(d as i8),
            None => Err(()),
        }
    } else if n == 2 {
        match (read_digit(text.get_char(0)), read_digit(text.get_char(1))) {
            (Some(a), Some(b)) => Ok((10 * a + b) as i8),
            _ => Err(()),
        }
    } else {
        Err(())
    }
}

/// The decimal text of an octave number.
fn octave_text(o: i8) -> (r: String)
    ensures
        r@ == decimal(o as int),
{
    let mut r = String::new();
    let m: u16 = if o < 0 {
        r.append("-");
        (-(o as i16)) as u16
    } else {
        o as u16
    };
    proof {
        reveal_strlit("-");
        reveal_with_fuel(digits, 3);
    }
    if m >= 100 {
        r.append(digit_text((m / 100) as u8));
        r.append(digit_text(((m / 10) % 10) as u8));
        r.append(digit_text((m % 10) as u8));
        assert(digits(m as nat) =~= seq![
            digit_char((m / 100) as int),
            digit_char(((m / 10) % 10) as int),
            digit_char((m % 10) as int),
        ]);
    } else if m >= 10 {
        r.append(digit_text((m / 10) as u8));
        r.append(digit_text((m % 10) as u8));
        assert(digits(m as nat) =~= seq![digit_char((m / 10) as int), digit_char((m % 10) as int)]);
    } else {
        r.append(digit_text(m as u8));
    }
    assert(r@ =~= decimal(o as int));
    r
}

/// The letter of the spelling with sharps of a height class `r` (0..=11).
pub open spec fn spelled_name(r: int) -> PitchName {
    if r <= 1 {
        PitchName::C
    } else if r <= 3 {
        PitchName::D
    } else if r == 4 {
        PitchName::E
    } else if r <= 6 {
        PitchName::F
    } else if r <= 8 {
        PitchName::G
    } else if r <= 10 {
        PitchName::A
    } else {
        PitchName::B
    }
}

/// The accidental of the spelling with sharps of a height class `r` (0..=11).
pub open spec fn spelled_accidental(r: int) -> Accidental {
    if r == 1 || r == 3 || r == 6 || r == 8 || r == 10 {
        Accidental::Sharp
    } else {
        Accidental::Natural
    }
}

fn spelling(r: u8) -> (res: (PitchName, Accidental))
    requires
        r < 12,
    ensures
        res.0 == spelled_name(r as int),
        res.1 == spelled_accidental(r as int),
        res.0.base() + res.1.shift() == r,
{
    match r {
        0 => (PitchName::C, Accidental::Natural),
        1 => (PitchName::C, Accidental::Sharp),
        2 => (PitchName::D, Accidental::Natural),
        3 => (PitchName::D, Accidental::Sharp),
        4 => (PitchName::E, Accidental::Natural),
        5 => (PitchName::F, Accidental::Natural),
        6 => (PitchName::F, Accidental::Sharp),
        7 => (PitchName::G, Accidental::Natural),
        8 => (PitchName::G, Accidental::Sharp),
        9 => (PitchName::A, Accidental::Natural),
        10 => (PitchName::A, Accidental::Sharp),
        _ => (PitchName::B, Accidental::Natural),
    }
}

/// A pitch: a letter, an accidental and a signed octave number.
///
/// Pitches are compared by their height alone, so that enharmonic
/// spellings (`C#0` and `Db0`) are equal.
#[derive(Clone, Copy, Debug)]
pub struct Pitch {
    pub name: PitchName,
    pub accidental: Accidental,
    pub octave: i8,
}

impl Pitch {
    /// Height in half-steps above C0. Twice the coordinate, in which one
    /// octave spans 6.0.
    pub open spec fn height(self) -> int {
        self.name.base() + self.accidental.shift() + 12 * self.octave
    }

    /// The text form `<Letter><Accidental><Octave>`.
    pub open spec fn text(self) -> Seq<char> {
        seq![self.name.symbol()] + self.accidental.marker() + decimal(self.octave as int)
    }

    /// Distance in half-steps between the heights of two pitches.
    pub open spec fn gap(self, other: Pitch) -> int {
        let d = other.height() - self.height();
        if d < 0 {
            -d
        } else {
            d
        }
    }

    /// The pitch of a letter, an octave and an accidental.
    pub fn new(name: PitchName, octave: i8, accidental: Accidental) -> (r: Pitch)
        ensures
            r == (Pitch { name, accidental, octave }),
    {
        Pitch { name, accidental, octave }
    }

    /// The natural pitch of a letter in an octave.
    pub fn new_without_accidental(name: PitchName, octave: i8) -> (r: Pitch)
        ensures
            r == (Pitch { name, accidental: Accidental::Natural, octave }),
    {
        Pitch { name, accidental: Accidental::Natural, octave }
    }

    /// The height in half-steps above C0.
    pub fn half_steps(&self) -> (r: i32)
        ensures
            r == self.height(),
    {
        self.name.half_steps() + self.accidental.half_steps() + 12 * (self.octave as i32)
    }

    /// The pitch at a height in half-steps above C0, spelled with sharps
    /// (`C C# D D# E F F# G G# A A# B`). Fails when the octave does not fit
    /// in an `i8`.
    pub fn from_half_steps(n: i32) -> (r: Result<Pitch, ()>)
        ensures
            -128 <= n as int / 12 <= 127 ==> r == Ok::<Pitch, ()>(
                Pitch {
                    name: spelled_name(n as int % 12),
                    accidental: spelled_accidental(n as int % 12),
                    octave: (n as int / 12) as i8,
                },
            ),
            !(-128 <= n as int / 12 <= 127) ==> r is Err,
            r matches Ok(p) ==> p.height() == n,
    {
        // Shift by a multiple of 12 so that the division is on naturals.
        let lift: i64 = 12 * 200_000_000;
        let m: u64 = ((n as i64) + lift) as u64;
        let q: i64 = (m / 12) as i64 - 200_000_000;
        let rem: u8 = (m % 12) as u8;
        assert(q == n as int / 12 && rem == n as int % 12) by {
            assert(m == n + 12 * 200_000_000);
            vstd::arithmetic::div_mod::lemma_fundamental_div_mod(m as int, 12);
            vstd::arithmetic::div_mod::lemma_fundamental_div_mod_converse(
                n as int,
                12,
                m as int / 12 - 200_000_000,
                m as int % 12,
            );
        }
        if q < -128 || q > 127 {
            return Err(());
        }
        let (name, accidental) = spelling(rem);
        Ok(Pitch { name, accidental, octave: q as i8 })
    }

    /// The signed number of half-steps from A4 (the 440 Hz reference) up to
    /// this pitch.
    pub fn semitones_from_a4(&self) -> (r: i32)
        ensures
            r == self.height() - 57,
    {
        self.half_steps() - 57
    }

    /// The distance in half-steps between two pitches.
    pub fn distance(&self, other: &Pitch) -> (r: u32)
        ensures
            r == self.gap(*other),
    {
        let d = other.half_steps() - self.half_steps();
        if d < 0 {
            (-d) as u32
        } else {
            d as u32
        }
    }

    /// Whether `s[i]` is the first of the candidates `s` that lies nearest to
    /// this pitch.
    pub open spec fn is_first_nearest(self, s: Seq<Pitch>, i: int) -> bool {
        &&& 0 <= i < s.len()
        &&& forall|j: int| 0 <= j < s.len() ==> self.gap(#[trigger] s[j]) >= self.gap(s[i])
        &&& forall|j: int| 0 <= j < i ==> self.gap(#[trigger] s[j]) > self.gap(s[i])
    }

    /// The candidate nearest to this pitch; of several at the same distance,
    /// the first in `others`. With no candidate, the pitch itself.
    pub fn get_the_nearest_pitch(&self, others: Vec<Pitch>) -> (r: Pitch)
        ensures
            others@.len() == 0 ==> r == *self,
            others@.len() > 0 ==> exists|i: int|
                self.is_first_nearest(others@, i) && r == others@[i],
    {
        let mut min_distance: u32 = u32::MAX;
        let mut nearest_pitch = *self;
        let ghost mut best: int = 0;
        let mut i: usize = 0;
        while i < others.len()
            invariant
                0 <= i <= others@.len(),
                i == 0 ==> nearest_pitch == *self && min_distance == u32::MAX,
                i > 0 ==> 0 <= best < i && nearest_pitch == others@[best]
                    && min_distance == self.gap(nearest_pitch),
                i > 0 ==> forall|j: int| 0 <= j < i ==> self.gap(#[trigger] others@[j]) >= min_distance,
                i > 0 ==> forall|j: int| 0 <= j < best ==> self.gap(#[trigger] others@[j]) > min_distance,
            decreases others@.len() - i,
        {
            let d = self.distance(&others[i]);
            if d < min_distance {
                min_distance = d;
                nearest_pitch = others[i];
                proof {
                    best = i as int;
                }
            }
            i += 1;
        }
        proof {
            if others@.len() > 0 {
                assert(self.is_first_nearest(others@, best));
            }
        }
        nearest_pitch
    }

    /// The text form, such as `C#4`; the octave is written in decimal,
    /// with a `-` when negative.
    pub fn to_string(&self) -> (r: String)
        ensures
            r@ == self.text(),
    {
        let mut r = self.name.to_string();
        let a = self.accidental.to_string();
        r.append(a.as_str());
        let o = octave_text(self.octave);
        r.append(o.as_str());
        r
    }

    /// Reads a pitch from its text form: a letter `A`..`G`, an optional
    /// marker `#`, `##`, `b` or `bb`, then an octave of one or two digits
    /// (0..=99; `C05` reads as C5).
    pub fn parse(text: &str) -> (r: Result<Pitch, ()>)
        ensures
            r == (match parse_text(text@) {
                Some(p) => Ok(p),
                None => Err(()),
            }),
    {
        let n = text.unicode_len();
        if n == 0 {
            return Err(());
        }
        let ghost s = text@;
        let ghost rest = s.skip(1);
        let letter = text.substring_char(0, 1);
        assert(letter@ =~= seq![s[0]]);
        let name = match PitchName::parse(letter) {
            Ok(name) => name,
            Err(()) => return Err(()),
        };
        let mut k: usize = 0;
        if n >= 2 {
            let c1 = text.get_char(1);
            if c1 == '#' || c1 == 'b' {
                k = 1;
                if n >= 3 && text.get_char(2) == c1 {
                    k = 2;
                }
            }
        }
        assert(k == accidental_run(rest));
        let marker = text.substring_char(1, 1 + k);
        assert(marker@ =~= rest.take(k as int));
        let accidental = match Accidental::parse(marker) {
            Ok(a) => a,
            Err(()) => return Err(()),
        };
        let digits_text = text.substring_char(1 + k, n);
        assert(digits_text@ =~= rest.skip(k as int));
        let octave = match read_octave(digits_text) {
            Ok(o) => o,
            Err(()) => return Err(()),
        };
        Ok(Pitch { name, accidental, octave })
    }
}


impl PartialEq for Pitch {
    fn eq(&self, other: &Pitch) -> bool {
        self.half_steps() == other.half_steps()
    }
}

impl vstd::std_specs::cmp::PartialEqSpecImpl for Pitch {
    open spec fn obeys_eq_spec() -> bool {
        true
    }

    open spec fn eq_spec(&self, other: &Pitch) -> bool {
        self.height() == other.height()
    }
}

impl Eq for Pitch {}

impl PartialOrd for Pitch {
    fn partial_cmp(&self, other: &Pitch) -> Option<core::cmp::Ordering> {
        let a = self.half_steps();
        let b = other.half_steps();
        if a < b {
            Some(core::cmp::Ordering::Less)
        } else if a > b {
            Some(core::cmp::Ordering::Greater)
        } else {
            Some(core::cmp::Ordering::Equal)
        }
    }
}

impl vstd::std_specs::cmp::PartialOrdSpecImpl for Pitch {
    open spec fn obeys_partial_cmp_spec() -> bool {
        true
    }

    open spec fn partial_cmp_spec(&self, other: &Pitch) -> Option<core::cmp::Ordering> {
        if self.height() < other.height() {
            Some(core::cmp::Ordering::Less)
        } else if self.height() > other.height() {
            Some(core::cmp::Ordering::Greater)
        } else {
            Some(core::cmp::Ordering::Equal)
        }
    }
}

impl TryFrom<String> for Pitch {
    type Error = ();

    fn try_from(value: String) -> Result<Pitch, ()> {
        Pitch::parse(value.as_str())
    }
}

impl vstd::std_specs::convert::TryFromSpecImpl<String> for Pitch {
    open spec fn obeys_try_from_spec() -> bool {
        true
    }

    open spec fn try_from_spec(v: String) -> Result<Pitch, ()> {
        match parse_text(v@) {
            Some(p) => Ok(p),
            None => Err(()),
        }
    }
}

/// Pitches are equal exactly when their heights are, whatever their
/// spelling (`C#0 == Db0`), and they are ordered as their heights are.
pub proof fn lemma_enharmonic_equality(p: Pitch, q: Pitch)
    ensures
        p.eq_spec(&q) <==> p.height() == q.height(),
        p.partial_cmp_spec(&q) == Some(core::cmp::Ordering::Less) <==> p.height() < q.height(),
        p.partial_cmp_spec(&q) == Some(core::cmp::Ordering::Equal) <==> p.eq_spec(&q),
        p.partial_cmp_spec(&q) == Some(core::cmp::Ordering::Greater) <==> p.height() > q.height(),
        p.partial_cmp_spec(&q) is Some,
{
}

/// Equality of pitches is an equivalence, and their order is transitive.
pub proof fn lemma_pitch_order_laws(p: Pitch, q: Pitch, s: Pitch)
    ensures
        p.eq_spec(&p),
        p.eq_spec(&q) ==> q.eq_spec(&p),
        p.eq_spec(&q) && q.eq_spec(&s) ==> p.eq_spec(&s),
        p.partial_cmp_spec(&q) == Some(core::cmp::Ordering::Less) && q.partial_cmp_spec(&s) == Some(
            core::cmp::Ordering::Less,
        ) ==> p.partial_cmp_spec(&s) == Some(core::cmp::Ordering::Less),
        p.partial_cmp_spec(&q) == Some(core::cmp::Ordering::Less) <==> q.partial_cmp_spec(&p) == Some(
            core::cmp::Ordering::Greater,
        ),
{
}

/// Resolving a pitch against candidates of which one has its height picks
/// a candidate of that height, so no shift is needed; a single candidate
/// equal to the pitch is one such case.
pub proof fn lemma_resolver_identity(requested: Pitch, candidates: Seq<Pitch>, i: int, j: int)
    requires
        requested.is_first_nearest(candidates, i),
        0 <= j < candidates.len(),
        candidates[j].height() == requested.height(),
    ensures
        requested.height() - candidates[i].height() == 0,
{
    assert(requested.gap(candidates[j]) == 0);
}

proof fn lemma_digit_char(d: int)
    requires
        0 <= d < 10,
    ensures
        digit_value(digit_char(d)) == Some(d),
        digit_char(d) != '#' && digit_char(d) != 'b',
        d != 0 ==> digit_char(d) != '0',
{
}

proof fn lemma_octave_digits(o: int)
    requires
        0 <= o <= 99,
    ensures
        octave_value(digits(o as nat)) == Some(o),
        digits(o as nat).len() >= 1,
        digits(o as nat)[0] != '#' && digits(o as nat)[0] != 'b',
{
    reveal_with_fuel(digits, 2);
    if o < 10 {
        lemma_digit_char(o);
    } else {
        lemma_digit_char(o / 10);
        lemma_digit_char(o % 10);
        assert(digits(o as nat) =~= seq![digit_char(o / 10), digit_char(o % 10)]);
    }
}

/// Reading the text of a pitch gives the pitch back, for every pitch whose
/// octave the text grammar can write (0..=99).
pub proof fn lemma_text_round_trip(p: Pitch)
    requires
        0 <= p.octave <= 99,
    ensures
        parse_text(p.text()) == Some(p),
{
    let s = p.text();
    let m = p.accidental.marker();
    let d = digits(p.octave as nat);
    lemma_octave_digits(p.octave as int);
    assert(s =~= seq![p.name.symbol()] + m + d);
    let rest = s.skip(1);
    assert(rest =~= m + d);
    assert(accidental_run(rest) == m.len());
    assert(rest.take(m.len() as int) =~= m);
    assert(rest.skip(m.len() as int) =~= d);
    assert(PitchName::from_symbol(s[0]) == Some(p.name));
    assert(Accidental::from_marker(m) == Some(p.accidental));
}

} // verus!
