use vstd::prelude::*;
use crate::pitch::Pitch;

verus! {

/// The quality of an interval.
#[derive(Clone, Copy, Debug, PartialEq, Eq, Structural)]
pub enum IntervalQuality {
    Perfect,
    Major,
    Minor,
    Augmented,
    Diminished,
}

/// A step of a scale: a half step or a whole step.
#[derive(Clone, Copy, Debug, PartialEq, Eq, Structural)]
pub enum IntervalStep {
    Half,
    Whole,
}

impl IntervalStep {
    /// The size of the step in half-steps.
    pub open spec fn size(self) -> int {
        match self {
            IntervalStep::Half => 1,
            IntervalStep::Whole => 2,
        }
    }

    /// The size of the step in half-steps: 1 or 2.
    pub fn half_steps(&self) -> (r: u8)
        ensures
            r == self.size(),
    {
        match self {
            IntervalStep::Half => 1,
            IntervalStep::Whole => 2,
        }
    }

    /// The step of a size in half-steps; fails unless the size is 1 or 2.
    pub fn from_half_steps(n: u8) -> (r: Result<IntervalStep, ()>)
        ensures
            n == 1 ==> r == Ok::<IntervalStep, ()>(IntervalStep::Half),
            n == 2 ==> r == Ok::<IntervalStep, ()>(IntervalStep::Whole),
            n != 1 && n != 2 ==> r is Err,
    {
        match n {
            1 => Ok(IntervalStep::Half),
            2 => Ok(IntervalStep::Whole),
            _ => Err(()),
        }
    }
}

/// The quality of an interval of diatonic number `number` spanning
/// `semitones` half-steps, within one octave; `None` off the table.
pub open spec fn quality_of(number: int, semitones: int) -> Option<IntervalQuality> {
    if number == 1 {
        if semitones == 0 {
            Some(IntervalQuality::Perfect)
        } else if semitones == 1 {
            Some(IntervalQuality::Augmented)
        } else {
            None
        }
    } else if number == 2 {
        if semitones == 0 {
            Some(IntervalQuality::Diminished)
        } else if semitones == 1 {
            Some(IntervalQuality::Minor)
        } else if semitones == 2 {
            Some(IntervalQuality::Major)
        } else if semitones == 3 {
            Some(IntervalQuality::Augmented)
        } else {
            None
        }
    } else if number == 3 {
        if semitones == 2 {
            Some(IntervalQuality::Diminished)
        } else if semitones == 3 {
            Some(IntervalQuality::Minor)
        } else if semitones == 4 {
            Some(IntervalQuality::Major)
        } else if semitones == 5 {
            Some(IntervalQuality::Augmented)
        } else {
            None
        }
    } else if number == 4 {
        if semitones == 4 {
            Some(IntervalQuality::Diminished)
        } else if semitones == 5 {
            Some(IntervalQuality::Perfect)
        } else if semitones == 6 {
            Some(IntervalQuality::Augmented)
        } else {
            None
        }
    } else if number == 5 {
        if semitones == 6 {
            Some(IntervalQuality::Diminished)
        } else if semitones == 7 {
            Some(IntervalQuality::Perfect)
        } else if semitones == 8 {
            Some(IntervalQuality::Augmented)
        } else {
            None
        }
    } else if number == 6 {
        if semitones == 7 {
            Some(IntervalQuality::Diminished)
        } else if semitones == 8 {
            Some(IntervalQuality::Minor)
        } else if semitones == 9 {
            Some(IntervalQuality::Major)
        } else if semitones == 10 {
            Some(IntervalQuality::Augmented)
        } else {
            None
        }
    } else if number == 7 {
        if semitones == 9 {
            Some(IntervalQuality::Diminished)
        } else if semitones == 10 {
            Some(IntervalQuality::Minor)
        } else if semitones == 11 {
            Some(IntervalQuality::Major)
        } else if semitones == 12 {
            Some(IntervalQuality::Augmented)
        } else {
            None
        }
    } else {
        None
    }
}

fn lookup_quality(number: i32, semitones: i32) -> (r: Option<IntervalQuality>)
    ensures
        r == quality_of(number as int, semitones as int),
{
    match number {
        1 => match semitones {
            0 => Some(IntervalQuality::Perfect),
            1 => Some(IntervalQuality::Augmented),
            _ => None,
        },
        2 => match semitones {
            0 => Some(IntervalQuality::Diminished),
            1 => Some(IntervalQuality::Minor),
            2 => Some(IntervalQuality::Major),
            3 => Some(IntervalQuality::Augmented),
            _ => None,
        },
        3 => match semitones {
            2 => Some(IntervalQuality::Diminished),
            3 => Some(IntervalQuality::Minor),
            4 => Some(IntervalQuality::Major),
            5 => Some(IntervalQuality::Augmented),
            _ => None,
        },
        4 => match semitones {
            4 => Some(IntervalQuality::Diminished),
            5 => Some(IntervalQuality::Perfect),
            6 => Some(IntervalQuality::Augmented),
            _ => None,
        },
        5 => match semitones {
            6 => Some(IntervalQuality::Diminished),
            7 => Some(IntervalQuality::Perfect),
            8 => Some(IntervalQuality::Augmented),
            _ => None,
        },
        6 => match semitones {
            7 => Some(IntervalQuality::Diminished),
            8 => Some(IntervalQuality::Minor),
            9 => Some(IntervalQuality::Major),
            10 => Some(IntervalQuality::Augmented),
            _ => None,
        },
        7 => match semitones {
            9 => Some(IntervalQuality::Diminished),
            10 => Some(IntervalQuality::Minor),
            11 => Some(IntervalQuality::Major),
            12 => Some(IntervalQuality::Augmented),
            _ => None,
        },
        _ => None,
    }
}

/// Absolute difference of two octave numbers.
pub open spec fn octave_span(lower: Pitch, upper: Pitch) -> int {
    let d = upper.octave - lower.octave;
    if d < 0 {
        -d
    } else {
        d
    }
}

/// The two pitches of `Interval::new(p1, p2)`, lower first: they are
/// swapped only when `p2` lies strictly below `p1`.
pub open spec fn ordered(p1: Pitch, p2: Pitch) -> (Pitch, Pitch) {
    if p2.height() < p1.height() {
        (p2, p1)
    } else {
        (p1, p2)
    }
}

/// Diatonic number of the interval from `v.0` up to `v.1`: the letter
/// distance plus one, with seven more for each octave apart unless the
/// octave is ignored.
pub open spec fn number_of(v: (Pitch, Pitch), ignore_octave: bool) -> int {
    let li = v.0.name.index();
    let ui = v.1.name.index();
    if ignore_octave {
        if ui < li {
            ui + 7 - li + 1
        } else {
            ui - li + 1
        }
    } else {
        ui - li + 1 + 7 * octave_span(v.0, v.1)
    }
}

/// Half-steps from `v.0` up to `v.1`; when the octave is ignored, a span of
/// more than 12 loses 12 for each octave apart.
pub open spec fn semitones_of(v: (Pitch, Pitch), ignore_octave: bool) -> int {
    let raw = v.1.height() - v.0.height();
    if ignore_octave && raw > 12 {
        raw - 12 * octave_span(v.0, v.1)
    } else {
        raw
    }
}

/// The quality of the interval from `v.0` up to `v.1`, octave ignored.
pub open spec fn interval_quality(v: (Pitch, Pitch)) -> Option<IntervalQuality> {
    quality_of(number_of(v, true), semitones_of(v, true))
}

/// The interval between two pitches, kept with the lower pitch first.
#[derive(Clone, Copy, Debug)]
pub struct Interval {
    lower: Pitch,
    upper: Pitch,
}

impl View for Interval {
    type V = (Pitch, Pitch);

    /// The lower and the upper pitch.
    closed spec fn view(&self) -> (Pitch, Pitch) {
        (self.lower, self.upper)
    }
}

impl Interval {
    #[verifier::type_invariant]
    spec fn lower_first(self) -> bool {
        self.lower.height() <= self.upper.height()
    }

    /// The interval between two pitches, kept in argument order unless `p2`
    /// lies strictly below `p1`, in which case they are swapped.
    pub fn new(p1: Pitch, p2: Pitch) -> (r: Interval)
        ensures
            r@ == ordered(p1, p2),
            r@.0.height() <= r@.1.height(),
    {
        if p2 < p1 {
            Interval { lower: p2, upper: p1 }
        } else {
            Interval { lower: p1, upper: p2 }
        }
    }

    fn octave_span_value(&self) -> (r: i32)
        ensures
            r == octave_span(self@.0, self@.1),
    {
        let d = self.upper.octave as i32 - self.lower.octave as i32;
        if d < 0 {
            -d
        } else {
            d
        }
    }

    fn number_value(&self, ignore_octave: bool) -> (r: i32)
        ensures
            r == number_of(self@, ignore_octave),
    {
        let lower_position = self.lower.name.position() as i32;
        let upper_position = self.upper.name.position() as i32;
        if ignore_octave {
            if upper_position < lower_position {
                upper_position + 7 - lower_position + 1
            } else {
                upper_position - lower_position + 1
            }
        } else {
            upper_position - lower_position + 1 + 7 * self.octave_span_value()
        }
    }

    fn semitone_value(&self, ignore_octave: bool) -> (r: i32)
        ensures
            r == semitones_of(self@, ignore_octave),
            r <= 3075,
            !ignore_octave ==> r >= 0,
    {
        proof {
            use_type_invariant(self);
        }
        let semitones = self.upper.half_steps() - self.lower.half_steps();
        if ignore_octave && semitones > 12 {
            semitones - 12 * self.octave_span_value()
        } else {
            semitones
        }
    }

    /// The diatonic number of the interval (3 for a third). Unless the octave
    /// is ignored, each octave between the pitches adds seven.
    pub fn get_number(&self, ignore_octave: bool) -> (r: u8)
        requires
            ignore_octave || 0 <= number_of(self@, false) <= 255,
        ensures
            r == number_of(self@, ignore_octave),
    {
        self.number_value(ignore_octave) as u8
    }

    /// The number of half-steps from the lower to the upper pitch. When the
    /// octave is ignored, a span of more than 12 loses 12 for each octave
    /// between the pitches.
    pub fn get_number_of_semitones(&self, ignore_octave: bool) -> (r: u16)
        requires
            ignore_octave ==> 0 <= semitones_of(self@, true),
        ensures
            r == semitones_of(self@, ignore_octave),
    {
        self.semitone_value(ignore_octave) as u16
    }

    /// The quality of the interval, read from its number and its span with
    /// the octave ignored; fails where the table has no entry.
    pub fn get_quality(&self) -> (r: Result<IntervalQuality, ()>)
        ensures
            r == (match interval_quality(self@) {
                Some(q) => Ok(q),
                None => Err(()),
            }),
    {
        match lookup_quality(self.number_value(true), self.semitone_value(true)) {
            Some(q) => Ok(q),
            None => Err(()),
        }
    }

    /// The number and the quality with the octave ignored, and whether the
    /// interval spans more than an octave; fails where the quality does.
    pub fn get_specific_interval(&self) -> (r: Result<(u8, IntervalQuality, bool), ()>)
        ensures
            interval_quality(self@) is None ==> r is Err,
            interval_quality(self@) matches Some(q) ==> r == Ok::<(u8, IntervalQuality, bool), ()>(
                (number_of(self@, true) as u8, q, semitones_of(self@, false) > 12),
            ),
    {
        let quality = match self.get_quality() {
            Ok(q) => q,
            Err(()) => return Err(()),
        };
        Ok((self.get_number(true), quality, self.get_number_of_semitones(false) > 12))
    }
}


/// The lowest span in half-steps that the quality table lists for a
/// diatonic number of 1..=7.
pub open spec fn lowest_span(number: int) -> int {
    if number <= 2 {
        0
    } else if number == 3 {
        2
    } else if number == 4 {
        4
    } else if number == 5 {
        6
    } else if number == 6 {
        7
    } else {
        9
    }
}

/// The highest span in half-steps that the quality table lists for a
/// diatonic number of 1..=7.
pub open spec fn highest_span(number: int) -> int {
    if number == 1 {
        1
    } else if number == 2 {
        3
    } else if number == 3 {
        5
    } else if number == 4 {
        6
    } else if number == 5 {
        8
    } else if number == 6 {
        10
    } else {
        12
    }
}

/// The order of the arguments of `Interval::new` does not change the span
/// in half-steps, with or without the octave; so where
/// `get_number_of_semitones` accepts one order it accepts the other and
/// gives the same count. Nor does the order change the pair of pitches,
/// the diatonic numbers or the quality, unless the two pitches are
/// different spellings of one height (`C#0` and `Db0`).
pub proof fn lemma_interval_symmetry(p1: Pitch, p2: Pitch)
    ensures
        semitones_of(ordered(p1, p2), false) == semitones_of(ordered(p2, p1), false),
        semitones_of(ordered(p1, p2), true) == semitones_of(ordered(p2, p1), true),
        0 <= semitones_of(ordered(p1, p2), true) <==> 0 <= semitones_of(ordered(p2, p1), true),
        p1.height() != p2.height() || p1 == p2 ==> {
            &&& ordered(p1, p2) == ordered(p2, p1)
            &&& number_of(ordered(p1, p2), false) == number_of(ordered(p2, p1), false)
            &&& number_of(ordered(p1, p2), true) == number_of(ordered(p2, p1), true)
            &&& interval_quality(ordered(p1, p2)) == interval_quality(ordered(p2, p1))
        },
{
}

/// For each diatonic number 1..=7 the quality table covers exactly one run
/// of consecutive spans, each with its own quality, so that the quality and
/// the number give the span back; off that run, and for any other number,
/// there is no quality.
pub proof fn lemma_quality_table(number: int, semitones: int, other: int)
    ensures
        quality_of(number, semitones) is Some <==> (1 <= number <= 7 && lowest_span(number)
            <= semitones <= highest_span(number)),
        quality_of(number, semitones) is Some && quality_of(number, semitones) == quality_of(
            number,
            other,
        ) ==> semitones == other,
{
}

} // verus!
