use vstd::prelude::*;
use vstd::arithmetic::power2::{pow2, lemma_pow2_unfold, lemma_pow2_strictly_increases, lemma2_to64, lemma2_to64_rest};
use crate::interval::{Interval, ordered, semitones_of};
use crate::pitch::{Pitch, parse_text};

verus! {

/// What `stringcase::snake_case` makes of a text.
pub uninterp spec fn snake_case_of(s: Seq<char>) -> Seq<char>;

/// Relies on `stringcase::snake_case` for the folder name of an instrument;
/// its result depends on the characters of the input alone.
#[verifier::external_body]
fn snake_case(s: &str) -> (r: String)
    ensures
        r@ == snake_case_of(s@),
{
    stringcase::snake_case(s)
}

/// The folder that holds the sample folders of all instruments.
pub open spec fn samples_root() -> Seq<char> {
    "./resources/samples/"@
}

/// The file extension of a sample.
pub open spec fn sample_extension() -> Seq<char> {
    ".flac"@
}

/// A sampled instrument.
#[derive(Clone, Copy, Debug, PartialEq, Eq, Structural)]
pub enum Instrument {
    SalamanderGrandPiano,
}

impl Instrument {
    /// The name of the instrument.
    pub open spec fn display_name(self) -> Seq<char> {
        match self {
            Instrument::SalamanderGrandPiano => "SalamanderGrandPiano"@,
        }
    }

    /// The folder of the instrument's samples.
    pub open spec fn folder(self) -> Seq<char> {
        samples_root() + snake_case_of(self.display_name())
    }

    /// The name of the instrument, such as `SalamanderGrandPiano`.
    pub fn to_string(&self) -> (r: String)
        ensures
            r@ == self.display_name(),
    {
        match self {
            Instrument::SalamanderGrandPiano => String::from_str("SalamanderGrandPiano"),
        }
    }

    /// The folder of the instrument's samples: the samples root followed by
    /// the snake-case name (`salamander_grand_piano`).
    pub fn sample_folder_path(&self) -> (r: String)
        ensures
            r@ == self.folder(),
    {
        let name = self.to_string();
        let folder = snake_case(name.as_str());
        let mut r = String::from_str("./resources/samples/");
        r.append(folder.as_str());
        r
    }

    /// The file of the instrument's sample of a pitch: `<folder>/<text>.flac`.
    pub fn sample_file_path(&self, pitch: &Pitch) -> (r: String)
        ensures
            r@ == self.folder() + "/"@ + pitch.text() + sample_extension(),
    {
        let mut r = self.sample_folder_path();
        r.append("/");
        let text = pitch.to_string();
        r.append(text.as_str());
        r.append(".flac");
        r
    }
}

/// Why a sample could not be made.
#[derive(Clone, Copy, Debug, PartialEq, Eq, Structural)]
pub enum SampleError {
    /// The instrument has no sample folder.
    AssetDirectoryNotFound,
    /// A sample file is not named by the text of a pitch.
    MalformedSampleName,
    /// The sample has more than two channels.
    UnsupportedChannelLayout,
    /// The sample could not be decoded.
    DecodeFailure,
    /// The audio output failed.
    PlaybackFailure,
}

/// Whether every name is the text of a pitch.
pub open spec fn all_pitch_names(names: Seq<String>) -> bool {
    forall|i: int| 0 <= i < names.len() ==> (#[trigger] parse_text(names[i]@)) is Some
}

/// The pitches that the names write, where every name writes one.
pub open spec fn named_pitches(names: Seq<String>) -> Seq<Pitch> {
    names.map_values(|n: String| parse_text(n@)->Some_0)
}

/// Reads the pitch of each sample name; fails if any name is not the text
/// of a pitch.
pub fn parse_sample_names(names: &Vec<String>) -> (r: Result<Vec<Pitch>, SampleError>)
    ensures
        all_pitch_names(names@) ==> (r matches Ok(ps) && ps@ == named_pitches(names@)),
        !all_pitch_names(names@) ==> r == Err::<Vec<Pitch>, SampleError>(
            SampleError::MalformedSampleName,
        ),
{
    let mut pitches: Vec<Pitch> = Vec::new();
    let mut i: usize = 0;
    while i < names.len()
        invariant
            0 <= i <= names@.len(),
            all_pitch_names(names@.take(i as int)),
            pitches@ == named_pitches(names@.take(i as int)),
        decreases names@.len() - i,
    {
        match Pitch::parse(names[i].as_str()) {
            Ok(p) => {
                pitches.push(p);
            },
            Err(()) => {
                return Err(SampleError::MalformedSampleName);
            },
        }
        proof {
            assert(names@.take(i + 1) =~= names@.take(i as int).push(names@[i as int]));
            assert(named_pitches(names@.take(i + 1)) =~= pitches@);
        }
        i += 1;
    }
    assert(names@.take(i as int) =~= names@);
    Ok(pitches)
}

/// The sample to play for a requested pitch, and the signed shift in
/// half-steps that brings it to the requested pitch (positive: up).
///
/// With a sample of the requested pitch itself, that sample and no shift.
/// Otherwise the pitch of each sample name is read, and the nearest is
/// taken (of several at one distance, the first in `names`); no name gives
/// the requested pitch and no shift. A name that is not the text of a
/// pitch fails the whole resolution.
pub fn resolve_sample(requested: &Pitch, exact_available: bool, names: &Vec<String>) -> (r: Result<
    (Pitch, i32),
    SampleError,
>)
    ensures
        exact_available ==> r == Ok::<(Pitch, i32), SampleError>((*requested, 0)),
        !exact_available && !all_pitch_names(names@) ==> r == Err::<(Pitch, i32), SampleError>(
            SampleError::MalformedSampleName,
        ),
        !exact_available && all_pitch_names(names@) ==> (r matches Ok((chosen, shift)) && {
            &&& shift == requested.height() - chosen.height()
            &&& names@.len() == 0 ==> chosen == *requested
            &&& names@.len() > 0 ==> exists|i: int|
                requested.is_first_nearest(named_pitches(names@), i) && chosen == named_pitches(
                    names@,
                )[i]
        }),
{
    if exact_available {
        return Ok((*requested, 0));
    }
    let pitches = match parse_sample_names(names) {
        Ok(ps) => ps,
        Err(e) => return Err(e),
    };
    let chosen = requested.get_the_nearest_pitch(pitches);
    let steps = Interval::new(*requested, chosen).get_number_of_semitones(false) as i32;
    assert(steps == semitones_of(ordered(*requested, chosen), false));
    let shift = if chosen < *requested {
        steps
    } else {
        -steps
    };
    Ok((chosen, shift))
}

/// Every other sample, from the first: the first channel of interleaved
/// stereo samples.
pub open spec fn even_indexed(s: Seq<i32>) -> Seq<i32> {
    Seq::new(((s.len() + 1) / 2) as nat, |k: int| s[2 * k])
}

/// The samples of one channel: stereo samples keep their even-indexed
/// (first-channel) samples only; mono samples stay as they are; more than
/// two channels fail.
pub fn mono_samples(samples: Vec<i32>, channels: u32) -> (r: Result<Vec<i32>, SampleError>)
    ensures
        channels > 2 ==> r == Err::<Vec<i32>, SampleError>(SampleError::UnsupportedChannelLayout),
        channels == 2 ==> (r matches Ok(m) && m@ == even_indexed(samples@)),
        channels < 2 ==> (r matches Ok(m) && m@ == samples@),
{
    if channels > 2 {
        return Err(SampleError::UnsupportedChannelLayout);
    }
    if channels < 2 {
        return Ok(samples);
    }
    let mut kept: Vec<i32> = Vec::new();
    let mut i: usize = 0;
    while i < samples.len()
        invariant
            0 <= i <= samples@.len(),
            kept@.len() == (i + 1) / 2,
            forall|k: int| 0 <= k < kept@.len() ==> kept@[k] == samples@[2 * k],
        decreases samples@.len() - i,
    {
        if i % 2 == 0 {
            kept.push(samples[i]);
        }
        i += 1;
    }
    assert(kept@ =~= even_indexed(samples@));
    Ok(kept)
}


/// The divisor that brings integer samples of `bits_per_sample` bits into
/// the range -1.0..=1.0: `2^bits / 2 - 1`.
pub fn normalization_divisor(bits_per_sample: u32) -> (r: u64)
    requires
        1 <= bits_per_sample <= 64,
    ensures
        r == pow2(bits_per_sample as nat) / 2 - 1,
{
    let mut half: u64 = 1;
    let mut i: u32 = 1;
    proof {
        lemma2_to64();
    }
    while i < bits_per_sample
        invariant
            1 <= i <= bits_per_sample <= 64,
            half == pow2((i - 1) as nat),
            1 <= half <= 0x8000_0000_0000_0000,
        decreases bits_per_sample - i,
    {
        proof {
            lemma2_to64_rest();
            lemma_pow2_unfold(i as nat);
            if i < 63 {
                lemma_pow2_strictly_increases(i as nat, 63);
            }
        }
        half = half * 2;
        i += 1;
    }
    proof {
        lemma_pow2_unfold(bits_per_sample as nat);
    }
    half - 1
}

} // verus!
