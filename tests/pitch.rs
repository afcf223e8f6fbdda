use forme::pitch::{Accidental, Pitch, PitchName};

#[test]
fn pitch_test_zero_octave() {
    // From a coordinate (one octave spans 6.0) to a pitch.
    assert_eq!(Pitch::from_half_steps((0.0f32 * 2.0) as i32).unwrap(), Pitch::new_without_accidental(PitchName::C, 0));
    assert_eq!(Pitch::from_half_steps((1.0f32 * 2.0) as i32).unwrap(), Pitch::new_without_accidental(PitchName::D, 0));
    assert_eq!(Pitch::from_half_steps((2.0f32 * 2.0) as i32).unwrap(), Pitch::new_without_accidental(PitchName::E, 0));
    assert_eq!(Pitch::from_half_steps((2.5f32 * 2.0) as i32).unwrap(), Pitch::new_without_accidental(PitchName::F, 0));
    assert_eq!(Pitch::from_half_steps((3.5f32 * 2.0) as i32).unwrap(), Pitch::new_without_accidental(PitchName::G, 0));
    assert_eq!(Pitch::from_half_steps((4.5f32 * 2.0) as i32).unwrap(), Pitch::new_without_accidental(PitchName::A, 0));
    assert_eq!(Pitch::from_half_steps((5.5f32 * 2.0) as i32).unwrap(), Pitch::new_without_accidental(PitchName::B, 0));
    // From a pitch to its coordinate.
    assert_eq!(Pitch::new_without_accidental(PitchName::C, 0).half_steps() as f32 / 2.0, 0.0);
    assert_eq!(Pitch::new_without_accidental(PitchName::D, 0).half_steps() as f32 / 2.0, 1.0);
    assert_eq!(Pitch::new_without_accidental(PitchName::E, 0).half_steps() as f32 / 2.0, 2.0);
    assert_eq!(Pitch::new_without_accidental(PitchName::F, 0).half_steps() as f32 / 2.0, 2.5);
    assert_eq!(Pitch::new_without_accidental(PitchName::G, 0).half_steps() as f32 / 2.0, 3.5);
    assert_eq!(Pitch::new_without_accidental(PitchName::A, 0).half_steps() as f32 / 2.0, 4.5);
    assert_eq!(Pitch::new_without_accidental(PitchName::B, 0).half_steps() as f32 / 2.0, 5.5);
}

#[test]
fn pitch_test_other_octaves() {
    assert_eq!(Pitch::from_half_steps((6.0f32 * 2.0) as i32).unwrap(), Pitch::new_without_accidental(PitchName::C, 1));
    assert_eq!(Pitch::from_half_steps((7.0f32 * 2.0) as i32).unwrap(), Pitch::new_without_accidental(PitchName::D, 1));
    assert_eq!(Pitch::from_half_steps((8.0f32 * 2.0) as i32).unwrap(), Pitch::new_without_accidental(PitchName::E, 1));
    assert_eq!(Pitch::from_half_steps((8.5f32 * 2.0) as i32).unwrap(), Pitch::new_without_accidental(PitchName::F, 1));
    assert_eq!(Pitch::from_half_steps((9.5f32 * 2.0) as i32).unwrap(), Pitch::new_without_accidental(PitchName::G, 1));
    assert_eq!(Pitch::from_half_steps((10.5f32 * 2.0) as i32).unwrap(), Pitch::new_without_accidental(PitchName::A, 1));
    assert_eq!(Pitch::from_half_steps((11.5f32 * 2.0) as i32).unwrap(), Pitch::new_without_accidental(PitchName::B, 1));
    assert_eq!(Pitch::new_without_accidental(PitchName::C, 1).half_steps() as f32 / 2.0, 6.0);
    assert_eq!(Pitch::new_without_accidental(PitchName::D, 1).half_steps() as f32 / 2.0, 7.0);
    assert_eq!(Pitch::new_without_accidental(PitchName::E, 1).half_steps() as f32 / 2.0, 8.0);
    assert_eq!(Pitch::new_without_accidental(PitchName::F, 1).half_steps() as f32 / 2.0, 8.5);
    assert_eq!(Pitch::new_without_accidental(PitchName::G, 1).half_steps() as f32 / 2.0, 9.5);
    assert_eq!(Pitch::new_without_accidental(PitchName::A, 1).half_steps() as f32 / 2.0, 10.5);
    assert_eq!(Pitch::new_without_accidental(PitchName::B, 1).half_steps() as f32 / 2.0, 11.5);
}

#[test]
fn test_with_accidentals() {
    assert_eq!(Pitch::new(PitchName::C, 0, Accidental::Sharp).half_steps() as f32 / 2.0, 0.5);
    assert_eq!(Pitch::new(PitchName::C, 0, Accidental::Flat).half_steps() as f32 / 2.0, -0.5);
    assert_eq!(Pitch::new(PitchName::C, 0, Accidental::DoubleSharp).half_steps() as f32 / 2.0, 1.0);
    assert_eq!(Pitch::new(PitchName::C, 0, Accidental::DoubleFlat).half_steps() as f32 / 2.0, -1.0);
}

#[test]
fn test_eq_the_same() {
    let pitch1 = Pitch::new_without_accidental(PitchName::C, 0);
    let pitch2 = Pitch::new_without_accidental(PitchName::C, 0);
    assert_eq!(pitch1, pitch2);
    let pitch1 = Pitch::new_without_accidental(PitchName::C, 1);
    let pitch2 = Pitch::new_without_accidental(PitchName::C, 1);
    assert_eq!(pitch1, pitch2);
}

#[test]
fn test_eq_different_accidental() {
    let pitch1 = Pitch::new(PitchName::C, 0, Accidental::Sharp);
    let pitch2 = Pitch::new(PitchName::D, 0, Accidental::Flat);
    assert_eq!(pitch1, pitch2);
    let pitch1 = Pitch::new(PitchName::C, 1, Accidental::Sharp);
    let pitch2 = Pitch::new(PitchName::D, 1, Accidental::Flat);
    assert_eq!(pitch1, pitch2);
}

#[test]
fn test_ne() {
    let pitch1 = Pitch::new_without_accidental(PitchName::C, 0);
    let pitch2 = Pitch::new_without_accidental(PitchName::D, 0);
    assert_ne!(pitch1, pitch2);
    let pitch1 = Pitch::new_without_accidental(PitchName::C, 0);
    let pitch2 = Pitch::new_without_accidental(PitchName::C, 1);
    assert_ne!(pitch1, pitch2);
}

#[test]
fn test_a4() {
    let pitch = Pitch::new_without_accidental(PitchName::A, 4);
    let hertz = 440.0 * 2.0_f32.powf(pitch.semitones_from_a4() as f32 / 12.0);
    assert_eq!(hertz, 440.0);
}

#[test]
fn test_a3() {
    let pitch = Pitch::new_without_accidental(PitchName::A, 3);
    let hertz = 440.0 * 2.0_f32.powf(pitch.semitones_from_a4() as f32 / 12.0);
    assert_eq!(hertz, 220.0);
}

#[test]
fn test_c4() {
    let pitch = Pitch::new_without_accidental(PitchName::C, 4);
    let hertz = 440.0 * 2.0_f32.powf(pitch.semitones_from_a4() as f32 / 12.0);
    assert!(hertz - 261.62 < 0.01);
    assert_eq!(pitch.semitones_from_a4(), -9);
}

#[test]
fn test_a4_accidentals() {
    let hertz = |p: Pitch| 440.0 * 2.0_f32.powf(p.semitones_from_a4() as f32 / 12.0);
    assert!(hertz(Pitch::new(PitchName::A, 4, Accidental::Sharp)) - 466.16 < 0.01);
    assert!(hertz(Pitch::new(PitchName::A, 4, Accidental::Flat)) - 415.30 < 0.01);
    assert!(hertz(Pitch::new(PitchName::A, 4, Accidental::DoubleSharp)) - 493.88 < 0.01);
    assert!(hertz(Pitch::new(PitchName::A, 4, Accidental::DoubleFlat)) - 391.99 < 0.01);
}

#[test]
fn test_a_minus1() {
    let pitch = Pitch::new_without_accidental(PitchName::A, -1);
    let hertz = 440.0 * 2.0_f32.powf(pitch.semitones_from_a4() as f32 / 12.0);
    assert!(hertz - 13.75 < 0.01);
    assert_eq!(pitch.semitones_from_a4(), -60);
}

#[test]
fn test_cmp() {
    let pitch1 = Pitch::new_without_accidental(PitchName::C, 0);
    let pitch2 = Pitch::new_without_accidental(PitchName::C, 0);
    assert!(pitch1 <= pitch2);
    assert!(pitch2 <= pitch1);

    let pitch1 = Pitch::new_without_accidental(PitchName::C, 0);
    let pitch2 = Pitch::new_without_accidental(PitchName::D, 0);
    assert!(pitch1 < pitch2);
    assert!(pitch2 > pitch1);
}

#[test]
fn test_display() {
    let pitch = Pitch::new_without_accidental(PitchName::C, 0);
    assert_eq!(pitch.to_string(), "C0");
    let pitch = Pitch::new_without_accidental(PitchName::C, 1);
    assert_eq!(pitch.to_string(), "C1");
    let pitch = Pitch::new(PitchName::C, 0, Accidental::Sharp);
    assert_eq!(pitch.to_string(), "C#0");
    let pitch = Pitch::new(PitchName::C, 0, Accidental::Flat);
    assert_eq!(pitch.to_string(), "Cb0");
    let pitch = Pitch::new(PitchName::C, 0, Accidental::DoubleSharp);
    assert_eq!(pitch.to_string(), "C##0");
    let pitch = Pitch::new(PitchName::C, 0, Accidental::DoubleFlat);
    assert_eq!(pitch.to_string(), "Cbb0");
}

#[test]
fn test_c0() {
    let pitch = Pitch::try_from("C0".to_string()).unwrap();
    assert_eq!(pitch, Pitch::new_without_accidental(PitchName::C, 0));
}

#[test]
fn test_c1() {
    let pitch = Pitch::try_from("C1".to_string()).unwrap();
    assert_eq!(pitch, Pitch::new_without_accidental(PitchName::C, 1));
}

#[test]
fn test_c0_sharp() {
    let pitch = Pitch::try_from("C#0".to_string()).unwrap();
    assert_eq!(pitch, Pitch::new(PitchName::C, 0, Accidental::Sharp));
}

#[test]
fn test_c0_flat() {
    let pitch = Pitch::try_from("Cb0".to_string()).unwrap();
    assert_eq!(pitch, Pitch::new(PitchName::C, 0, Accidental::Flat));
}

#[test]
fn test_c0_double_sharp() {
    let pitch = Pitch::try_from("C##0".to_string()).unwrap();
    assert_eq!(pitch, Pitch::new(PitchName::C, 0, Accidental::DoubleSharp));
}

#[test]
fn test_c0_double_flat() {
    let pitch = Pitch::try_from("Cbb0".to_string()).unwrap();
    assert_eq!(pitch, Pitch::new(PitchName::C, 0, Accidental::DoubleFlat));
}

#[test]
fn pitch_test_in_the_same_octave() {
    let pitch = Pitch::new_without_accidental(PitchName::C, 0);
    let pitches = vec![
        Pitch::new(PitchName::C, 0, Accidental::Sharp),
        Pitch::new_without_accidental(PitchName::D, 0),
        Pitch::new_without_accidental(PitchName::E, 0),
        Pitch::new_without_accidental(PitchName::F, 0),
        Pitch::new_without_accidental(PitchName::G, 0),
        Pitch::new_without_accidental(PitchName::A, 0),
        Pitch::new_without_accidental(PitchName::B, 0),
    ];
    assert_eq!(pitch.get_the_nearest_pitch(pitches), Pitch::new(PitchName::C, 0, Accidental::Sharp));
}

#[test]
fn pitch_test_in_different_octave() {
    let pitch = Pitch::new_without_accidental(PitchName::C, 1);
    let pitches = vec![
        Pitch::new_without_accidental(PitchName::C, 0),
        Pitch::new_without_accidental(PitchName::D, 0),
        Pitch::new_without_accidental(PitchName::E, 0),
        Pitch::new_without_accidental(PitchName::F, 0),
        Pitch::new_without_accidental(PitchName::G, 0),
        Pitch::new_without_accidental(PitchName::A, 0),
        Pitch::new_without_accidental(PitchName::B, 0),
    ];
    assert_eq!(pitch.get_the_nearest_pitch(pitches), Pitch::new_without_accidental(PitchName::B, 0));
}

#[test]
fn test_the_nearest_is_self() {
    let pitch = Pitch::new_without_accidental(PitchName::C, 0);
    let pitches = vec![
        Pitch::new_without_accidental(PitchName::C, 0),
        Pitch::new_without_accidental(PitchName::D, 0),
        Pitch::new_without_accidental(PitchName::E, 0),
        Pitch::new_without_accidental(PitchName::F, 0),
        Pitch::new_without_accidental(PitchName::G, 0),
        Pitch::new_without_accidental(PitchName::A, 0),
        Pitch::new_without_accidental(PitchName::B, 0),
    ];
    assert_eq!(pitch.get_the_nearest_pitch(pitches), Pitch::new_without_accidental(PitchName::C, 0));
}

#[test]
fn test_empty_pitches() {
    let pitch = Pitch::new_without_accidental(PitchName::C, 0);
    let pitches = vec![];
    assert_eq!(pitch.get_the_nearest_pitch(pitches), Pitch::new_without_accidental(PitchName::C, 0));
}
