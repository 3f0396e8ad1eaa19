use chord_romanizer::speller::{
    calc_degree_base, degree_from_spelling, simplify_spelling, spell_degree_note,
};
use chord_romanizer::structure::{
    aug_triad_pitch_classes, formula, formula_intervals, intervals, is_aug_quality,
    is_diminished_for, is_dominant_for, is_dominant_quality, is_inversion, is_inversion_for,
    is_minor_for, is_minor_quality, is_tonic_for, is_tonic_quality, spelled_tones,
    spelled_tones_for,
};
use chord_romanizer::{
    BehaviorProfile, ChordDegree, Degree, NoteLetter, ParsedChord, ParsedSymbol, RomanDegree,
    SpelledNote, parse_chord,
};
use std::collections::HashSet;

fn note(value: &str) -> SpelledNote {
    SpelledNote::parse(value).unwrap()
}

fn chord(symbol: &str) -> ParsedChord {
    match parse_chord(symbol).unwrap() {
        ParsedSymbol::Chord(chord) => chord,
        ParsedSymbol::NoChord { .. } | ParsedSymbol::Boundary { .. } => {
            panic!("expected chord: {symbol}")
        }
    }
}

#[test]
fn default_degree_ties_prefer_flats() {
    assert_eq!(calc_degree_base(1, None).to_string(), "bII");
    assert_eq!(calc_degree_base(3, None).to_string(), "bIII");
    assert_eq!(calc_degree_base(8, None).to_string(), "bVI");
}

#[test]
fn spelling_round_trip_preserves_degree() {
    for tonic in [note("C"), note("Gb"), note("G#"), note("Fb")] {
        for degree in [
            Degree::new(0, RomanDegree::I),
            Degree::new(-1, RomanDegree::Iii),
            Degree::new(1, RomanDegree::Iv),
            Degree::new(0, RomanDegree::Vii),
        ] {
            let spelled = spell_degree_note(degree, tonic);
            assert_eq!(degree_from_spelling(spelled, tonic), degree);
        }
    }
}

#[test]
fn simplifies_double_accidentals_without_changing_pitch() {
    for value in ["F##", "Bbb", "C###", "Abb"] {
        let original = note(value);
        let simplified = simplify_spelling(original);
        assert_eq!(original.pitch_class(), simplified.pitch_class());
        assert!(simplified.accidental.unsigned_abs() < 2);
    }
}

#[test]
fn degree_spelling_round_trips_exhaustively_in_supported_range() {
    for tonic_letter in NoteLetter::ALL {
        for tonic_accidental in -2..=2 {
            let tonic = SpelledNote::new(tonic_letter, tonic_accidental);
            for degree in RomanDegree::ALL {
                for degree_accidental in -2..=2 {
                    let expected = Degree::new(degree_accidental, degree);
                    let note = spell_degree_note(expected, tonic);
                    assert_eq!(
                        degree_from_spelling(note, tonic),
                        expected,
                        "round trip failed: tonic={tonic:?}, degree={expected:?}, note={note:?}"
                    );
                }
            }
        }
    }
}

#[test]
fn recognizes_supported_formulas() {
    assert_eq!(intervals("m7-5"), HashSet::from([0, 3, 6, 10]));
    assert_eq!(intervals("M7"), HashSet::from([0, 4, 7, 11]));
    assert_eq!(intervals("7"), HashSet::from([0, 4, 7, 10]));
}

#[test]
fn spells_minor_inversion_tones() {
    let tones = spelled_tones(note("D#"), "m");
    assert_eq!(tones[&note("F#").pitch_class().value()].to_string(), "F#");
}

#[test]
fn altered_tensions_create_only_the_written_pitch_classes() {
    let parsed = chord("C7(b9,#11)");
    let formula = formula(&parsed, BehaviorProfile::StrictV1).unwrap();
    let mut semitones: Vec<_> = formula
        .tones
        .iter()
        .map(|tone| tone.semitones.rem_euclid(12))
        .collect();
    semitones.sort_unstable();
    assert_eq!(semitones, [0, 1, 4, 6, 7, 10]);
    assert!(
        !formula
            .tones
            .iter()
            .any(|tone| { tone.degree == ChordDegree::Ninth && tone.alteration == 0 })
    );
}

#[test]
fn diminished_formulas_spell_by_degree() {
    let diminished = chord("Cdim/Gb");
    let tones = spelled_tones_for(&diminished, note("C"), BehaviorProfile::StrictV1);
    assert_eq!(tones[&note("Gb").pitch_class().value()].to_string(), "Gb");
    assert_eq!(tones[&note("Eb").pitch_class().value()].to_string(), "Eb");
    assert_eq!(tones.len(), 3);

    let diminished_seventh = chord("Cdim7");
    let mut intervals: Vec<_> = formula(&diminished_seventh, BehaviorProfile::StrictV1)
        .unwrap()
        .tones
        .iter()
        .map(|tone| tone.semitones.rem_euclid(12))
        .collect();
    intervals.sort_unstable();
    assert_eq!(intervals, [0, 3, 6, 9]);
}

#[test]
fn unknown_quality_has_no_strict_formula() {
    let unknown = chord("Cfoobar/E");
    assert!(formula(&unknown, BehaviorProfile::StrictV1).is_none());
    assert!(formula_intervals(&unknown, BehaviorProfile::StrictV1).is_none());
    assert!(!is_inversion_for(&unknown, BehaviorProfile::StrictV1));
    assert!(spelled_tones_for(&unknown, note("C"), BehaviorProfile::StrictV1).is_empty());
    // The legacy profile reads substrings: the `o` of `foobar` means dim,
    // and text with no recognized substring falls back to a major triad.
    assert_eq!(
        formula_intervals(&unknown, BehaviorProfile::Python019),
        Some(HashSet::from([0, 3, 6]))
    );
    assert!(!is_inversion_for(&unknown, BehaviorProfile::Python019));
    let other = chord("Cqz/E");
    assert!(formula(&other, BehaviorProfile::StrictV1).is_none());
    assert_eq!(
        formula_intervals(&other, BehaviorProfile::Python019),
        Some(HashSet::from([0, 4, 7]))
    );
    assert!(is_inversion_for(&other, BehaviorProfile::Python019));
}

#[test]
fn inversion_requires_a_chord_tone_in_the_bass() {
    assert!(is_inversion_for(&chord("E/G#"), BehaviorProfile::StrictV1));
    assert!(is_inversion_for(&chord("Caug/G#"), BehaviorProfile::StrictV1));
    assert!(!is_inversion_for(&chord("F/G"), BehaviorProfile::StrictV1));
    assert!(!is_inversion_for(&chord("C"), BehaviorProfile::StrictV1));
    assert!(is_inversion(note("C"), note("Bb"), "7"));
    assert!(!is_inversion(note("C"), note("D"), "7"));
}

#[test]
fn omissions_and_additions_shape_the_formula() {
    assert_eq!(
        formula_intervals(&chord("C7sus4(omit5)"), BehaviorProfile::StrictV1),
        Some(HashSet::from([0, 5, 10]))
    );
    assert_eq!(
        formula_intervals(&chord("Cadd9"), BehaviorProfile::StrictV1),
        Some(HashSet::from([0, 2, 4, 7]))
    );
    assert_eq!(
        formula_intervals(&chord("C5"), BehaviorProfile::StrictV1),
        Some(HashSet::from([0, 7]))
    );
}

#[test]
fn strict_and_legacy_classifications() {
    let strict = BehaviorProfile::StrictV1;
    let legacy = BehaviorProfile::Python019;
    assert!(is_dominant_for(&chord("G7"), strict));
    assert!(is_dominant_for(&chord("G7sus4"), strict));
    assert!(!is_dominant_for(&chord("Gm7"), strict));
    assert!(!is_dominant_for(&chord("GM7"), strict));
    assert!(is_tonic_for(&chord("C"), strict));
    assert!(is_tonic_for(&chord("Am"), strict));
    assert!(!is_tonic_for(&chord("Cdim"), strict));
    assert!(is_tonic_for(&chord("Cdim"), legacy));
    assert!(is_minor_for(&chord("Bm7-5"), strict));
    assert!(is_minor_for(&chord("Bm7-5"), legacy));
    assert!(!is_minor_for(&chord("Cdim"), legacy));
    assert!(is_diminished_for(&chord("Bm7b5"), strict));
    assert!(is_diminished_for(&chord("Bm7b5"), legacy));
    assert!(!is_diminished_for(&chord("Bm7"), strict));
}

#[test]
fn legacy_quality_predicates() {
    assert!(is_dominant_quality("7"));
    assert!(is_dominant_quality("dim7"));
    assert!(!is_dominant_quality("m7"));
    assert!(!is_dominant_quality("maj7"));
    assert!(!is_dominant_quality("M7"));
    assert!(is_tonic_quality("maj7"));
    assert!(!is_tonic_quality("7"));
    assert!(is_minor_quality("m7"));
    assert!(!is_minor_quality("maj7"));
    assert!(!is_minor_quality("dim"));
    assert!(is_aug_quality("aug"));
    assert!(is_aug_quality("AUG7"));
    assert!(is_aug_quality("+"));
    assert!(!is_aug_quality("7"));
}

#[test]
fn augmented_triad_is_symmetric() {
    assert_eq!(aug_triad_pitch_classes(note("C")), HashSet::from([0, 4, 8]));
    assert_eq!(aug_triad_pitch_classes(note("E")), aug_triad_pitch_classes(note("G#")));
    assert_eq!(aug_triad_pitch_classes(note("A")), HashSet::from([9, 1, 5]));
}

#[test]
fn legacy_spelling_keeps_seventh_letters() {
    let tones = spelled_tones(note("G"), "7");
    let rendered: HashSet<String> = tones.values().map(|n| n.to_string()).collect();
    assert_eq!(
        rendered,
        HashSet::from(["G".to_string(), "B".to_string(), "D".to_string(), "F".to_string()])
    );
    let tones = spelled_tones_for(&chord("Cm7"), note("C"), BehaviorProfile::Python019);
    assert_eq!(tones[&3].to_string(), "Eb");
    assert_eq!(tones[&10].to_string(), "Bb");
}
