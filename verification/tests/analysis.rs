use chord_romanizer::analysis::blackadder::{analyze_blackadder, transition_score};
use chord_romanizer::structure::spelled_tones_for;
use chord_romanizer::{
    BehaviorProfile, BlackadderContext, BlackadderFunction, BlackadderInterpretation,
    BlackadderObservations, BlackadderOrigin, BlackadderStructure, ChordInterpreter,
    FunctionalRole, HarmonicRole, HybridKind, InterpretationFamily, ParsedChord, ParsedSymbol,
    SlashClassification, SpelledNote, TritoneSpelling, parse_chord,
};

fn chord(symbol: &str) -> ParsedChord {
    match parse_chord(symbol).unwrap() {
        ParsedSymbol::Chord(chord) => chord,
        ParsedSymbol::NoChord { .. } | ParsedSymbol::Boundary { .. } => {
            panic!("expected chord: {symbol}")
        }
    }
}

fn note(value: &str) -> SpelledNote {
    SpelledNote::parse(value).unwrap()
}

/// Scores are kept in hundredths of a point.
fn points(hundredths: i64) -> f64 {
    hundredths as f64 / 100.0
}

#[test]
fn distinguishes_inversion_and_sus_hybrid() {
    let interpreter = ChordInterpreter::default();
    assert!(
        !interpreter
            .analyze_slash_chord(&chord("E/G#"), None)
            .is_hybrid
    );
    let hybrid = interpreter.analyze_slash_chord(&chord("F/G"), None);
    assert!(hybrid.is_hybrid);
    assert_eq!(hybrid.kind, HybridKind::SusFourNine);
    assert_eq!(hybrid.alter.as_deref(), Some("G9sus4"));
}

#[test]
fn augmented_and_diminished_formulas_drive_inversion_and_spelling() {
    let interpreter = ChordInterpreter::new(BehaviorProfile::StrictV1);
    let augmented = chord("Caug/G#");
    let analysis = interpreter.analyze_slash_chord(&augmented, None);
    assert_eq!(
        analysis.slash_classification,
        SlashClassification::Inversion
    );

    let diminished = chord("Cdim/Gb");
    let tones = spelled_tones_for(
        &diminished,
        SpelledNote::parse("C").unwrap(),
        BehaviorProfile::StrictV1,
    );
    assert_eq!(
        tones[&SpelledNote::parse("Gb").unwrap().pitch_class().value()].to_string(),
        "Gb"
    );

    let diminished_seventh = chord("Cdim7");
    let mut intervals: Vec<_> =
        chord_romanizer::structure::formula(&diminished_seventh, BehaviorProfile::StrictV1)
            .unwrap()
            .tones
            .iter()
            .map(|tone| tone.semitones.rem_euclid(12))
            .collect();
    intervals.sort_unstable();
    assert_eq!(intervals, [0, 3, 6, 9]);
}

#[test]
fn unknown_quality_does_not_fall_back_to_major_triad() {
    let unknown = chord("Cfoobar/E");
    assert!(chord_romanizer::structure::formula(&unknown, BehaviorProfile::StrictV1).is_none());
    let analysis =
        ChordInterpreter::new(BehaviorProfile::StrictV1).analyze_slash_chord(&unknown, None);
    assert_eq!(
        analysis.slash_classification,
        SlashClassification::Indeterminate
    );
}

#[test]
fn exact_shape_produces_independent_structural_readings() {
    let input = chord("Daug/C");
    let readings = analyze_blackadder(
        &input,
        BlackadderContext::default(),
        BehaviorProfile::StrictV1,
    );
    assert!(readings.iter().any(|reading| {
        matches!(
            reading.interpretation.structure,
            BlackadderStructure::DominantNinthOmitThirdAndFifth { .. }
        )
    }));
    assert!(readings.iter().any(|reading| {
        reading.interpretation.structure == BlackadderStructure::HalfDiminishedAddNineOmitThird
    }));
    assert!(readings.iter().any(|reading| {
        reading.interpretation.structure == BlackadderStructure::AugmentedSeventhThirdInversion
    }));
    assert!(readings.iter().any(|reading| {
        reading.interpretation.structure == BlackadderStructure::WholeToneSubset
    }));
}

#[test]
fn midi_style_observation_satisfies_deferred_requirement() {
    let input = chord("Daug/C");
    let observations = BlackadderObservations {
        split_voice_leading: Some(true),
        ..BlackadderObservations::default()
    };
    let readings = analyze_blackadder(
        &input,
        BlackadderContext {
            observations: Some(&observations),
            ..BlackadderContext::default()
        },
        BehaviorProfile::StrictV1,
    );
    let split = readings
        .iter()
        .find(|reading| {
            reading.interpretation.origin == Some(BlackadderOrigin::SplitVoiceLeading)
        })
        .unwrap();
    assert!(split.interpretation.unresolved_observations.is_empty());
    assert_eq!(points(split.intrinsic_score), 4.0);
}

#[test]
fn unresolved_families_rise_only_when_no_function_is_supported() {
    let input = chord("Bbaug/C");
    let readings = analyze_blackadder(
        &input,
        BlackadderContext::default(),
        BehaviorProfile::StrictV1,
    );
    let score_for = |predicate: &dyn Fn(&BlackadderInterpretation) -> bool| {
        points(
            readings
                .iter()
                .find(|reading| predicate(&reading.interpretation))
                .unwrap()
                .intrinsic_score,
        )
    };

    assert_eq!(
        score_for(&|reading| reading.structure == BlackadderStructure::WholeToneSubset),
        0.20
    );
    assert_eq!(
        score_for(&|reading| reading.origin == Some(BlackadderOrigin::SplitVoiceLeading)),
        0.10
    );
    assert_eq!(
        score_for(&|reading| reading.origin == Some(BlackadderOrigin::Incidental)),
        0.05
    );

    let target = chord("B");
    let functional = analyze_blackadder(
        &input,
        BlackadderContext {
            tonic: Some(SpelledNote::parse("B").unwrap()),
            next_chord: Some(&target),
            ..BlackadderContext::default()
        },
        BehaviorProfile::StrictV1,
    );
    assert!(functional.iter().any(|reading| {
        reading.interpretation.function == Some(BlackadderFunction::TritoneSubstitute)
    }));
    assert!(functional.iter().any(|reading| {
        reading.interpretation.structure == BlackadderStructure::WholeToneSubset
            && points(reading.intrinsic_score) == -0.5
    }));
    assert!(functional.iter().any(|reading| {
        reading.interpretation.origin == Some(BlackadderOrigin::SplitVoiceLeading)
            && points(reading.intrinsic_score) == -1.0
    }));
    assert!(functional.iter().any(|reading| {
        reading.interpretation.origin == Some(BlackadderOrigin::Incidental)
            && points(reading.intrinsic_score) == -1.5
    }));
}

#[test]
fn blackadder_readings_come_in_rule_order_with_their_labels() {
    let input = chord("Daug/C");
    let readings = analyze_blackadder(&input, BlackadderContext::default(), BehaviorProfile::StrictV1);
    let labels: Vec<&str> = readings.iter().map(|r| r.alter.as_str()).collect();
    assert_eq!(
        labels,
        [
            "F#aug/C",
            "C7(9,#11)",
            "Cm7-5(9)",
            "Daug7/C",
            "C7(9,#11)",
            "C(+6,9,#11)",
            "F#aug/C",
            "F#aug/C",
        ]
    );
    // The written root D is respelled to the canonical upper root F#.
    assert_eq!(readings[0].root_override, Some(note("F#")));
    assert!(matches!(
        readings[1].interpretation.structure,
        BlackadderStructure::DominantNinthOmitThirdAndFifth { tritone_spelling: TritoneSpelling::SharpEleventh }
    ));
    assert_eq!(points(readings[2].intrinsic_score), 0.5);
    assert_eq!(readings[5].interpretation.structure, BlackadderStructure::AugmentedSixth);
}

#[test]
fn non_blackadder_chords_have_no_readings() {
    for symbol in ["Caug/F", "C/G", "C7"] {
        let readings =
            analyze_blackadder(&chord(symbol), BlackadderContext::default(), BehaviorProfile::StrictV1);
        assert!(readings.is_empty(), "{symbol}");
    }
}

#[test]
fn tritone_substitute_reading_is_confirmed_by_its_resolution() {
    let input = chord("Daug/C");
    let next = chord("B");
    let readings = analyze_blackadder(
        &input,
        BlackadderContext { tonic: Some(note("B")), next_chord: Some(&next), ..BlackadderContext::default() },
        BehaviorProfile::StrictV1,
    );
    let tritone = readings
        .iter()
        .find(|r| r.interpretation.function == Some(BlackadderFunction::TritoneSubstitute))
        .unwrap();
    assert_eq!(tritone.interpretation.classification.role, Some(HarmonicRole::Dominant));
    assert!(tritone
        .interpretation
        .classification
        .families
        .contains(&InterpretationFamily::TritoneSubstitute));
    assert_eq!(
        points(transition_score(&tritone.interpretation, Some(&next), Some(note("B")), BehaviorProfile::StrictV1)),
        6.0
    );
    assert_eq!(
        transition_score(&tritone.interpretation, Some(&chord("C")), Some(note("B")), BehaviorProfile::StrictV1),
        0
    );
}

#[test]
fn repeated_augmented_triad_asks_for_voice_leading() {
    let previous = chord("Caug");
    let input = chord("Caug/F#");
    let next = chord("B");
    let readings = analyze_blackadder(
        &input,
        BlackadderContext {
            previous_chord: Some(&previous),
            next_chord: Some(&next),
            ..BlackadderContext::default()
        },
        BehaviorProfile::StrictV1,
    );
    assert_eq!(points(readings[0].intrinsic_score), 1.25);
    let split = readings
        .iter()
        .find(|r| r.interpretation.origin == Some(BlackadderOrigin::SplitVoiceLeading))
        .unwrap();
    assert_eq!(points(split.intrinsic_score), 3.0);
    let dominant = readings
        .iter()
        .find(|r| r.interpretation.function == Some(BlackadderFunction::SecondaryDominant))
        .unwrap();
    assert!(dominant
        .interpretation
        .classification
        .families
        .contains(&InterpretationFamily::VoiceLeadingRequired));
    assert!(!readings[0]
        .interpretation
        .classification
        .families
        .contains(&InterpretationFamily::VoiceLeadingRequired));
}

#[test]
fn legacy_profile_keeps_the_two_hybrid_readings() {
    let interpreter = ChordInterpreter::new(BehaviorProfile::Python019);
    let candidates = interpreter.analyze_slash_candidates(&chord("Daug/C"), None);
    let kinds: Vec<HybridKind> = candidates.iter().map(|c| c.analysis.kind).collect();
    assert_eq!(kinds, [HybridKind::Blackadder, HybridKind::HalfDiminishedNine]);
    // The half-diminished base bias wins a context-free tie.
    let best = interpreter.analyze_slash_chord(&chord("Daug/C"), None);
    assert_eq!(best.kind, HybridKind::HalfDiminishedNine);
    assert_eq!(best.functional_role, Some(FunctionalRole::HalfDiminished));
    assert_eq!(best.alter.as_deref(), Some("Cm7-5(9)"));
    // A dominant resolving to the next tonic turns it into a rootless dominant.
    let with_next = interpreter.analyze_slash_chord(&chord("Daug/C"), Some(&chord("Db")));
    assert_eq!(with_next.kind, HybridKind::SecondaryDominantThirdInBass);
    assert_eq!(with_next.alter.as_deref(), Some("G#7(9,#11)/C"));
}

#[test]
fn plain_chords_and_inversions_have_one_neutral_candidate() {
    let interpreter = ChordInterpreter::default();
    let plain = interpreter.analyze_slash_candidates(&chord("C"), None);
    assert_eq!(plain.len(), 1);
    assert_eq!(plain[0].rule_id, "builtin.slash.none");
    assert_eq!(plain[0].analysis.slash_classification, SlashClassification::NoBass);
    let inversion = interpreter.analyze_slash_candidates(&chord("C/E"), None);
    assert_eq!(inversion[0].rule_id, "builtin.slash.inversion");
    let flat_nine = interpreter.analyze_slash_chord(&chord("Bb/B"), None);
    assert!(flat_nine.is_hybrid);
    assert_eq!(flat_nine.kind, HybridKind::Unnamed);
    assert_eq!(HybridKind::SusFourSevenFlatNine.as_str(), "7sus4(b9)");
}
