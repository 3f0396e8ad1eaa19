use chord_romanizer::{
    AlternateKind, AnnotatedEvent, BehaviorProfile, BlackadderFunction, BlackadderObservationKind,
    BlackadderOrigin, BlackadderStructure, ChordInterpreter, DominantRelation, HarmonicRole, HarmonicSource,
    HybridKind, InterpretationFamily, KeyBoundaryPolicy, NoChordPolicy, ParsedChord, ParsedSymbol,
    ProgressionItem, ResolutionType, Romanizer, RomanizerOptions, SlashClassification, SpelledNote, TonalScope,
    parse_chord,
};

fn chord(symbol: &str) -> ParsedChord {
    match parse_chord(symbol).unwrap() {
        ParsedSymbol::Chord(chord) => chord,
        ParsedSymbol::NoChord { .. } | ParsedSymbol::Boundary { .. } => {
            panic!("expected chord: {symbol}")
        }
    }
}

fn item(symbol: &str) -> ProgressionItem {
    ProgressionItem::new(parse_chord(symbol).unwrap())
}

fn note(value: &str) -> SpelledNote {
    SpelledNote::parse(value).unwrap()
}

fn romans(key: &str, symbols: &[&str]) -> Vec<String> {
    let romanizer = Romanizer::new(key).unwrap();
    let items: Vec<_> = symbols.iter().map(|symbol| item(symbol)).collect();
    romanizer
        .annotate_progression(&items)
        .into_iter()
        .map(|result| result.roman)
        .collect()
}

#[test]
fn diatonic_chords_in_c() {
    assert_eq!(
        romans("C", &["C", "Dm7", "Em7", "F", "G7", "Am7", "Bm7-5"]),
        ["I", "IIm7", "IIIm7", "IV", "V7", "VIm7", "VIIm7-5"]
    );
}

#[test]
fn detects_ii_v_i_metadata() {
    let romanizer = Romanizer::new("C").unwrap();
    let items = [item("Dm7"), item("G7"), item("Cmaj7")];
    let results = romanizer.annotate_progression(&items);
    assert!(results[0].is_ii_v_start);
    assert_eq!(results[2].resolution_type, Some(ResolutionType::Perfect));
}

#[test]
fn no_chord_is_omitted_from_compact_output_but_preserves_context() {
    let romanizer = Romanizer::new("C").unwrap();
    let items = [item("Dm7"), item("NC"), item("G7")];
    let results = romanizer.annotate_progression(&items);
    assert_eq!(results.len(), 2);
    assert!(results[0].is_ii_v_start);
    assert_eq!(romanizer.annotate_events(&items).len(), 3);
}

#[test]
fn explicit_boundary_breaks_context() {
    let romanizer = Romanizer::new("C").unwrap();
    let items = [item("Dm7"), ProgressionItem::boundary("section"), item("G7")];
    let results = romanizer.annotate_progression(&items);
    assert!(!results[0].is_ii_v_start);
}

#[test]
fn library_example_two_five_one_in_c() {
    let progression: Vec<_> = ["Dm7", "G7", "Cmaj7"].into_iter().map(item).collect();
    let results = Romanizer::new("C").unwrap().annotate_progression(&progression);
    assert_eq!(
        results.iter().map(|result| result.roman.as_str()).collect::<Vec<_>>(),
        ["IIm7", "V7", "IM7"],
    );
    assert!(results[0].is_ii_v_start);
    assert!(results[2].is_resolution_target);
}

#[test]
fn midi_marker_colon_quality_preserves_inversion_spelling() {
    let result = Romanizer::new("G").unwrap().annotate_progression(&[item("B:7/D#")]);

    assert_eq!(result[0].slash_classification, SlashClassification::Inversion);
    assert_eq!(result[0].degree_bass.unwrap().to_string(), "#V");
    assert_eq!(result[0].symbol_fixed, "B:7/D#");
    assert_eq!(result[0].theoretical_symbol, "B:7/D#");
}

#[test]
fn unresolved_midi_marker_two_five_does_not_respell_borrowed_minor() {
    let result = Romanizer::new("E")
        .unwrap()
        .annotate_progression(&[item("C:m7(9)"), item("C:m7/F"), item("D:sus4")]);

    assert!(result[0].is_ii_v_start);
    assert!(!result[2].is_resolution_target);
    assert_eq!(result[0].degree_root.to_string(), "bVI");
    assert_eq!(result[0].symbol_fixed, "C:m7(9)");
}

#[test]
fn normalized_symbol_is_rendered_from_the_ast() {
    let romanizer = Romanizer::new("C").unwrap();
    let lowercase = romanizer.annotate_progression(&[item("c#/g#")]);
    assert_eq!(lowercase[0].normalized_symbol, "Db/Ab");

    let redundant = romanizer.annotate_progression(&[item("C/B#")]);
    assert_eq!(redundant[0].chord.original_symbol, "C/B#");
    assert_eq!(redundant[0].normalized_symbol, "C");
    assert_eq!(redundant[0].degree_bass, None);
}

#[test]
fn no_chord_is_aligned_and_transparent_but_boundary_is_not() {
    let romanizer = Romanizer::new("C").unwrap();
    let transparent = [item("Dm7"), item("N.C."), item("G7")];
    let events = romanizer.annotate_events(&transparent);
    assert_eq!(events.len(), 3);
    assert!(matches!(events[1], AnnotatedEvent::NoChord { .. }));
    assert!(romanizer.annotate_progression(&transparent)[0].is_ii_v_start);

    let split = [item("Dm7"), ProgressionItem::boundary("long silence"), item("G7")];
    assert!(!romanizer.annotate_progression(&split)[0].is_ii_v_start);
}

#[test]
fn key_boundary_policy_is_explicit() {
    let c = note("C");
    let g = note("G");
    let progression = [
        ProgressionItem::in_key(parse_chord("Dm7").unwrap(), c),
        ProgressionItem::in_key(parse_chord("G7").unwrap(), g),
    ];

    let strict = Romanizer::new("C").unwrap();
    assert!(!strict.annotate_progression(&progression)[0].is_ii_v_start);

    let mut options = RomanizerOptions::new("C").unwrap();
    options.key_boundary_policy = KeyBoundaryPolicy::Continue;
    let continuous = Romanizer::with_options(options).unwrap();
    assert!(continuous.annotate_progression(&progression)[0].is_ii_v_start);
}

#[test]
fn final_hybrid_choice_drives_progression_metadata() {
    let romanizer = Romanizer::new("C").unwrap();
    let results = romanizer.annotate_progression(&[item("Faug/B"), item("C")]);
    assert_eq!(results[0].hybrid_kind, Some(HybridKind::SecondaryDominantThirdInBass));
    assert_eq!(results[1].resolution_type, Some(ResolutionType::Perfect));
}

#[test]
fn events_keep_markers_with_their_text_and_key() {
    let romanizer = Romanizer::new("D").unwrap();
    let events = romanizer.annotate_events(&[item("N.C."), ProgressionItem::boundary("coda"), item("A7")]);
    match &events[0] {
        AnnotatedEvent::NoChord { original_symbol, tonic } => {
            assert_eq!(original_symbol, "N.C.");
            assert_eq!(*tonic, note("D"));
        }
        _ => panic!("expected a no-chord event"),
    }
    match &events[1] {
        AnnotatedEvent::Boundary { label } => assert_eq!(label.as_deref(), Some("coda")),
        _ => panic!("expected a boundary"),
    }
    match &events[2] {
        AnnotatedEvent::Chord(result) => {
            assert_eq!(result.roman, "V7");
            assert_eq!(result.chord.original_symbol, "A7");
            assert_eq!(result.tonic, note("D"));
        }
        _ => panic!("expected a chord"),
    }
}

#[test]
fn legacy_profile_breaks_context_at_no_chord() {
    let romanizer = Romanizer::with_options(RomanizerOptions::python_019("C").unwrap()).unwrap();
    let items = [item("Dm7"), item("N.C."), item("G7")];
    assert!(!romanizer.annotate_progression(&items)[0].is_ii_v_start);

    let mut options = RomanizerOptions::python_019("C").unwrap();
    options.no_chord_policy = NoChordPolicy::Transparent;
    let transparent = Romanizer::with_options(options).unwrap();
    assert!(transparent.annotate_progression(&items)[0].is_ii_v_start);
}

#[test]
fn each_dominant_relation_marks_its_target() {
    let results = Romanizer::new("C")
        .unwrap()
        .annotate_progression(&[item("Db7"), item("C"), item("Bb7"), item("C"), item("Bdim7"), item("C")]);
    assert_eq!(results[1].resolution_type, Some(ResolutionType::Semitone));
    assert_eq!(results[3].resolution_type, Some(ResolutionType::Backdoor));
    assert_eq!(results[5].resolution_type, Some(ResolutionType::LeadingTone));
    assert!(results[5].is_resolution_target);
    assert!(!results[0].is_resolution_target);
}

#[test]
fn secondary_dominant_to_its_submediant_is_deceptive() {
    // E7 implies A minor; F major is its bVI.
    let results = Romanizer::new("C").unwrap().annotate_progression(&[item("E7"), item("F")]);
    assert_eq!(results[1].resolution_type, Some(ResolutionType::Deceptive));
    assert!(results[0].harmonic_interpretations.iter().any(|reading| {
        reading.rule_id == "builtin.ordinary.secondary_dominant_deceptive.dominant"
            && reading.classification.families.contains(&InterpretationFamily::SecondaryDominantDeceptive)
            && reading.classification.perspective.map(|p| p.local_tonic) == Some(note("A"))
    }));
}

#[test]
fn resolution_readings_carry_scores_and_perspective() {
    let results = Romanizer::new("C").unwrap().annotate_progression(&[item("G7"), item("C")]);
    let dominant = &results[0].harmonic_interpretations[0];
    assert_eq!(dominant.rule_id, "builtin.ordinary.dominant_resolution");
    assert_eq!(dominant.intrinsic_score, 155);
    assert_eq!(dominant.classification.role, Some(HarmonicRole::Dominant));
    assert_eq!(dominant.classification.local_degree.unwrap().to_string(), "V");
    let target = &results[1].harmonic_interpretations[0];
    assert_eq!(target.rule_id, "builtin.ordinary.tonicized_target");
    assert_eq!(target.intrinsic_score, 90);
    assert_eq!(target.classification.perspective.unwrap().scope, TonalScope::Global);
    assert_eq!(results[1].harmonic_classifications.len(), 1);
}

#[test]
fn applied_two_five_reinforces_dominant_and_target() {
    // Em7b5-A7-Dm7 in C: local ii-V-i of D minor.
    let results = Romanizer::new("C")
        .unwrap()
        .annotate_progression(&[item("Em7b5"), item("A7"), item("Dm7")]);
    assert!(results[0].is_ii_v_start);
    let two = results[0]
        .harmonic_interpretations
        .iter()
        .find(|reading| reading.rule_id == "builtin.ordinary.applied_two_five.predominant")
        .expect("applied ii");
    assert_eq!(two.intrinsic_score, 180);
    assert_eq!(two.classification.perspective.unwrap().scope, TonalScope::Tonicization);
    let dominant = &results[1].harmonic_interpretations[0];
    assert_eq!(dominant.intrinsic_score, 155 + 55);
    assert!(dominant.classification.families.contains(&InterpretationFamily::AppliedCadence));
    let target = &results[2].harmonic_interpretations[0];
    assert_eq!(target.intrinsic_score, 90 + 35);
    assert_eq!(target.evidence.len(), 2);
}

#[test]
fn temporary_key_pair_is_a_reading_not_a_marker() {
    // BbM7-Am7 in C: IV-iii of F.
    let results = Romanizer::new("C").unwrap().annotate_progression(&[item("BbM7"), item("Am7")]);
    assert!(results[0].harmonic_interpretations.iter().any(|reading| {
        reading.rule_id == "builtin.ordinary.alternate_key_sequence.first"
            && reading.classification.role == Some(HarmonicRole::Subdominant)
            && reading.classification.perspective.map(|p| p.local_tonic) == Some(note("F"))
    }));
    assert!(!results[1].is_resolution_target);
}

#[test]
fn cadence_target_sets_the_spelling_preference() {
    // A tritone above C before F: the target F prefers flats, so Gb.
    let romanizer = Romanizer::new("C").unwrap();
    let to_f = romanizer.annotate_progression(&[item("F#7"), item("B")]);
    assert_eq!(to_f[0].degree_root.to_string(), "#IV");
    let results = romanizer.annotate_progression(&[item("Db"), item("C")]);
    assert_eq!(results[0].degree_root.to_string(), "bII");
}

#[test]
fn legacy_slash_keeps_root_only_alternate() {
    let romanizer = Romanizer::with_options(RomanizerOptions::python_019("C").unwrap()).unwrap();
    let results = romanizer.annotate_progression(&[item("G7/B")]);
    assert_eq!(results[0].roman, "V7/VII");
    assert!(results[0]
        .alternates
        .iter()
        .any(|alternate| alternate.label == "V7" && alternate.kind == AlternateKind::WithoutBass));
    assert_eq!(results[0].alternate_labels, vec!["V7".to_string()]);
}

#[test]
fn chords_keep_their_parsed_input() {
    let romanizer = Romanizer::new("C").unwrap();
    let results = romanizer.annotate_progression(&[item("Ebmaj7(#11)/G")]);
    let chord: &ParsedChord = &results[0].chord;
    match parse_chord("Ebmaj7(#11)/G").unwrap() {
        ParsedSymbol::Chord(original) => assert_eq!(*chord, original),
        _ => panic!("expected a chord"),
    }
}

#[test]
fn blackadder_lookahead_uses_next_slash_chords_effective_root() {
    let progression = [
        item("G#:aug/D"),
        item("B/C#"),
        item("Bb/C"),
        item("E:aug/A#"),
        item("A/B"),
        item("E"),
    ];
    let result = Romanizer::new("E").unwrap().annotate_progression(&progression);

    assert_eq!(result[0].symbol_fixed, "G#:aug/D");
    assert_eq!(result[0].hybrid_kind, Some(HybridKind::Blackadder));
    assert_eq!(result[0].alter.as_deref(), Some("bVII7(9,#11)"));
    let first = result[0]
        .functional_interpretations
        .iter()
        .filter_map(|interpretation| interpretation.blackadder.as_ref())
        .find(|reading| reading.function == Some(BlackadderFunction::TritoneSubstitute))
        .unwrap();
    assert_eq!(
        first.classification.perspective.as_ref().unwrap().local_tonic,
        SpelledNote::parse("C#").unwrap()
    );

    assert_eq!(result[3].symbol_fixed, "E:aug/A#");
    assert_eq!(result[3].hybrid_kind, Some(HybridKind::SecondaryDominantThirdInBass));
    assert_eq!(result[3].alter.as_deref(), Some("II7(9,#11)/#IV"));
    let second = result[3]
        .functional_interpretations
        .iter()
        .filter_map(|interpretation| interpretation.blackadder.as_ref())
        .find(|reading| reading.function == Some(BlackadderFunction::SecondaryDominant))
        .unwrap();
    assert_eq!(
        second.classification.perspective.as_ref().unwrap().local_tonic,
        SpelledNote::parse("B").unwrap()
    );
}

#[test]
fn blackadder_spelling_uses_the_canonical_bass() {
    let progression = [item("Bm7"), item("Eaug/A#"), item("AM7")];
    let result = Romanizer::new("E").unwrap().annotate_progression(&progression);

    assert!(result[0].is_ii_v_start);
    assert_eq!(result[1].symbol_fixed, "Eaug/Bb");
    assert_eq!(result[1].alter.as_deref(), Some("bV7(9,#11)"));
    assert_eq!(result[1].hybrid_kind, Some(HybridKind::Blackadder));
    assert!(result[1].functional_interpretations.iter().any(|candidate| {
        candidate.blackadder.as_ref().is_some_and(|reading| {
            reading.function == Some(BlackadderFunction::TritoneSubstitute)
                && reading.target_root == Some(SpelledNote::parse("A").unwrap())
        })
    }));
    assert!(result[2].is_resolution_target);
}

#[test]
fn augmented_sixth_is_a_structure_family_and_predominant_role() {
    let result = Romanizer::new("C").unwrap().annotate_progression(&[item("Daug/C")]);
    let reading = result[0]
        .functional_interpretations
        .iter()
        .filter_map(|interpretation| interpretation.blackadder.as_ref())
        .find(|reading| reading.structure == BlackadderStructure::AugmentedSixth)
        .unwrap();
    assert_eq!(reading.classification.role, Some(HarmonicRole::Predominant));
    assert!(reading.classification.families.contains(&InterpretationFamily::AugmentedSixth));
}

#[test]
fn tritone_substitute_can_target_a_non_global_local_tonic() {
    // Eb7 is subV of A7 and resolves to Dm. Together with Em7b5 this is a
    // local iiø-subV-i in D minor while the caller's global key stays C.
    let result = Romanizer::new("C")
        .unwrap()
        .annotate_progression(&[item("Em7-5"), item("Eb7"), item("Dm7")]);
    let substitute = result[1]
        .harmonic_classifications
        .iter()
        .find(|classification| classification.dominant_relation == Some(DominantRelation::TritoneSubstitute))
        .unwrap();
    assert!(substitute.families.contains(&InterpretationFamily::TritoneSubstitute));
    assert!(substitute.families.contains(&InterpretationFamily::AppliedCadence));
    let perspective = substitute.perspective.as_ref().unwrap();
    assert_eq!(perspective.global_tonic, SpelledNote::parse("C").unwrap());
    assert_eq!(perspective.local_tonic, SpelledNote::parse("D").unwrap());
    assert_eq!(perspective.local_tonic_degree.to_string(), "II");
    assert_eq!(perspective.scope, TonalScope::Tonicization);
}

#[test]
fn ordinary_backdoor_dominant_uses_the_common_relation_axis() {
    let result = Romanizer::new("C").unwrap().annotate_progression(&[item("Bb7"), item("CM7")]);
    let backdoor = result[0]
        .harmonic_classifications
        .iter()
        .find(|classification| classification.dominant_relation == Some(DominantRelation::Backdoor))
        .unwrap();
    assert_eq!(backdoor.role, Some(HarmonicRole::Dominant));
    assert_eq!(backdoor.perspective.as_ref().unwrap().scope, TonalScope::Global);
    assert_eq!(result[1].resolution_type, Some(ResolutionType::Backdoor));
}

#[test]
fn text_only_origins_expose_future_observation_requirements() {
    let candidates =
        ChordInterpreter::new(BehaviorProfile::StrictV1).analyze_slash_candidates(&chord("Daug/C"), None);
    let split = candidates
        .iter()
        .filter_map(|candidate| candidate.analysis.blackadder.as_ref())
        .find(|reading| reading.origin == Some(BlackadderOrigin::SplitVoiceLeading))
        .unwrap();
    assert!(split.unresolved_observations.contains(&BlackadderObservationKind::VoiceLeading));

    let incidental = candidates
        .iter()
        .filter_map(|candidate| candidate.analysis.blackadder.as_ref())
        .find(|reading| reading.origin == Some(BlackadderOrigin::Incidental))
        .unwrap();
    assert!(incidental.unresolved_observations.contains(&BlackadderObservationKind::Timing));
    assert!(incidental.unresolved_observations.contains(&BlackadderObservationKind::PartSeparation));
}

#[test]
fn chromatic_minor_seventh_line_is_not_forced_into_a_borrowed_key() {
    let romanizer = Romanizer::new("C").unwrap();
    let result = romanizer.annotate_progression(&[item("F#m7"), item("Fm7"), item("Em7")]);

    assert!(result[0].harmonic_interpretations.iter().any(|interpretation| {
        interpretation.classification.families.contains(&InterpretationFamily::ChromaticApproach)
    }));
    assert!(result[1].harmonic_interpretations.iter().any(|interpretation| {
        interpretation.classification.families.contains(&InterpretationFamily::ChromaticApproach)
    }));
}

#[test]
fn applied_leading_tone_is_separate_from_root_position_dominant() {
    let romanizer = Romanizer::new("C").unwrap();
    let result = romanizer.annotate_progression(&[item("F#m7-5"), item("GM7")]);
    let leading_tone = result[0]
        .harmonic_interpretations
        .iter()
        .find(|interpretation| interpretation.classification.dominant_relation == Some(DominantRelation::LeadingTone))
        .unwrap();

    assert_eq!(leading_tone.classification.local_degree.unwrap().to_string(), "VII");
    assert!(leading_tone.classification.families.contains(&InterpretationFamily::AppliedLeadingTone));
    assert_eq!(result[1].resolution_type, Some(ResolutionType::LeadingTone));
}

#[test]
fn fully_diminished_inversion_keeps_leading_tone_and_rootless_dominant_readings() {
    let romanizer = Romanizer::new("C").unwrap();
    let result = romanizer.annotate_progression(&[item("Ebdim7"), item("G")]);
    let interpretations = &result[0].harmonic_interpretations;

    // E-flat diminished contains the same pitch classes as F-sharp
    // diminished, so the written bIII root still admits vii°7/V.
    let leading_tone = interpretations
        .iter()
        .find(|interpretation| interpretation.classification.dominant_relation == Some(DominantRelation::LeadingTone))
        .unwrap();
    assert_eq!(leading_tone.classification.local_degree.unwrap().to_string(), "VII");
    assert_eq!(leading_tone.classification.perspective.as_ref().unwrap().local_tonic.to_string(), "G");

    // The same notes also admit the D7(b9)-without-D reading.
    let rootless = interpretations
        .iter()
        .find(|interpretation| {
            interpretation.classification.families.contains(&InterpretationFamily::RootlessDominantNinth)
        })
        .unwrap();
    assert_eq!(rootless.classification.dominant_relation, Some(DominantRelation::FifthRelated));
    assert_eq!(rootless.classification.local_degree.unwrap().to_string(), "V");
    assert_eq!(result[1].resolution_type, Some(ResolutionType::LeadingTone));
}

#[test]
fn diminished_symmetry_rules_do_not_apply_to_incomplete_diminished_chords() {
    let romanizer = Romanizer::new("C").unwrap();
    for symbol in ["Ebdim", "Ebm7-5"] {
        let result = romanizer.annotate_progression(&[item(symbol), item("G")]);
        assert!(
            result[0].harmonic_interpretations.iter().all(|interpretation| {
                !interpretation.classification.families.contains(&InterpretationFamily::RootlessDominantNinth)
            }),
            "{symbol} was incorrectly treated as a symmetric dim7"
        );
    }
}

#[test]
fn diminished_chord_is_not_accepted_as_a_tonic_resolution_target() {
    let romanizer = Romanizer::new("C").unwrap();

    for progression in [[item("G7"), item("Cdim")], [item("Bdim7"), item("Cdim")]] {
        let result = romanizer.annotate_progression(&progression);
        assert!(!result[1].is_resolution_target);
        assert_eq!(result[1].resolution_type, None);
        assert!(result[1]
            .harmonic_interpretations
            .iter()
            .all(|interpretation| interpretation.rule_id != "builtin.ordinary.tonicized_target"));
    }
}

#[test]
fn borrowed_minor_subdominant_returning_to_tonic_gains_evidence() {
    let result = Romanizer::new("C").unwrap().annotate_progression(&[item("Fm"), item("C")]);
    let borrowed = result[0]
        .harmonic_interpretations
        .iter()
        .find(|reading| reading.rule_id == "builtin.ordinary.modal_interchange")
        .unwrap();
    assert_eq!(borrowed.intrinsic_score, 95 + 45);
    assert_eq!(borrowed.evidence.len(), 2);
    assert_eq!(borrowed.classification.sources, vec![HarmonicSource::ParallelMinor, HarmonicSource::SubdominantMinor]);
    assert_eq!(borrowed.classification.role, Some(HarmonicRole::Subdominant));
}

#[test]
fn neapolitan_before_the_dominant_scores_highest() {
    let result = Romanizer::new("C").unwrap().annotate_progression(&[item("Db"), item("G7")]);
    let neapolitan = result[0]
        .harmonic_interpretations
        .iter()
        .find(|reading| reading.rule_id == "builtin.ordinary.neapolitan")
        .unwrap();
    assert_eq!(neapolitan.intrinsic_score, 215);
    assert!(result[0]
        .harmonic_interpretations
        .iter()
        .any(|reading| reading.rule_id == "builtin.ordinary.modal_colour"));
}

#[test]
fn passing_diminished_between_chromatic_roots() {
    let result = Romanizer::new("C").unwrap().annotate_progression(&[item("C"), item("C#dim7"), item("Dm7")]);
    assert!(result[1]
        .harmonic_interpretations
        .iter()
        .any(|reading| reading.rule_id == "builtin.ordinary.diminished.chromatic_passing" && reading.intrinsic_score == 165));
}

#[test]
fn legacy_profile_has_only_resolution_readings() {
    let romanizer = Romanizer::with_options(RomanizerOptions::python_019("C").unwrap()).unwrap();
    let result = romanizer.annotate_progression(&[item("Fm"), item("C")]);
    assert!(result[0].harmonic_interpretations.is_empty());
    assert!(result[1].harmonic_interpretations.is_empty());
}

#[test]
fn every_pitch_class_can_be_analyzed_in_representative_keys() {
    let roots = ["C", "C#", "D", "Eb", "E", "F", "F#", "G", "Ab", "A", "Bb", "B"];
    for tonic in ["C", "F#", "Gb", "G#", "Fb"] {
        let romanizer = Romanizer::new(tonic).unwrap();
        for root in roots {
            let result = romanizer.annotate_progression(&[ProgressionItem::new(parse_chord(root).unwrap())]);
            assert_eq!(result.len(), 1, "tonic={tonic}, root={root}");
            assert!(!result[0].roman.is_empty());
        }
    }
}
