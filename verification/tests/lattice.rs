use chord_romanizer::analysis::candidates::candidate;
use chord_romanizer::{
    AlternateKind, AnalysisLattice, BehaviorProfile, BlackadderFunction, BlackadderOrigin, BlackadderStructure,
    CandidateConstraint, CandidateLayer, CandidateTransition, ChordInterpreter, DominantRelation, HarmonicRole,
    HarmonicSource, HybridKind, InterpretationFamily, InterpretationKind, ParsedChord, ParsedSymbol, ProgressionItem,
    ResolutionType, Romanizer, RomanizerOptions, SpelledNote, TonalMode, TonalScope, parse_chord,
};

fn chord(symbol: &str) -> ParsedChord {
    match parse_chord(symbol).unwrap() {
        ParsedSymbol::Chord(chord) => chord,
        ParsedSymbol::NoChord { .. } | ParsedSymbol::Boundary { .. } => {
            panic!("expected chord: {symbol}")
        }
    }
}

fn item(symbol: &str) -> ProgressionItem {
    ProgressionItem::new(parse_chord(symbol).unwrap())
}

#[test]
fn returns_multiple_ranked_paths_with_evidence() {
    let progression: Vec<_> = ["Daug/C", "B"]
        .into_iter()
        .map(|symbol| ProgressionItem::new(parse_chord(symbol).unwrap()))
        .collect();
    let romanizer = Romanizer::new("B").unwrap();
    let lattice = romanizer.build_lattice(&progression);
    let paths = lattice.decode_top_k(3);
    assert_eq!(paths.len(), 3);
    assert!(paths[0].total_score >= paths[1].total_score);
    assert!(paths[0].evidence.iter().any(|evidence| {
        evidence.rule_id == "builtin.blackadder.transition.tritone_substitute"
    }));
}

#[test]
fn decoder_preserves_a_weaker_prefix_that_wins_on_transition() {
    let tonic = SpelledNote::parse("C").unwrap();
    let first = CandidateLayer {
        event_index: 0,
        segment_id: 0,
        candidates: vec![
            candidate(0, 0, "A", tonic, None, InterpretationKind::PrimaryDegree, 1000, "test.a", "locally best"),
            candidate(0, 1, "B", tonic, None, InterpretationKind::PrimaryDegree, 900, "test.b", "locally second"),
        ],
    };
    let second_candidate = candidate(1, 0, "C", tonic, None, InterpretationKind::PrimaryDegree, 0, "test.c", "target");
    let second = CandidateLayer { event_index: 1, segment_id: 0, candidates: vec![second_candidate.clone()] };
    let lattice = AnalysisLattice {
        rule_set_version: "test".to_owned(),
        layers: vec![first.clone(), second],
        transitions: vec![vec![
            CandidateTransition {
                from_candidate: first.candidates[0].id.clone(),
                to_candidate: second_candidate.id.clone(),
                score: -10000,
                evidence: Vec::new(),
            },
            CandidateTransition {
                from_candidate: first.candidates[1].id.clone(),
                to_candidate: second_candidate.id,
                score: 0,
                evidence: Vec::new(),
            },
        ]],
    };

    let best = lattice.decode_top_k(1);
    assert_eq!(best[0].selections[0].label, "B");
    assert_eq!(best[0].total_score, 900);
}

#[test]
fn display_api_formats_the_selected_functional_path() {
    let progression = [
        item("Bm7"),
        item("Eaug/A#"),
        item("AM7"),
        item("G#aug/D"),
        item("C#m7"),
        item("Am7"),
        item("Baug/F"),
        item("A/B"),
        item("E/G#"),
    ];
    let display = Romanizer::new("E").unwrap().display_progression(&progression);

    assert_eq!(
        display.iter().map(|item| item.combined_label.as_str()).collect::<Vec<_>>(),
        [
            "Bm7 [ii7/IV|PD]",
            "Eaug/Bb [bV7(9,#11)|subV/IV]",
            "AM7 [IVM7|I/IV]",
            "G#aug/D [bVII7(9,#11)|subV/vi]",
            "C#m7 [vi7|i/vi]",
            "Am7 [iv7|SDm]",
            "Baug/F [bII7(9,#11)|subV/I]",
            "A/B [V9sus4|D]",
            "E/G# [I6|T]",
        ]
    );
    assert_eq!(display[1].function_label.as_deref(), Some("subV/IV"));
    assert_eq!(display[1].role_label.as_deref(), Some("D"));
    assert_eq!(display[2].local_label.as_deref(), Some("I/IV"));
}

#[test]
fn flat_root_and_slash_bass_are_spelled_as_a_pair() {
    let progression = [item("F#/G#")];
    let romanizer = Romanizer::new("G").unwrap();
    let result = romanizer.annotate_progression(&progression);

    assert_eq!(result[0].degree_root.to_string(), "bI");
    assert_eq!(result[0].degree_bass.unwrap().to_string(), "bII");
    assert_eq!(result[0].normalized_symbol, "Gb/Ab");
    assert_eq!(result[0].theoretical_symbol, "Gb/Ab");

    let display = romanizer.display_progression(&progression);
    assert_eq!(display[0].combined_label, "Gb/Ab [bII9sus4|S]");
}

#[test]
fn contextual_augmented_candidates_are_not_collapsed_early() {
    let interpreter = ChordInterpreter::new(BehaviorProfile::StrictV1);
    let candidates = interpreter.analyze_slash_candidates(&chord("Eaug/D"), None);
    assert!(candidates.len() >= 7);
    assert!(candidates.iter().any(|candidate| candidate.analysis.kind == HybridKind::Blackadder));
    assert!(candidates.iter().any(|candidate| candidate.analysis.kind == HybridKind::HalfDiminishedNine));

    let romanizer = Romanizer::new("C").unwrap();
    let result = romanizer.annotate_progression(&[item("Eaug/D")]);
    assert!(result[0].functional_interpretations.len() >= 7);
    assert!(romanizer.build_lattice(&[item("Eaug/D")]).layers[0].candidates.len() > candidates.len());
}

#[test]
fn blackadder_k_best_retains_function_in_each_path() {
    let progression = [item("Daug/C"), item("B")];
    let romanizer = Romanizer::new("B").unwrap();
    let paths = romanizer.analyze_top_k(&progression, 8);

    let top_blackadder = paths[0].selections[0].blackadder.as_ref().unwrap();
    assert_eq!(top_blackadder.function, Some(BlackadderFunction::TritoneSubstitute));
    assert!(paths.iter().any(|path| {
        path.selections[0]
            .blackadder
            .as_ref()
            .is_some_and(|reading| reading.structure == BlackadderStructure::AugmentedSeventhThirdInversion)
    }));
    assert!(paths[0]
        .evidence
        .iter()
        .any(|evidence| { evidence.rule_id == "builtin.blackadder.transition.tritone_substitute" }));
}

#[test]
fn blackadder_looks_through_one_prolonging_dominant() {
    let progression = [item("Am7"), item("Baug/F"), item("A/B"), item("E/G#")];
    let romanizer = Romanizer::new("E").unwrap();
    let result = romanizer.annotate_progression(&progression);

    assert_eq!(result[1].symbol_fixed, "Baug/F");
    assert_eq!(result[1].alter.as_deref(), Some("bII7(9,#11)"));
    assert_eq!(result[1].hybrid_kind, Some(HybridKind::Blackadder));
    assert_eq!(result[2].alter.as_deref(), Some("V9sus4"));
    assert_eq!(result[3].roman, "I/III");

    let paths = romanizer.analyze_top_k(&progression, 1);
    assert_eq!(
        paths[0].selections[1].blackadder.as_ref().and_then(|reading| reading.function),
        Some(BlackadderFunction::TritoneSubstitute)
    );
    assert!(paths[0]
        .evidence
        .iter()
        .any(|evidence| { evidence.rule_id == "builtin.progression.dominant_prolongation" }));

    let predominant = Romanizer::new("C").unwrap().annotate_progression(&[item("Daug/C"), item("G7"), item("C")]);
    assert_eq!(predominant[0].hybrid_kind, Some(HybridKind::HalfDiminishedNine));
    assert_eq!(predominant[0].alter.as_deref(), Some("Im7-5(9)"));
}

#[test]
fn blackadder_rotation_is_not_a_separate_interpretation_axis() {
    let romanizer = Romanizer::new("G").unwrap();
    let progression = [item("G#aug/F#"), item("GM7/D")];
    let result = romanizer.annotate_progression(&progression);

    assert_eq!(result[0].chord.original_symbol, "G#aug/F#");
    assert_eq!(result[0].normalized_symbol, "Caug/F#");
    for reading in result[0]
        .functional_interpretations
        .iter()
        .filter_map(|interpretation| interpretation.blackadder.as_ref())
    {
        assert_eq!(reading.written_upper_root, SpelledNote::parse("G#").unwrap());
        assert_eq!(reading.canonical_upper_root, SpelledNote::parse("C").unwrap());
        assert_eq!(reading.canonical_bass, SpelledNote::parse("F#").unwrap());
    }
}

#[test]
fn notation_only_alternates_do_not_consume_k_best_states() {
    let romanizer = Romanizer::new("C").unwrap();
    let progression = [item("F#aug/C"), item("CM7")];
    let annotations = romanizer.annotate_progression(&progression);

    assert!(!annotations[0].alternates.iter().any(|alternate| alternate.kind == AlternateKind::WithoutBass));
    let enharmonic: Vec<_> =
        annotations[0].alternates.iter().filter(|alternate| alternate.kind == AlternateKind::Enharmonic).collect();
    assert!(!enharmonic.is_empty());
    assert!(enharmonic.iter().all(|alternate| alternate.label.contains('/')));

    let legacy = Romanizer::with_options(RomanizerOptions::python_019("C").unwrap()).unwrap();
    assert!(legacy.annotate_progression(&progression)[0]
        .alternates
        .iter()
        .any(|alternate| alternate.kind == AlternateKind::WithoutBass));

    let lattice = romanizer.build_lattice(&progression);
    assert!(lattice.layers.iter().all(|layer| {
        layer.candidates.iter().all(|candidate| {
            !matches!(candidate.kind, InterpretationKind::EnharmonicDegree | InterpretationKind::RootWithoutBass)
        })
    }));

    let semantic = romanizer.analyze_top_k_interpretations(&progression, 5);
    assert_eq!(semantic, lattice.decode_top_k_interpretations(5));
}

#[test]
fn backdoor_and_subdominant_minor_are_distinct_candidates() {
    let progression = [item("Abaug/Bb"), item("C")];
    let romanizer = Romanizer::new("C").unwrap();
    let lattice = romanizer.build_lattice(&progression);
    let functions: Vec<_> = lattice.layers[0]
        .candidates
        .iter()
        .filter_map(|candidate| candidate.blackadder.as_ref().and_then(|reading| reading.function))
        .collect();
    assert!(functions.contains(&BlackadderFunction::BackdoorDominant));
    assert!(functions.contains(&BlackadderFunction::SubdominantMinor));

    let backdoor = lattice.layers[0]
        .candidates
        .iter()
        .filter_map(|candidate| candidate.blackadder.as_ref())
        .find(|reading| reading.function == Some(BlackadderFunction::BackdoorDominant))
        .unwrap();
    assert_eq!(backdoor.classification.role, Some(HarmonicRole::Dominant));
    assert_eq!(backdoor.classification.dominant_relation, Some(DominantRelation::Backdoor));
    assert!(backdoor.classification.families.contains(&InterpretationFamily::Backdoor));
    assert!(backdoor.classification.sources.contains(&HarmonicSource::SubdominantMinor));
    assert!(backdoor.classification.families.contains(&InterpretationFamily::SubdominantMinor));
}

#[test]
fn applied_minor_two_five_one_keeps_global_and_local_keys() {
    let progression = [item("Em7-5"), item("A7"), item("Dm7")];
    let romanizer = Romanizer::new("C").unwrap();
    let result = romanizer.annotate_progression(&progression);
    assert_eq!(result.iter().map(|chord| chord.roman.as_str()).collect::<Vec<_>>(), ["IIIm7-5", "VI7", "IIm7"]);

    let predominant = result[0]
        .harmonic_classifications
        .iter()
        .find(|classification| classification.role == Some(HarmonicRole::Predominant))
        .unwrap();
    let perspective = predominant.perspective.as_ref().unwrap();
    assert_eq!(perspective.global_tonic, SpelledNote::parse("C").unwrap());
    assert_eq!(perspective.local_tonic, SpelledNote::parse("D").unwrap());
    assert_eq!(perspective.local_tonic_degree.to_string(), "II");
    assert_eq!(perspective.scope, TonalScope::Tonicization);
    assert_eq!(perspective.mode, TonalMode::Minor);
    assert!(predominant.families.contains(&InterpretationFamily::AppliedCadence));

    let dominant = result[1]
        .harmonic_classifications
        .iter()
        .find(|classification| classification.role == Some(HarmonicRole::Dominant))
        .unwrap();
    assert_eq!(dominant.dominant_relation, Some(DominantRelation::FifthRelated));
    assert_eq!(dominant.perspective.as_ref().unwrap().local_tonic, SpelledNote::parse("D").unwrap());

    let tonic = result[2]
        .harmonic_classifications
        .iter()
        .find(|classification| classification.role == Some(HarmonicRole::Tonic))
        .unwrap();
    assert!(tonic.families.contains(&InterpretationFamily::AppliedCadence));

    let path = romanizer.analyze_top_k_interpretations(&progression, 1);
    assert_eq!(path[0].selections[1].harmonic_classifications, result[1].harmonic_classifications);
}

#[test]
fn unresolved_fallback_families_reach_semantic_top_five() {
    let romanizer = Romanizer::new("C").unwrap();
    let paths = romanizer.analyze_top_k_interpretations(&[item("Bbaug/C")], 5);
    assert_eq!(paths.len(), 5);

    let readings: Vec<_> = paths.iter().filter_map(|path| path.selections[0].blackadder.as_ref()).collect();
    assert!(readings.iter().any(|reading| { reading.structure == BlackadderStructure::WholeToneSubset }));
    assert!(readings.iter().any(|reading| { reading.origin == Some(BlackadderOrigin::SplitVoiceLeading) }));
    assert!(readings.iter().any(|reading| { reading.origin == Some(BlackadderOrigin::Incidental) }));
}

#[test]
fn reproduce_issue_progression_is_preserved_as_an_ambiguous_analysis() {
    let progression: Vec<_> = ["Cm7-5", "C#m7-5/G", "C#aug/G", "F#m7"].into_iter().map(item).collect();
    let romanizer = Romanizer::new("A").unwrap();
    let results = romanizer.annotate_progression(&progression);

    assert_eq!(results.len(), progression.len());
    for result in &results {
        assert!(parse_chord(&result.normalized_symbol).is_ok());
    }

    let paths = romanizer.build_lattice(&progression).decode_top_k(3);
    assert!(!paths.is_empty());
    assert!(paths.iter().all(|path| path.selections.len() == 4));
}

#[test]
fn ordinary_related_two_five_is_a_ranked_local_key_path() {
    let progression = [item("F#m7"), item("B7"), item("Em7")];
    let romanizer = Romanizer::new("C").unwrap();
    let paths = romanizer.analyze_top_k_interpretations(&progression, 5);
    assert_eq!(paths.len(), 5);

    let best = &paths[0];
    let predominant = &best.selections[0].harmonic_classifications[0];
    assert_eq!(predominant.role, Some(HarmonicRole::Predominant));
    assert_eq!(predominant.local_degree.unwrap().to_string(), "II");
    assert!(predominant.families.contains(&InterpretationFamily::AppliedCadence));
    let perspective = predominant.perspective.as_ref().unwrap();
    assert_eq!(perspective.local_tonic, SpelledNote::parse("E").unwrap());
    assert_eq!(perspective.local_tonic_degree.to_string(), "III");
    assert_eq!(perspective.mode, TonalMode::Minor);

    assert_eq!(best.selections[1].harmonic_classifications[0].role, Some(HarmonicRole::Dominant));
    assert_eq!(best.selections[2].harmonic_classifications[0].role, Some(HarmonicRole::Tonic));
}

#[test]
fn flat_two_major_seventh_keeps_neapolitan_and_modal_candidates() {
    let progression = [item("DbM7"), item("G7"), item("CM7")];
    let romanizer = Romanizer::new("C").unwrap();
    let lattice = romanizer.build_lattice(&progression);
    let first = &lattice.layers[0].candidates;

    assert!(first.iter().any(|candidate| {
        candidate
            .harmonic_classifications
            .iter()
            .any(|classification| classification.families.contains(&InterpretationFamily::Neapolitan))
    }));
    assert!(first.iter().any(|candidate| {
        candidate.harmonic_classifications.iter().any(|classification| {
            classification.families.contains(&InterpretationFamily::ModalInterchange)
                && classification.sources.contains(&HarmonicSource::Phrygian)
        })
    }));

    let best = romanizer.analyze_top_k_interpretations(&progression, 1);
    assert!(best[0].selections[0].harmonic_classifications[0].families.contains(&InterpretationFamily::Neapolitan));
}

#[test]
fn flat_mediant_major_seventh_has_distinct_top_k_meanings() {
    let progression = [item("CM7"), item("EbM7"), item("CM7")];
    let romanizer = Romanizer::new("C").unwrap();
    let lattice = romanizer.build_lattice(&progression);
    let middle = &lattice.layers[1].candidates;

    assert!(middle.iter().any(|candidate| {
        candidate.harmonic_classifications.iter().any(|classification| {
            classification.families.contains(&InterpretationFamily::ModalInterchange)
                && classification.sources.contains(&HarmonicSource::ParallelMinor)
        })
    }));
    assert!(middle.iter().any(|candidate| {
        candidate
            .harmonic_classifications
            .iter()
            .any(|classification| classification.families.contains(&InterpretationFamily::ChromaticMediant))
    }));

    let paths = romanizer.analyze_top_k_interpretations(&progression, 3);
    assert_eq!(paths.len(), 3);
    assert!(paths.iter().any(|path| {
        path.selections[1]
            .harmonic_classifications
            .iter()
            .any(|classification| classification.families.contains(&InterpretationFamily::ChromaticMediant))
    }));
}

#[test]
fn diminished_before_two_minor_retains_three_competing_meanings_in_top_k() {
    let romanizer = Romanizer::new("C").unwrap();
    let progression = [item("C"), item("Cdim7"), item("Dm7")];
    let result = romanizer.annotate_progression(&progression);
    let middle = &result[1].harmonic_interpretations;

    for family in [
        InterpretationFamily::RootlessDominantNinth,
        InterpretationFamily::PassingDiminished,
        InterpretationFamily::TonicSubstitute,
    ] {
        assert!(
            middle.iter().any(|interpretation| { interpretation.classification.families.contains(&family) }),
            "missing diminished interpretation family {family:?}"
        );
    }

    let paths = romanizer.analyze_top_k_interpretations(&progression, 5);
    for family in [
        InterpretationFamily::RootlessDominantNinth,
        InterpretationFamily::PassingDiminished,
        InterpretationFamily::TonicSubstitute,
    ] {
        assert!(
            paths.iter().any(|path| {
                path.selections[1]
                    .harmonic_classifications
                    .iter()
                    .any(|classification| classification.families.contains(&family))
            }),
            "top-5 omitted diminished interpretation family {family:?}"
        );
    }
}

#[test]
fn chromatic_and_common_tone_diminished_patterns_are_ranked_by_context() {
    let romanizer = Romanizer::new("C").unwrap();

    let passing = romanizer.analyze_top_k_interpretations(&[item("Em7"), item("Ebdim7"), item("Dm7")], 1);
    assert!(passing[0].selections[1].harmonic_classifications[0]
        .families
        .contains(&InterpretationFamily::PassingDiminished));

    let neighbor = romanizer.analyze_top_k_interpretations(&[item("C"), item("Cdim7"), item("C")], 1);
    assert!(neighbor[0].selections[1].harmonic_classifications[0]
        .families
        .contains(&InterpretationFamily::CommonToneDiminished));
    assert!(neighbor[0].selections[1].harmonic_classifications[0]
        .families
        .contains(&InterpretationFamily::AuxiliaryDiminished));
}

#[test]
fn tritone_substitute_related_two_forms_a_coherent_top_ranked_path() {
    let progression = [item("Abm7"), item("Db7"), item("C")];
    let romanizer = Romanizer::new("C").unwrap();
    let result = romanizer.annotate_progression(&progression);
    let related_two = result[0]
        .harmonic_interpretations
        .iter()
        .find(|interpretation| {
            interpretation.classification.families.contains(&InterpretationFamily::TritoneSubstituteRelatedTwo)
        })
        .unwrap();

    assert_eq!(related_two.classification.role, Some(HarmonicRole::Predominant));
    assert_eq!(related_two.classification.local_degree.unwrap().to_string(), "bVI");
    assert_eq!(related_two.classification.perspective.as_ref().unwrap().local_tonic.to_string(), "C");

    let best = romanizer.analyze_top_k_interpretations(&progression, 1);
    assert!(best[0].selections[0].harmonic_classifications[0]
        .families
        .contains(&InterpretationFamily::TritoneSubstituteRelatedTwo));
    assert_eq!(
        best[0].selections[1].harmonic_classifications[0].dominant_relation,
        Some(DominantRelation::TritoneSubstitute)
    );
}

#[test]
fn flat_seven_keeps_subdominant_minor_separate_from_backdoor_dominant() {
    let progression = [item("Bb7"), item("C")];
    let romanizer = Romanizer::new("C").unwrap();
    let result = romanizer.annotate_progression(&progression);
    let interpretations = &result[0].harmonic_interpretations;

    assert!(interpretations.iter().any(|interpretation| {
        interpretation.classification.role == Some(HarmonicRole::Subdominant)
            && interpretation.classification.sources.contains(&HarmonicSource::SubdominantMinor)
            && interpretation.classification.families.contains(&InterpretationFamily::SubdominantMinor)
            && interpretation.classification.dominant_relation.is_none()
    }));
    assert!(interpretations
        .iter()
        .any(|interpretation| { interpretation.classification.dominant_relation == Some(DominantRelation::Backdoor) }));

    let paths = romanizer.analyze_top_k_interpretations(&progression, 4);
    assert!(paths.iter().any(|path| {
        path.selections[0].harmonic_classifications.iter().any(|classification| {
            classification.sources.contains(&HarmonicSource::SubdominantMinor)
                && classification.dominant_relation.is_none()
        })
    }));
}

#[test]
fn flat_six_to_five_and_flat_two_to_one_prefer_specific_meanings() {
    let romanizer = Romanizer::new("C").unwrap();

    let flat_six = romanizer.analyze_top_k_interpretations(&[item("Ab"), item("G")], 1);
    assert!(flat_six[0].selections[0].harmonic_classifications[0]
        .families
        .contains(&InterpretationFamily::SubdominantMinor));
    assert!(flat_six[0]
        .evidence
        .iter()
        .any(|evidence| { evidence.rule_id == "builtin.progression.flat_six_to_dominant" }));

    let flat_two = romanizer.analyze_top_k_interpretations(&[item("Db"), item("C")], 1);
    assert!(flat_two[0].selections[0].harmonic_classifications[0].families.contains(&InterpretationFamily::Neapolitan));
    assert!(flat_two[0]
        .evidence
        .iter()
        .any(|evidence| { evidence.rule_id == "builtin.progression.flat_two_neapolitan_to_tonic" }));
}

#[test]
fn secondary_dominant_deceptive_resolution_keeps_its_implied_local_key() {
    let progression = [item("E7"), item("FM7")];
    let romanizer = Romanizer::new("C").unwrap();
    let annotated = romanizer.annotate_progression(&progression);

    assert!(annotated[1].is_resolution_target);
    assert_eq!(annotated[1].resolution_type, Some(ResolutionType::Deceptive));

    let best = romanizer.analyze_top_k_interpretations(&progression, 1);
    for selection in &best[0].selections {
        let classification = &selection.harmonic_classifications[0];
        assert!(classification.families.contains(&InterpretationFamily::SecondaryDominantDeceptive));
        assert_eq!(classification.perspective.as_ref().unwrap().local_tonic.to_string(), "A");
    }
}

#[test]
fn alternate_key_pair_is_a_real_k_best_tonal_state() {
    let progression = [item("BbM7"), item("Am7")];
    let best = Romanizer::new("C").unwrap().analyze_top_k_interpretations(&progression, 1);

    for selection in &best[0].selections {
        let classification = &selection.harmonic_classifications[0];
        assert!(classification.families.contains(&InterpretationFamily::AlternateKeySequence));
        let perspective = classification.perspective.as_ref().unwrap();
        assert_eq!(perspective.local_tonic.to_string(), "F");
        assert_eq!(perspective.scope, TonalScope::Tonicization);
    }
    assert!(best[0]
        .evidence
        .iter()
        .any(|evidence| { evidence.rule_id == "builtin.progression.continue_local_tonal_state" }));
}

#[test]
fn k_best_can_preserve_several_temporary_key_spans() {
    let progression = [
        item("Dm7"),
        item("Em7"),
        item("Fm7"),
        item("Gm7"),
        item("Abm7"),
        item("Bb7"),
        item("E7"),
        item("FM7"),
    ];
    let paths = Romanizer::new("C").unwrap().analyze_top_k_interpretations(&progression, 3);

    assert!(paths.iter().any(|path| {
        let local_tonic = |event_index: usize| {
            path.selections[event_index].harmonic_classifications[0]
                .perspective
                .as_ref()
                .map(|perspective| perspective.local_tonic.to_string())
        };
        local_tonic(2).as_deref() == Some("Eb")
            && local_tonic(3).as_deref() == Some("Eb")
            && local_tonic(4).as_deref() == Some("Eb")
            && local_tonic(5).as_deref() == Some("Eb")
            && local_tonic(6).as_deref() == Some("A")
            && local_tonic(7).as_deref() == Some("A")
    }));
}

#[test]
fn suspended_dominant_is_ranked_as_a_semantic_candidate() {
    let progression = [item("Dm7/G"), item("G7"), item("C")];
    let best = Romanizer::new("C").unwrap().analyze_top_k_interpretations(&progression, 1);

    assert_eq!(best[0].selections[0].hybrid_kind, Some(HybridKind::SusFourNine));
    assert!(best[0].selections[0].harmonic_classifications[0]
        .families
        .contains(&InterpretationFamily::SuspendedDominant));
    assert!(best[0]
        .evidence
        .iter()
        .any(|evidence| { evidence.rule_id == "builtin.progression.suspension_to_dominant" }));
}

#[test]
fn augmented_sixth_candidate_survives_semantic_top_five() {
    let progression = [item("Daug/C"), item("B")];
    let paths = Romanizer::new("C").unwrap().analyze_top_k_interpretations(&progression, 5);

    assert!(paths.iter().any(|path| {
        path.selections[0].blackadder.as_ref().is_some_and(|reading| {
            reading.structure == BlackadderStructure::AugmentedSixth
                && reading.classification.families.contains(&InterpretationFamily::AugmentedSixth)
        })
    }));
}

#[test]
fn retained_augmented_upper_structure_gates_bass_only_function() {
    let progression = [item("C"), item("Caug"), item("Caug/F#"), item("FM7")];
    let paths = Romanizer::new("C").unwrap().analyze_top_k_interpretations(&progression, 5);

    assert!(paths[0].selections[2]
        .blackadder
        .as_ref()
        .is_some_and(|reading| { reading.origin == Some(BlackadderOrigin::SplitVoiceLeading) && reading.function.is_none() }));
    assert!(paths.iter().any(|path| {
        path.selections[2]
            .harmonic_classifications
            .iter()
            .any(|classification| classification.families.contains(&InterpretationFamily::VoiceLeadingRequired))
    }));
}

#[test]
fn constraint_pins_an_event_to_one_candidate() {
    let progression = [item("Daug/C"), item("B")];
    let romanizer = Romanizer::new("B").unwrap();
    let lattice = romanizer.build_lattice(&progression);
    let pinned = lattice.layers[0].candidates[0].id.clone();
    let paths = lattice.decode_top_k_conditioned(
        4,
        &[CandidateConstraint { event_index: 0, candidate_id: pinned.clone() }],
    );
    assert!(!paths.is_empty());
    assert!(paths.iter().all(|path| path.selections[0].candidate_id == pinned));
    let unconstrained = lattice.decode_top_k(1);
    assert!(unconstrained[0].total_score >= paths[0].total_score);
}

#[test]
fn candidate_ids_name_event_and_ordinal() {
    let romanizer = Romanizer::new("C").unwrap();
    let lattice = romanizer.build_lattice(&[item("C"), item("N.C."), item("G7"), item("C")]);
    assert_eq!(lattice.layers.len(), 3);
    assert_eq!(lattice.layers[1].event_index, 2);
    assert_eq!(lattice.layers[1].candidates[0].id, "event-2:candidate-0");
    assert_eq!(lattice.layers[2].candidates[0].id, "event-3:candidate-0");
    assert_eq!(lattice.transitions.len(), 2);
    assert_eq!(lattice.rule_set_version, "builtin-strict-v13-dominant-prolongation");
}

#[test]
fn boundary_leaves_an_empty_transition_list() {
    let romanizer = Romanizer::new("C").unwrap();
    let lattice = romanizer.build_lattice(&[item("G7"), ProgressionItem::boundary("section"), item("C")]);
    assert_eq!(lattice.layers.len(), 2);
    assert_ne!(lattice.layers[0].segment_id, lattice.layers[1].segment_id);
    assert!(lattice.transitions[0].is_empty());
    let best = lattice.decode_top_k(1);
    assert_eq!(best[0].selections[1].transition_score, 0);
}

#[test]
fn path_scores_add_up_along_the_path() {
    let romanizer = Romanizer::new("C").unwrap();
    let paths = romanizer.analyze_top_k(&[item("Dm7"), item("G7"), item("C")], 3);
    for path in &paths {
        let mut total: i128 = 0;
        for selection in &path.selections {
            assert_eq!(selection.step_score, selection.emission_score + selection.transition_score);
            total += selection.step_score;
            assert_eq!(selection.cumulative_score, total);
        }
        assert_eq!(path.total_score, total);
    }
    for pair in paths.windows(2) {
        assert!(pair[0].total_score >= pair[1].total_score);
    }
}

#[test]
fn zero_k_and_empty_progressions_decode_to_nothing() {
    let romanizer = Romanizer::new("C").unwrap();
    assert!(romanizer.analyze_top_k(&[item("C")], 0).is_empty());
    assert!(romanizer.analyze_top_k(&[], 3).is_empty());
    assert!(romanizer.display_progression(&[]).is_empty());
}

#[test]
fn the_one_path_ranking_and_a_longer_ranking_agree_on_the_best_score() {
    let romanizer = Romanizer::new("C").unwrap();
    let progression = [item("Dm7"), item("G7"), item("Cmaj7"), item("A7"), item("Dm")];
    let first = romanizer.analyze_top_k_interpretations(&progression, 1);
    let ranked = romanizer.analyze_top_k_interpretations(&progression, 4);
    assert_eq!(first.len(), 1);
    assert!(ranked.len() > 1);
    assert_eq!(first[0].total_score, ranked[0].total_score);
}
