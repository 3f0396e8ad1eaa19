use chord_romanizer::analysis::key::{score_global_key, score_segmented_key_path};
use chord_romanizer::{
    parse_chord, GlobalKeyRequest, KeyedAnalysisPath, KeyedPathSelection, NoChordPolicy, PathSelection,
    ProgressionItem, SpelledNote, TonalKey, TonalMode, TonalScope,
};

fn item(symbol: &str) -> ProgressionItem {
    ProgressionItem::new(parse_chord(symbol).unwrap())
}

fn key(tonic: &str, mode: TonalMode) -> TonalKey {
    TonalKey::new(SpelledNote::parse(tonic).unwrap(), mode)
}

fn selection(event_index: usize, active_key: TonalKey) -> KeyedPathSelection {
    KeyedPathSelection {
        selection: PathSelection {
            event_index,
            candidate_id: String::new(),
            label: String::new(),
            hybrid_kind: None,
            blackadder: None,
            harmonic_classifications: Vec::new(),
            emission_score: 0,
            transition_score: 0,
            step_score: 0,
            cumulative_score: 0,
            evidence: Vec::new(),
        },
        active_key,
        local_key: active_key,
        scope: TonalScope::Global,
        local_degree: None,
        role: None,
        is_pivot: false,
        is_modulation_confirmation: false,
        key_region_age_chords: 0,
        pending_resolutions: Vec::new(),
        resolved_resolution_sources: Vec::new(),
        pending_predominant: None,
        resolved_cadence_predominant_sources: Vec::new(),
    }
}

fn path(global_key: TonalKey, keys: &[TonalKey]) -> KeyedAnalysisPath {
    KeyedAnalysisPath {
        global_key,
        selections: keys.iter().enumerate().map(|(i, k)| selection(i, *k)).collect(),
        modulations: Vec::new(),
        harmonic_resolutions: Vec::new(),
        cadential_spans: Vec::new(),
        function_score: 0,
        key_score: 0,
        modulation_score: 0,
        memory_score: 0,
        total_score: 0,
        evidence: Vec::new(),
    }
}

#[test]
fn segmented_scoring_without_modulation_matches_global_scoring() {
    let c = key("C", TonalMode::Major);
    let progression: Vec<_> = ["Dm7", "G7", "C", "Am", "F", "G7", "C"].into_iter().map(item).collect();
    let keyed = path(c, &[c; 7]);
    let (segmented, segmented_evidence) =
        score_segmented_key_path(&progression, &keyed, GlobalKeyRequest::Infer, NoChordPolicy::Transparent);
    let (global, global_evidence) = score_global_key(&progression, c, GlobalKeyRequest::Infer, NoChordPolicy::Transparent);
    assert_eq!(segmented, global);
    assert_eq!(segmented_evidence, global_evidence);
}

#[test]
fn segmented_scoring_credits_a_late_cadence_to_the_new_key() {
    let c = key("C", TonalMode::Major);
    let d = key("D", TonalMode::Major);
    let progression: Vec<_> = ["C", "G7", "C", "E7", "A7", "D"].into_iter().map(item).collect();
    let keyed = path(c, &[c, c, c, d, d, d]);
    let (score, evidence) =
        score_segmented_key_path(&progression, &keyed, GlobalKeyRequest::Infer, NoChordPolicy::Transparent);
    let cadences: Vec<_> = evidence
        .iter()
        .filter(|e| e.rule_id == "builtin.key.authentic_cadence")
        .map(|e| e.explanation.clone())
        .collect();
    assert_eq!(cadences, ["G7 -> C forms V7-I/i in C major", "A7 -> D forms V7-I/i in D major"]);
    assert_eq!(score, evidence.iter().map(|e| e.contribution as i128).sum::<i128>());
    // The opening C-major tonic is heard in C, the closing D in D.
    assert!(evidence.iter().any(|e| e.explanation == "The segment closes on the tonic of D major"));
    assert!(!evidence.iter().any(|e| e.explanation == "The segment closes on the tonic of C major"));
}

#[test]
fn segmented_scoring_uses_the_global_key_for_unselected_events_and_the_hint() {
    let c = key("C", TonalMode::Major);
    let progression: Vec<_> = ["C", "F", "G7", "C"].into_iter().map(item).collect();
    let mut keyed = path(c, &[c, c]);
    keyed.selections.truncate(2);
    let (_, evidence) =
        score_segmented_key_path(&progression, &keyed, GlobalKeyRequest::Hint(c), NoChordPolicy::Transparent);
    assert!(evidence.iter().any(|e| e.explanation == "G7 -> C forms V7-I/i in C major"));
    let last = evidence.last().unwrap();
    assert_eq!(last.rule_id, "builtin.key.caller_hint");
    assert_eq!(last.contribution, 200);
}

use chord_romanizer::analysis::memory::apply_harmonic_memory;
use chord_romanizer::{DominantRelation, HarmonicResolutionKind};

#[test]
fn delayed_dominant_resolution_is_remembered_across_a_chord() {
    let c = key("C", TonalMode::Major);
    let progression: Vec<_> = ["D7", "Em", "G"].into_iter().map(item).collect();
    let mut keyed = path(c, &[c, c, c]);
    keyed.total_score = 1000;
    apply_harmonic_memory(&progression, &mut keyed, NoChordPolicy::Transparent);
    assert_eq!(keyed.memory_score, 65);
    assert_eq!(keyed.total_score, 1065);
    assert_eq!(keyed.harmonic_resolutions.len(), 1);
    let resolution = &keyed.harmonic_resolutions[0];
    assert_eq!(resolution.source_event_index, 0);
    assert_eq!(resolution.resolution_event_index, 2);
    assert_eq!(resolution.kind, HarmonicResolutionKind::TonicArrival);
    assert_eq!(resolution.relation, DominantRelation::FifthRelated);
    assert_eq!(resolution.target_key, key("G", TonalMode::Major));
    assert_eq!(resolution.intervening_chords, 1);
    assert_eq!(
        keyed.evidence.last().unwrap().explanation,
        "The target G major opened at event 0 resolves after 1 intervening chord(s)"
    );
    let ages: Vec<_> = keyed.selections.iter().map(|s| s.key_region_age_chords).collect();
    assert_eq!(ages, [1, 2, 3]);
    assert_eq!(keyed.selections[0].pending_resolutions.len(), 1);
    assert_eq!(keyed.selections[1].pending_resolutions[0].intervening_chords, 1);
    assert!(keyed.selections[2].pending_resolutions.is_empty());
    assert_eq!(keyed.selections[2].resolved_resolution_sources, [0]);
}

#[test]
fn an_unresolved_dominant_target_expires_after_the_window() {
    let c = key("C", TonalMode::Major);
    let progression: Vec<_> = ["D7", "Em", "Am", "F"].into_iter().map(item).collect();
    let mut keyed = path(c, &[c, c, c, c]);
    apply_harmonic_memory(&progression, &mut keyed, NoChordPolicy::Transparent);
    assert_eq!(keyed.memory_score, -12);
    assert!(keyed.harmonic_resolutions.is_empty());
    let last = keyed.evidence.last().unwrap();
    assert_eq!(last.rule_id, "builtin.memory.expired_dominant_target");
    assert_eq!(last.explanation, "The G unknown target opened at event 0 did not arrive within the memory window");
    assert!(keyed.selections[3].pending_resolutions.is_empty());
}

#[test]
fn a_boundary_clears_pending_dominant_targets() {
    let c = key("C", TonalMode::Major);
    let progression = vec![item("D7"), ProgressionItem::boundary("B"), item("G")];
    let mut keyed = path(c, &[c, c]);
    keyed.selections[1].selection.event_index = 2;
    apply_harmonic_memory(&progression, &mut keyed, NoChordPolicy::Transparent);
    assert!(keyed.harmonic_resolutions.is_empty());
    assert_eq!(keyed.memory_score, 0);
    assert_eq!(
        keyed.evidence[0].explanation,
        "A context boundary clears 1 dominant target(s) and 0 cadential preparation(s)"
    );
    // The active key is kept across the boundary.
    assert_eq!(keyed.selections[1].key_region_age_chords, 2);
}

use chord_romanizer::{HarmonicClassification, HarmonicRole, InterpretationFamily};

fn items(symbols: &[&str]) -> Vec<ProgressionItem> {
    symbols.iter().map(|s| item(s)).collect()
}

#[test]
fn bounded_stack_keeps_the_outer_goal_while_a_nested_goal_resolves() {
    let c = key("C", TonalMode::Major);
    let progression = items(&["C", "D7", "A7", "D7", "G7", "C"]);
    let mut keyed = path(c, &[c; 6]);
    apply_harmonic_memory(&progression, &mut keyed, NoChordPolicy::Transparent);
    assert_eq!(keyed.selections[2].pending_resolutions.len(), 2);
    assert_eq!(keyed.selections[2].pending_resolutions[1].depth, 2);
    assert_eq!(keyed.selections[3].resolved_resolution_sources, [2]);
    assert_eq!(keyed.selections[4].resolved_resolution_sources, [1]);
    let nested = keyed.harmonic_resolutions.iter().find(|r| r.source_event_index == 2).unwrap();
    assert_eq!(nested.resolution_event_index, 3);
    assert_eq!(nested.depth, 2);
    assert!(keyed.harmonic_resolutions.iter().any(|r| {
        r.source_event_index == 1 && r.resolution_event_index == 4 && r.kind == HarmonicResolutionKind::DominantChainLink
    }));
}

#[test]
fn transparent_no_chord_keeps_the_dominant_goal() {
    let c = key("C", TonalMode::Major);
    let progression = items(&["C", "D7", "N.C.", "G", "C"]);
    let mut keyed = path(c, &[c; 4]);
    for (selection, event) in keyed.selections.iter_mut().zip([0, 1, 3, 4]) {
        selection.selection.event_index = event;
    }
    apply_harmonic_memory(&progression, &mut keyed, NoChordPolicy::Transparent);
    assert!(keyed.harmonic_resolutions.iter().any(|r| {
        r.source_event_index == 1 && r.resolution_event_index == 3 && r.intervening_chords == 0
    }));
    let mut broken = path(c, &[c; 4]);
    for (selection, event) in broken.selections.iter_mut().zip([0, 1, 3, 4]) {
        selection.selection.event_index = event;
    }
    apply_harmonic_memory(&progression, &mut broken, NoChordPolicy::Break);
    assert!(broken.harmonic_resolutions.iter().all(|r| r.source_event_index != 1));
}

#[test]
fn an_immediate_cadence_is_recorded_without_double_scoring() {
    let c = key("C", TonalMode::Major);
    let progression = items(&["Dm7", "G7", "C"]);
    let mut keyed = path(c, &[c; 3]);
    keyed.selections[0].role = Some(HarmonicRole::Predominant);
    apply_harmonic_memory(&progression, &mut keyed, NoChordPolicy::Transparent);
    let resolution = keyed.harmonic_resolutions.iter().find(|r| r.source_event_index == 1).unwrap();
    assert_eq!(resolution.resolution_event_index, 2);
    assert_eq!(resolution.intervening_chords, 0);
    assert_eq!(resolution.score, 0);
    assert_eq!(keyed.memory_score, 0);
    assert!(keyed.cadential_spans.iter().any(|cadence| {
        cadence.predominant_event_index == 0
            && cadence.dominant_event_index == 1
            && cadence.resolution_event_index == 2
            && cadence.score == 0
    }));
}

#[test]
fn a_predominant_survives_a_decorative_chord_before_its_dominant() {
    let c = key("C", TonalMode::Major);
    let progression = items(&["Dm7", "Em7", "G7", "C"]);
    let mut keyed = path(c, &[c; 4]);
    keyed.selections[0].role = Some(HarmonicRole::Predominant);
    apply_harmonic_memory(&progression, &mut keyed, NoChordPolicy::Transparent);
    let cadence = keyed.cadential_spans.iter().find(|s| s.predominant_event_index == 0).unwrap();
    assert_eq!(cadence.dominant_event_index, 2);
    assert_eq!(cadence.resolution_event_index, 3);
    assert_eq!(cadence.intervening_before_dominant, 1);
    assert_eq!(cadence.score, 35);
    assert_eq!(keyed.selections[0].pending_predominant.unwrap().source_event_index, 0);
    assert_eq!(keyed.selections[1].pending_predominant.unwrap().intervening_chords, 1);
    assert_eq!(keyed.selections[3].resolved_cadence_predominant_sources, [0]);
}

#[test]
fn a_selected_secondary_deceptive_candidate_discharges_the_goal() {
    let c = key("C", TonalMode::Major);
    let progression = items(&["C", "E7", "FM7", "C"]);
    let mut keyed = path(c, &[c; 4]);
    keyed.selections[2].local_key = key("A", TonalMode::Minor);
    keyed.selections[2].selection.harmonic_classifications.push(HarmonicClassification {
        role: None,
        dominant_relation: None,
        local_degree: None,
        sources: Vec::new(),
        families: vec![InterpretationFamily::SecondaryDominantDeceptive],
        perspective: None,
    });
    apply_harmonic_memory(&progression, &mut keyed, NoChordPolicy::Transparent);
    assert!(keyed.harmonic_resolutions.iter().any(|r| {
        r.source_event_index == 1 && r.resolution_event_index == 2 && r.kind == HarmonicResolutionKind::DeceptiveArrival
    }));
    assert!(keyed.selections[2].pending_resolutions.is_empty());
    assert!(keyed.evidence.iter().all(|e| e.rule_id != "builtin.memory.expired_dominant_target"));
}

#[test]
fn a_boundary_keeps_a_predominant_from_the_next_phrase_cadence() {
    let c = key("C", TonalMode::Major);
    let progression = vec![item("Dm7"), ProgressionItem::boundary("new phrase"), item("Em7"), item("G7"), item("C")];
    let mut keyed = path(c, &[c; 4]);
    for (selection, event) in keyed.selections.iter_mut().zip([0, 2, 3, 4]) {
        selection.selection.event_index = event;
    }
    keyed.selections[0].role = Some(HarmonicRole::Predominant);
    apply_harmonic_memory(&progression, &mut keyed, NoChordPolicy::Transparent);
    assert!(keyed.cadential_spans.iter().all(|cadence| cadence.predominant_event_index != 0));
    assert!(keyed.evidence.iter().any(|e| e.explanation
        == "A context boundary clears 0 dominant target(s) and 1 cadential preparation(s)"));
}

use chord_romanizer::analysis::modulation::build_span_candidate;
use chord_romanizer::{ModulationCadence, ModulationMechanism, PivotKind};

#[test]
fn a_diatonic_pivot_leads_into_a_confirmed_new_key() {
    let c = key("C", TonalMode::Major);
    let g = key("G", TonalMode::Major);
    let progression = items(&["C", "Am", "D7", "G"]);
    let keyed = path(c, &[c; 4]);
    let candidate = build_span_candidate(&vec![0, 1, 2, 3], 3, &progression, &keyed, c, g, 0);
    let span = &candidate.span;
    assert_eq!(candidate.start_index, 1);
    assert_eq!(span.mechanism, ModulationMechanism::DiatonicPivot);
    assert_eq!(span.cadence, ModulationCadence::PredominantAuthentic);
    let pivot = span.pivot.as_ref().unwrap();
    assert_eq!(pivot.event_index, 1);
    assert_eq!(pivot.kind, PivotKind::DiatonicCommonChord);
    assert_eq!((span.start_event_index, span.dominant_event_index, span.confirmation_event_index), (1, 2, 3));
    assert_eq!(span.end_event_index, 3);
    let explanations: Vec<_> = span.evidence.iter().map(|e| e.explanation.as_str()).collect();
    assert_eq!(
        explanations,
        [
            "Changing active key from C major to G major pays a complexity cost",
            "D7 -> G confirms V7-I/i in G major",
            "A target-key predominant precedes V7-I/i in G major",
            "Am is reinterpreted from VI in C major to II in G major",
            "The pivot changes from tonic-prolonging to predominant/subdominant function",
            "1 additional chord(s) support G major around the cadence",
        ]
    );
    assert_eq!(span.score, -240 + 170 + 105 + 90 + 50 + 35);
}

#[test]
fn consecutive_dominants_bridge_into_the_new_key() {
    let c = key("C", TonalMode::Major);
    let d = key("D", TonalMode::Major);
    let progression = items(&["C", "G7", "A7", "D"]);
    let keyed = path(c, &[c; 4]);
    let candidate = build_span_candidate(&vec![0, 1, 2, 3], 3, &progression, &keyed, c, d, 0);
    assert_eq!(candidate.span.mechanism, ModulationMechanism::DominantBridge);
    assert_eq!(candidate.start_index, 1);
    assert!(candidate.span.pivot.is_none());
    assert!(candidate.span.evidence.iter().any(|e| e.rule_id == "builtin.modulation.dominant_bridge"));
}

use chord_romanizer::analysis::modulation::modulation_states;

#[test]
fn the_key_search_keeps_both_routes_and_ranks_the_modulation_first() {
    let c = key("C", TonalMode::Major);
    let g = key("G", TonalMode::Major);
    let progression = items(&["C", "Am", "D7", "G"]);
    let keyed = path(c, &[c; 4]);
    let states = modulation_states(&progression, &keyed, NoChordPolicy::Transparent, 32);
    assert_eq!(states.len(), 2);
    let moved = &states[0];
    assert_eq!(moved.active_key, g);
    assert_eq!(moved.spans.len(), 1);
    let span = &moved.spans[0];
    assert_eq!((span.start_event_index, span.confirmation_event_index, span.end_event_index), (1, 3, 3));
    assert_eq!(span.duration_chords, 3);
    let last = span.evidence.last().unwrap();
    assert_eq!(last.rule_id, "builtin.modulation.key_region_duration");
    assert_eq!(last.contribution, 0);
    assert_eq!(last.explanation, "G major remains active for 3 chord event(s)");
    assert_eq!(moved.score, 210);
    assert_eq!(span.score, 210);
    let stayed = &states[1];
    assert_eq!(stayed.active_key, c);
    assert!(stayed.spans.is_empty());
    assert_eq!(stayed.score, 0);
}

#[test]
fn a_narrow_key_search_keeps_only_the_best_route() {
    let c = key("C", TonalMode::Major);
    let g = key("G", TonalMode::Major);
    let progression = items(&["C", "Am", "D7", "G"]);
    let keyed = path(c, &[c; 4]);
    let states = modulation_states(&progression, &keyed, NoChordPolicy::Transparent, 1);
    assert_eq!(states.len(), 1);
    assert_eq!(states[0].active_key, g);
}

#[test]
fn a_short_key_region_is_scored_as_a_tonicization() {
    let c = key("C", TonalMode::Major);
    let a = key("A", TonalMode::Minor);
    let progression = items(&["F#", "E7", "Am"]);
    let keyed = path(c, &[c; 3]);
    let states = modulation_states(&progression, &keyed, NoChordPolicy::Transparent, 32);
    let moved = states.iter().find(|s| s.active_key == a).unwrap();
    let span = &moved.spans[0];
    assert_eq!(span.mechanism, ModulationMechanism::DirectDominant);
    assert_eq!((span.start_event_index, span.end_event_index), (1, 2));
    assert_eq!(span.duration_chords, 2);
    assert_eq!(span.evidence.last().unwrap().contribution, -35);
}

use chord_romanizer::analysis::modulation::{apply_modulations, expand_modulation_paths};

#[test]
fn the_modulating_alternative_ranks_above_the_home_key_reading() {
    let c = key("C", TonalMode::Major);
    let g = key("G", TonalMode::Major);
    let progression = items(&["C", "Am", "D7", "G"]);
    let keyed = path(c, &[c; 4]);
    let alternatives = expand_modulation_paths(&progression, keyed, NoChordPolicy::Transparent, 2);
    assert_eq!(alternatives.len(), 2);
    let moved = &alternatives[0];
    assert_eq!(moved.modulations.len(), 1);
    assert_eq!(moved.modulation_score, 210);
    assert_eq!(moved.total_score, 210);
    assert_eq!(moved.selections[0].active_key, c);
    assert_eq!(moved.selections[0].selection.candidate_id, "");
    for event in 1..4 {
        let selection = &moved.selections[event];
        assert_eq!(selection.active_key, g);
        assert_eq!(selection.local_key, g);
        assert_eq!(selection.scope, TonalScope::Modulation);
        assert_eq!(selection.selection.candidate_id, "@mod:G:major:diatonic-pivot");
    }
    assert!(moved.selections[1].is_pivot);
    assert_eq!(moved.selections[1].selection.evidence[0].explanation, "This event is the pivot into G major");
    assert!(moved.selections[3].is_modulation_confirmation);
    assert_eq!(moved.selections[3].selection.evidence[0].explanation, "This tonic arrival confirms G major");
    let stayed = &alternatives[1];
    assert!(stayed.modulations.is_empty());
    assert_eq!(stayed.total_score, 0);
    assert!(stayed.selections.iter().all(|s| s.active_key == c && !s.is_pivot));
}

#[test]
fn the_caller_sees_at_most_k_alternatives() {
    let c = key("C", TonalMode::Major);
    let progression = items(&["C", "Am", "D7", "G"]);
    let alternatives = expand_modulation_paths(&progression, path(c, &[c; 4]), NoChordPolicy::Transparent, 1);
    assert_eq!(alternatives.len(), 1);
    assert_eq!(alternatives[0].modulations.len(), 1);
    assert!(expand_modulation_paths(&progression, path(c, &[c; 4]), NoChordPolicy::Transparent, 0).is_empty());
}

#[test]
fn applying_no_span_leaves_the_path_as_it_was() {
    let c = key("C", TonalMode::Major);
    let progression = items(&["C", "G7", "C"]);
    let before = path(c, &[c; 3]);
    let after = apply_modulations(&progression, before.clone(), Vec::new());
    assert_eq!(after, before);
}

use chord_romanizer::analysis::key::keyed_path;
use chord_romanizer::{AnalysisPath, Degree, RomanDegree, ScoreEvidence, TonalPerspective};

fn lattice_selection(event_index: usize, classifications: Vec<HarmonicClassification>) -> PathSelection {
    PathSelection {
        event_index,
        candidate_id: format!("c{event_index}"),
        label: String::new(),
        hybrid_kind: None,
        blackadder: None,
        harmonic_classifications: classifications,
        emission_score: 0,
        transition_score: 0,
        step_score: 0,
        cumulative_score: 0,
        evidence: Vec::new(),
    }
}

fn perspective(local: &str, scope: TonalScope, mode: TonalMode) -> HarmonicClassification {
    HarmonicClassification {
        role: None,
        dominant_relation: None,
        local_degree: None,
        sources: Vec::new(),
        families: Vec::new(),
        perspective: Some(TonalPerspective {
            global_tonic: SpelledNote::parse("F").unwrap(),
            local_tonic: SpelledNote::parse(local).unwrap(),
            local_tonic_degree: Degree::new(0, RomanDegree::I),
            scope,
            mode,
        }),
    }
}

#[test]
fn a_function_path_is_heard_from_its_global_key() {
    let a = key("A", TonalMode::Minor);
    let progression = items(&["Am", "B7", "Em"]);
    let mut tonicized = perspective("E", TonalScope::Tonicization, TonalMode::Unknown);
    tonicized.role = Some(HarmonicRole::Dominant);
    let function_path = AnalysisPath {
        selections: vec![
            lattice_selection(0, Vec::new()),
            lattice_selection(1, vec![perspective("A", TonalScope::Global, TonalMode::Unknown), tonicized]),
            lattice_selection(2, vec![perspective("A", TonalScope::Global, TonalMode::Major)]),
        ],
        total_score: 250,
        evidence: vec![ScoreEvidence::new("f", 250, "function")],
    };
    let key_evidence = vec![ScoreEvidence::new("builtin.key.fit", -40, "key")];
    let keyed = keyed_path(&progression, a, function_path, -40, &key_evidence);
    assert_eq!(keyed.global_key, a);
    assert_eq!((keyed.function_score, keyed.key_score, keyed.total_score), (250, -40, 210));
    assert_eq!(keyed.evidence.iter().map(|e| e.rule_id.as_str()).collect::<Vec<_>>(), ["builtin.key.fit", "f"]);
    let first = &keyed.selections[0];
    assert_eq!((first.local_key, first.scope), (a, TonalScope::Global));
    assert_eq!(first.local_degree, Some(Degree::new(0, RomanDegree::I)));
    assert_eq!(first.role, Some(HarmonicRole::Tonic));
    let second = &keyed.selections[1];
    assert_eq!(second.local_key, key("E", TonalMode::Minor));
    assert_eq!(second.scope, TonalScope::Tonicization);
    assert_eq!(second.role, Some(HarmonicRole::Dominant));
    assert_eq!(second.local_degree, Some(Degree::new(0, RomanDegree::V)));
    let normalized = second.selection.harmonic_classifications[0].perspective.unwrap();
    assert_eq!(normalized.global_tonic, SpelledNote::parse("A").unwrap());
    assert_eq!(normalized.mode, TonalMode::Minor);
    let third = &keyed.selections[2];
    assert_eq!(third.local_key, a);
    assert_eq!(third.scope, TonalScope::Global);
    assert!(keyed.selections.iter().all(|s| s.active_key == a && !s.is_pivot));
}

#[test]
fn without_a_dominant_seventh_cadence_the_path_keeps_its_home_key() {
    let c = key("C", TonalMode::Major);
    let progression = items(&["C", "F", "G", "C"]);
    let states = modulation_states(&progression, &path(c, &[c; 4]), NoChordPolicy::Transparent, 32);
    assert_eq!(states.len(), 1);
    assert_eq!(states[0].active_key, c);
    assert!(states[0].spans.is_empty());
    assert_eq!(states[0].score, 0);
    let alternatives = expand_modulation_paths(&progression, path(c, &[c; 4]), NoChordPolicy::Transparent, 3);
    assert_eq!(alternatives, vec![path(c, &[c; 4])]);
}
