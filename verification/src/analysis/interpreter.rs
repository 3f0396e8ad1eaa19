//! Local interpretation of slash chords and augmented upper structures.
//!
//! This module answers a deliberately local question: "what could this one
//! symbol mean?" Every plausible reading is returned as a
//! [`HybridCandidate`] with an intrinsic score (in hundredths) and a stable
//! rule id, so that progression-level code can still overturn a local choice.

use vstd::prelude::*;
use std::collections::HashSet;
use crate::analysis::blackadder::{
    aug_pc_set, analyze_blackadder, blackadder_readings, blackadder_relative, dist, pc, resolution_preference,
    spelled_on, transition_points, transition_score, views_of, BlackadderContext, BlackadderFunction,
    BlackadderInterpretation, BlackadderStructure, InterpretationView, ReadingView, ScoredBlackadder,
};
use crate::analysis::evidence::{EvidenceView, ScoreEvidence};
use crate::domain::chord::ParsedChord;
use crate::domain::note::{letter_at, letter_index, note_text, SpelledNote};
use crate::domain::quality::QualityClass;
use crate::profile::BehaviorProfile;
use crate::speller::{name_of_pitch_class, pitch_class_name, semitone_distance, spell_pitch_class};
use crate::structure::{
    alterations_fit, slash_formula_fits, aug_triad_pitch_classes, chord_formula, dominant_for, formula, formula_intervals,
    formula_offsets, inversion_for, is_aug_quality, is_dominant_for, is_inversion_for, is_tonic_for,
    legacy_augmented, tonic_for,
};

verus! {

broadcast use vstd::std_specs::hash::group_hash_axioms;

#[derive(Clone, Copy, Debug, Eq, PartialEq, Structural)]
/// Named functional readings recognized by the built-in rule set.
pub enum HybridKind {
    /// No named functional reading.
    Unnamed,
    Blackadder,
    SecondaryDominantThirdInBass,
    HalfDiminishedNine,
    SusFourNine,
    SusFourSevenFlatNine,
}

#[derive(Clone, Copy, Debug, Eq, PartialEq, Structural)]
/// Structural classification of a slash symbol before display formatting.
pub enum SlashClassification {
    /// The chord has no slash bass.
    NoBass,
    /// The bass belongs to the chord formula.
    Inversion,
    /// The bass is not a chord tone and a functional reading was attempted.
    Hybrid(HybridKind),
    /// The quality was unknown, so inversion and hybrid cannot be told apart
    /// without inventing a formula.
    Indeterminate,
}

#[derive(Clone, Copy, Debug, Eq, PartialEq, Structural)]
pub enum FunctionalRole {
    Dominant,
    HalfDiminished,
    SubdominantMinor,
    Predominant,
}

pub open spec fn kind_text(k: HybridKind) -> Seq<char> {
    match k {
        HybridKind::Unnamed => "none"@,
        HybridKind::Blackadder => "blackadder"@,
        HybridKind::SecondaryDominantThirdInBass => "sec_dom_3inbass"@,
        HybridKind::HalfDiminishedNine => "halfdim9"@,
        HybridKind::SusFourNine => "9sus4"@,
        HybridKind::SusFourSevenFlatNine => "7sus4(b9)"@,
    }
}

impl HybridKind {
    pub fn as_str(self) -> (r: &'static str)
        ensures
            r@ == kind_text(self),
    {
        match self {
            HybridKind::Unnamed => "none",
            HybridKind::Blackadder => "blackadder",
            HybridKind::SecondaryDominantThirdInBass => "sec_dom_3inbass",
            HybridKind::HalfDiminishedNine => "halfdim9",
            HybridKind::SusFourNine => "9sus4",
            HybridKind::SusFourSevenFlatNine => "7sus4(b9)",
        }
    }
}

/// Abstract form of a local reading.
pub struct AnalysisView {
    pub is_hybrid: bool,
    pub alter: Option<Seq<char>>,
    pub bass_preference: Option<bool>,
    pub root_override: Option<SpelledNote>,
    pub kind: HybridKind,
    pub slash_classification: SlashClassification,
    pub effective_root: Option<SpelledNote>,
    pub functional_role: Option<FunctionalRole>,
    pub blackadder: Option<InterpretationView>,
}

#[derive(Clone, Debug, PartialEq)]
/// One local reading of a slash chord.
///
/// `root_override` corrects the spelling of the written upper structure;
/// `effective_root` is the functional root used for progression motion.
/// They differ in an augmented-over-bass chord.
pub struct HybridAnalysis {
    pub is_hybrid: bool,
    pub alter: Option<String>,
    pub bass_preference: Option<bool>,
    pub root_override: Option<SpelledNote>,
    pub kind: HybridKind,
    pub slash_classification: SlashClassification,
    pub effective_root: Option<SpelledNote>,
    pub functional_role: Option<FunctionalRole>,
    /// Factorized reading of an exact Blackadder sonority.
    pub blackadder: Option<BlackadderInterpretation>,
}

impl View for HybridAnalysis {
    type V = AnalysisView;

    open spec fn view(&self) -> AnalysisView {
        AnalysisView {
            is_hybrid: self.is_hybrid,
            alter: match self.alter {
                Some(a) => Some(a@),
                None => None,
            },
            bass_preference: self.bass_preference,
            root_override: self.root_override,
            kind: self.kind,
            slash_classification: self.slash_classification,
            effective_root: self.effective_root,
            functional_role: self.functional_role,
            blackadder: match self.blackadder {
                Some(b) => Some(b@),
                None => None,
            },
        }
    }
}

/// The plain reading: no hybrid, no slash classification.
pub open spec fn plain_analysis() -> AnalysisView {
    AnalysisView {
        is_hybrid: false,
        alter: None,
        bass_preference: None,
        root_override: None,
        kind: HybridKind::Unnamed,
        slash_classification: SlashClassification::NoBass,
        effective_root: None,
        functional_role: None,
        blackadder: None,
    }
}

impl HybridAnalysis {
    /// A copy of the same reading.
    pub fn duplicate(&self) -> (r: Self)
        ensures
            r@ == self@,
    {
        HybridAnalysis {
            is_hybrid: self.is_hybrid,
            alter: match &self.alter {
                Some(a) => Some(a.clone()),
                None => None,
            },
            bass_preference: self.bass_preference,
            root_override: self.root_override,
            kind: self.kind,
            slash_classification: self.slash_classification,
            effective_root: self.effective_root,
            functional_role: self.functional_role,
            blackadder: match &self.blackadder {
                Some(b) => Some(b.duplicate()),
                None => None,
            },
        }
    }
}

impl Default for HybridAnalysis {
    fn default() -> (r: Self)
        ensures
            r@ == plain_analysis(),
    {
        HybridAnalysis {
            is_hybrid: false,
            alter: None,
            bass_preference: None,
            root_override: None,
            kind: HybridKind::Unnamed,
            slash_classification: SlashClassification::NoBass,
            effective_root: None,
            functional_role: None,
            blackadder: None,
        }
    }
}

/// Abstract form of a candidate.
pub struct CandidateView {
    pub analysis: AnalysisView,
    pub intrinsic_score: int,
    pub rule_id: Seq<char>,
    pub evidence: Seq<EvidenceView>,
}

#[derive(Clone, Debug, PartialEq)]
/// A local reading plus the score (in hundredths) and rule that produced it.
pub struct HybridCandidate {
    pub analysis: HybridAnalysis,
    pub intrinsic_score: i64,
    pub rule_id: String,
    pub evidence: Vec<ScoreEvidence>,
}

impl View for HybridCandidate {
    type V = CandidateView;

    open spec fn view(&self) -> CandidateView {
        CandidateView {
            analysis: self.analysis@,
            intrinsic_score: self.intrinsic_score as int,
            rule_id: self.rule_id@,
            evidence: self.evidence@.map_values(|e: ScoreEvidence| e@),
        }
    }
}

pub open spec fn candidate_views(s: Seq<HybridCandidate>) -> Seq<CandidateView> {
    s.map_values(|c: HybridCandidate| c@)
}

/// A candidate whose only evidence is its generating rule.
pub open spec fn rule_candidate(analysis: AnalysisView, score: int, rule: Seq<char>) -> CandidateView {
    CandidateView {
        analysis,
        intrinsic_score: score,
        rule_id: rule,
        evidence: seq![EvidenceView { rule_id: rule, contribution: score, explanation: "Candidate generated by "@ + rule }],
    }
}

fn hybrid_candidate(analysis: HybridAnalysis, intrinsic_score: i64, rule_id: &str) -> (r: HybridCandidate)
    ensures
        r@ == rule_candidate(analysis@, intrinsic_score as int, rule_id@),
{
    let mut why = String::from_str("Candidate generated by ");
    why.append(rule_id);
    let evidence = vec![ScoreEvidence { rule_id: String::from_str(rule_id), contribution: intrinsic_score, explanation: why }];
    let r = HybridCandidate { analysis, intrinsic_score, rule_id: String::from_str(rule_id), evidence };
    assert(r.evidence@.map_values(|e: ScoreEvidence| e@) =~= seq![
        EvidenceView { rule_id: rule_id@, contribution: intrinsic_score as int, explanation: "Candidate generated by "@ + rule_id@ },
    ]);
    r
}

/// A hybrid reading of one kind.
pub open spec fn hybrid_analysis_of(kind: HybridKind, alter: Seq<char>, bass_preference: Option<bool>, root_override: Option<SpelledNote>, effective_root: SpelledNote, role: FunctionalRole) -> AnalysisView {
    AnalysisView {
        is_hybrid: true,
        alter: Some(alter),
        bass_preference,
        root_override,
        kind,
        slash_classification: SlashClassification::Hybrid(kind),
        effective_root: Some(effective_root),
        functional_role: Some(role),
        blackadder: None,
    }
}

/// Hybrid kind of a Blackadder structure.
pub open spec fn kind_of_structure(s: BlackadderStructure) -> HybridKind {
    match s {
        BlackadderStructure::HalfDiminishedAddNineOmitThird => HybridKind::HalfDiminishedNine,
        BlackadderStructure::RootlessDominantThirdInBass => HybridKind::SecondaryDominantThirdInBass,
        _ => HybridKind::Blackadder,
    }
}

/// Functional role of a Blackadder reading.
pub open spec fn role_of_reading(i: InterpretationView) -> Option<FunctionalRole> {
    match i.function {
        Some(BlackadderFunction::SubdominantMinor) => Some(FunctionalRole::SubdominantMinor),
        Some(BlackadderFunction::Predominant) => if i.structure == BlackadderStructure::HalfDiminishedAddNineOmitThird {
            Some(FunctionalRole::HalfDiminished)
        } else {
            Some(FunctionalRole::Predominant)
        },
        Some(_) => Some(FunctionalRole::Dominant),
        None => None,
    }
}

/// The candidate carrying one Blackadder reading.
pub open spec fn reading_candidate(r: ReadingView) -> CandidateView {
    let kind = kind_of_structure(r.interpretation.structure);
    CandidateView {
        analysis: AnalysisView {
            is_hybrid: true,
            alter: Some(r.alter),
            bass_preference: r.bass_preference,
            root_override: r.root_override,
            kind,
            slash_classification: SlashClassification::Hybrid(kind),
            effective_root: r.interpretation.effective_root,
            functional_role: role_of_reading(r.interpretation),
            blackadder: Some(r.interpretation),
        },
        intrinsic_score: r.intrinsic_score,
        rule_id: if r.evidence.len() > 0 {
            r.evidence[0].rule_id
        } else {
            "builtin.blackadder"@
        },
        evidence: r.evidence,
    }
}

/// Legacy Blackadder reading: the tritone above the bass lies in the
/// augmented triad; semitone and whole-tone continuations of the bass and a
/// rootless dominant resolving to a tonic add evidence.
pub open spec fn legacy_blackadder(chord: ParsedChord, next: Option<&ParsedChord>, behavior: BehaviorProfile) -> Option<CandidateView> {
    let bass = chord.bass.unwrap();
    let anchor_pc = (pc(bass) + 6) % 12;
    if !aug_pc_set(chord.root).contains(anchor_pc) {
        None
    } else {
        let bp = resolution_preference(bass, next);
        let bass_fixed = pitch_class_name(pc(bass), bp);
        let anchor = pitch_class_name(anchor_pc, bp);
        let motion = match next {
            Some(n) => (if dist(n.root, bass) == 1 || dist(n.root, bass) == 11 { 300int } else { 0int }) + (if dist(
                n.root,
                bass,
            ) == 2 && tonic_for(*n, behavior) { 500int } else { 0int }),
            None => 0,
        };
        let dominant = spelled_on(letter_at(letter_index(anchor.letter) + 1), (anchor_pc + 2) % 12);
        let resolves = next matches Some(n) && (dist(n.root, dominant) == 5 || dist(n.root, dominant) == 7) && tonic_for(
            *n,
            behavior,
        );
        let kind = if resolves {
            HybridKind::SecondaryDominantThirdInBass
        } else {
            HybridKind::Blackadder
        };
        let ro = if pc(chord.root) != anchor_pc {
            Some(anchor)
        } else {
            None
        };
        let analysis = if resolves {
            hybrid_analysis_of(kind, note_text(dominant) + "7(9,#11)/"@ + note_text(bass_fixed), bp, ro, dominant,
                FunctionalRole::Dominant)
        } else {
            hybrid_analysis_of(kind, note_text(bass_fixed) + "7(9,#11)"@, bp, ro, bass_fixed, FunctionalRole::Dominant)
        };
        Some(rule_candidate(analysis, if resolves { motion + 600 } else { motion }, if resolves {
            "builtin.hybrid.secondary_dominant_third_in_bass"@
        } else {
            "builtin.hybrid.blackadder"@
        }))
    }
}

/// Legacy half-diminished-ninth reading: viewed from the bass the triad
/// supplies `{2, 6, 10}`; a following dominant adds evidence, more when the
/// bass moves to it by fourth or fifth.
pub open spec fn legacy_half_diminished(chord: ParsedChord, next: Option<&ParsedChord>, behavior: BehaviorProfile) -> Option<CandidateView> {
    let bass = chord.bass.unwrap();
    if !set![2int, 6, 10].subset_of(blackadder_relative(chord.root, bass)) {
        None
    } else {
        let score = 50 + match next {
            Some(n) => if (dist(n.root, bass) == 5 || dist(n.root, bass) == 7) && dominant_for(*n, behavior) {
                600int
            } else if dominant_for(*n, behavior) {
                200int
            } else {
                0int
            },
            None => 0,
        };
        let bass_fixed = pitch_class_name(pc(bass), None);
        Some(rule_candidate(
            hybrid_analysis_of(HybridKind::HalfDiminishedNine, note_text(bass_fixed) + "m7-5(9)"@, None, None,
                bass_fixed, FunctionalRole::HalfDiminished),
            score,
            "builtin.hybrid.half_diminished_nine"@,
        ))
    }
}

pub open spec fn option_seq<T>(o: Option<T>) -> Seq<T> {
    match o {
        Some(x) => seq![x],
        None => Seq::empty(),
    }
}

/// Candidates of an augmented triad over a foreign bass.
pub open spec fn aug_candidates(chord: ParsedChord, ctx: BlackadderContext, behavior: BehaviorProfile) -> Seq<CandidateView> {
    match behavior {
        BehaviorProfile::StrictV1 => blackadder_readings(chord, ctx, behavior).map_values(
            |r: ReadingView| reading_candidate(r),
        ),
        BehaviorProfile::Python019 => option_seq(legacy_blackadder(chord, ctx.next_chord, behavior)) + option_seq(
            legacy_half_diminished(chord, ctx.next_chord, behavior),
        ),
    }
}

/// Pitch classes of the formula measured from the bass.
pub open spec fn bass_relative(chord: ParsedChord, behavior: BehaviorProfile) -> Set<int> {
    let d = dist(chord.root, chord.bass.unwrap());
    match formula_offsets(chord, behavior) {
        Some(offsets) => offsets.map(|x: u8| (x + d) % 12),
        None => Set::empty(),
    }
}

/// Sus reading of a slash chord: with no third above the bass, `{2,5,10}`
/// is a `9sus4` and `{1,5,10}` a `7sus4(b9)` over the written bass.
pub open spec fn sus_kind(chord: ParsedChord, behavior: BehaviorProfile) -> HybridKind {
    let rel = bass_relative(chord, behavior);
    if rel.contains(3) || rel.contains(4) {
        HybridKind::Unnamed
    } else if rel.contains(2) && rel.contains(5) && rel.contains(10) {
        HybridKind::SusFourNine
    } else if rel.contains(1) && rel.contains(5) && rel.contains(10) {
        HybridKind::SusFourSevenFlatNine
    } else {
        HybridKind::Unnamed
    }
}

pub open spec fn lexeme_text(l: Option<String>) -> Seq<char> {
    match l {
        Some(s) => s@,
        None => Seq::empty(),
    }
}

/// The non-augmented hybrid candidate: a sus reading or an unclassified
/// hybrid over the written bass.
pub open spec fn normal_hybrid(chord: ParsedChord, behavior: BehaviorProfile) -> CandidateView {
    let kind = sus_kind(chord, behavior);
    let analysis = AnalysisView {
        is_hybrid: true,
        alter: match kind {
            HybridKind::SusFourNine => Some(lexeme_text(chord.bass_lexeme) + "9sus4"@),
            HybridKind::SusFourSevenFlatNine => Some(lexeme_text(chord.bass_lexeme) + "7sus4(b9)"@),
            _ => None,
        },
        kind,
        slash_classification: SlashClassification::Hybrid(kind),
        effective_root: chord.bass,
        functional_role: if kind == HybridKind::Unnamed {
            None
        } else {
            Some(FunctionalRole::Dominant)
        },
        ..plain_analysis()
    };
    match kind {
        HybridKind::SusFourNine => rule_candidate(analysis, 75, "builtin.hybrid.sus4_9"@),
        HybridKind::SusFourSevenFlatNine => rule_candidate(analysis, 75, "builtin.hybrid.sus4_7_b9"@),
        _ => rule_candidate(analysis, 0, "builtin.hybrid.unclassified"@),
    }
}

/// Whether the chord is read as an augmented triad under the profile.
pub open spec fn augmented_for(chord: ParsedChord, behavior: BehaviorProfile) -> bool {
    match behavior {
        BehaviorProfile::Python019 => legacy_augmented(chord.quality@),
        BehaviorProfile::StrictV1 => chord.quality_parsed.class == QualityClass::Augmented,
    }
}

/// Every local reading of a symbol, in rule order: a plain chord has one
/// neutral reading; StrictV1 declines to classify an unknown quality; an
/// inversion needs no reinterpretation; an augmented triad over a foreign
/// bass keeps all its readings; anything else is one sus or unclassified
/// hybrid.
pub open spec fn slash_candidates(chord: ParsedChord, ctx: BlackadderContext, behavior: BehaviorProfile) -> Seq<CandidateView> {
    if chord.bass is None {
        seq![rule_candidate(plain_analysis(), 0, "builtin.slash.none"@)]
    } else if behavior == BehaviorProfile::StrictV1 && chord_formula(chord, behavior) is None {
        seq![rule_candidate(AnalysisView { slash_classification: SlashClassification::Indeterminate, ..plain_analysis() }, 0, "builtin.slash.indeterminate"@)]
    } else if inversion_for(chord, behavior) {
        seq![rule_candidate(AnalysisView { slash_classification: SlashClassification::Inversion, ..plain_analysis() }, 0, "builtin.slash.inversion"@)]
    } else if augmented_for(chord, behavior) && aug_candidates(chord, ctx, behavior).len() > 0 {
        aug_candidates(chord, ctx, behavior)
    } else {
        seq![normal_hybrid(chord, behavior)]
    }
}

/// A slash chord that is neither an inversion nor an augmented triad, and
/// whose tones above the bass hold no third (neither 3 nor 4 semitones),
/// is read as a suspended dominant on the bass: with a fourth (5), a minor
/// seventh (10) and a ninth (2) it is a `9sus4`; with the fourth and
/// seventh, no ninth but a flat ninth (1), a `7sus4(b9)`; either label is
/// the written bass followed by the suffix. A third above the bass leaves
/// the hybrid unclassified.
pub proof fn lemma_sus_readings_over_the_bass(chord: ParsedChord, ctx: BlackadderContext, behavior: BehaviorProfile)
    requires
        chord.bass is Some,
        !(behavior == BehaviorProfile::StrictV1 && chord_formula(chord, behavior) is None),
        !inversion_for(chord, behavior),
        !augmented_for(chord, behavior),
    ensures
        ({
            let rel = bass_relative(chord, behavior);
            let c = slash_candidates(chord, ctx, behavior);
            &&& c.len() == 1
            &&& c[0].analysis.effective_root == chord.bass
            &&& !rel.contains(3) && !rel.contains(4) && rel.contains(1) && !rel.contains(2) && rel.contains(5)
                && rel.contains(10) ==> c[0].analysis.kind == HybridKind::SusFourSevenFlatNine && c[0].analysis.alter
                == Some(lexeme_text(chord.bass_lexeme) + "7sus4(b9)"@) && c[0].rule_id == "builtin.hybrid.sus4_7_b9"@
                && c[0].analysis.functional_role == Some(FunctionalRole::Dominant)
            &&& !rel.contains(3) && !rel.contains(4) && rel.contains(2) && rel.contains(5) && rel.contains(10)
                ==> c[0].analysis.kind == HybridKind::SusFourNine && c[0].analysis.alter == Some(
                lexeme_text(chord.bass_lexeme) + "9sus4"@,
            ) && c[0].rule_id == "builtin.hybrid.sus4_9"@
            &&& rel.contains(3) || rel.contains(4) ==> c[0].analysis.kind == HybridKind::Unnamed
                && c[0].analysis.alter is None && c[0].rule_id == "builtin.hybrid.unclassified"@
        }),
{
}

/// Candidate score for the immediate continuation: the intrinsic score plus
/// the Blackadder transition evidence.
pub open spec fn contextual_points(c: CandidateView, next: Option<&ParsedChord>, tonic: Option<SpelledNote>, behavior: BehaviorProfile) -> int {
    c.intrinsic_score + match c.analysis.blackadder {
        Some(i) => transition_points(i, next, tonic, behavior),
        None => 0,
    }
}

/// Index of the first highest-scoring candidate.
pub open spec fn best_index(cs: Seq<CandidateView>, next: Option<&ParsedChord>, tonic: Option<SpelledNote>, behavior: BehaviorProfile) -> int
    decreases cs.len(),
{
    if cs.len() <= 1 {
        0
    } else {
        let j = best_index(cs.drop_last(), next, tonic, behavior);
        if contextual_points(cs.last(), next, tonic, behavior) > contextual_points(cs[j], next, tonic, behavior) {
            cs.len() - 1
        } else {
            j
        }
    }
}

pub proof fn lemma_best_index_range(cs: Seq<CandidateView>, next: Option<&ParsedChord>, tonic: Option<SpelledNote>, behavior: BehaviorProfile)
    requires
        cs.len() > 0,
    ensures
        0 <= best_index(cs, next, tonic, behavior) < cs.len(),
    decreases cs.len(),
{
    if cs.len() > 1 {
        lemma_best_index_range(cs.drop_last(), next, tonic, behavior);
    }
}

/// The first best candidate scores at least as much as every candidate and
/// more than every earlier one.
pub proof fn lemma_best_index_is_best(cs: Seq<CandidateView>, next: Option<&ParsedChord>, tonic: Option<SpelledNote>, behavior: BehaviorProfile, k: int)
    requires
        0 <= k < cs.len(),
    ensures
        contextual_points(cs[k], next, tonic, behavior) <= contextual_points(cs[best_index(cs, next, tonic, behavior)], next, tonic, behavior),
        k < best_index(cs, next, tonic, behavior) ==> contextual_points(cs[k], next, tonic, behavior) < contextual_points(
            cs[best_index(cs, next, tonic, behavior)],
            next,
            tonic,
            behavior,
        ),
    decreases cs.len(),
{
    lemma_best_index_range(cs, next, tonic, behavior);
    if cs.len() > 1 {
        let j = best_index(cs.drop_last(), next, tonic, behavior);
        lemma_best_index_range(cs.drop_last(), next, tonic, behavior);
        if k < cs.len() - 1 {
            lemma_best_index_is_best(cs.drop_last(), next, tonic, behavior, k);
        }
    }
}

/// Viewed from the bass, an augmented triad supplies `{2,6,10}` exactly when
/// its root lies 2, 6 or 10 semitones above the bass.
#[verifier::spinoff_prover]
pub proof fn lemma_shape_subset(root: SpelledNote, bass: SpelledNote)
    ensures
        set![2int, 6, 10].subset_of(blackadder_relative(root, bass)) <==> (dist(root, bass) == 2 || dist(root, bass) == 6
            || dist(root, bass) == 10),
{
    let d = dist(root, bass);
    let r = pc(root);
    let b = pc(bass);
    assert(((r + 4) % 12 - b) % 12 == (d + 4) % 12);
    assert(((r + 8) % 12 - b) % 12 == (d + 8) % 12);
    let rel = blackadder_relative(root, bass);
    if d == 2 || d == 6 || d == 10 {
        assert(rel =~= set![2int, 6, 10]);
    } else {
        assert(d % 4 != 2);
        assert(d != 2 && (d + 4) % 12 != 2 && (d + 8) % 12 != 2);
        assert(!rel.contains(2));
    }
}

/// A formula's offsets shifted up by `d` hold `t` exactly when the offsets
/// hold `t - d`.
pub proof fn lemma_shifted_offsets(offsets: Set<u8>, d: int, t: int)
    requires
        forall|x: u8| offsets.contains(x) ==> x < 12,
        0 <= d < 12,
        0 <= t < 12,
    ensures
        offsets.map(|x: u8| (x + d) % 12).contains(t) <==> offsets.contains(((t - d) % 12) as u8),
{
    let f = |x: u8| (x + d) % 12;
    let w = ((t - d) % 12) as u8;
    if offsets.contains(w) {
        assert(f(w) == t);
        assert(offsets.map(f).contains(f(w)));
    }
    if offsets.map(f).contains(t) {
        let x = choose|x: u8| offsets.contains(x) && t == f(x);
        assert(x == w);
    }
}

/// Formula offsets are pitch classes above the root.
pub proof fn lemma_formula_offsets_range(chord: ParsedChord, behavior: BehaviorProfile)
    requires
        formula_offsets(chord, behavior) is Some,
    ensures
        forall|x: u8| formula_offsets(chord, behavior).unwrap().contains(x) ==> x < 12,
{
    let tones = chord_formula(chord, behavior).unwrap();
    assert forall|x: u8| formula_offsets(chord, behavior).unwrap().contains(x) implies x < 12 by {
        let m = tones.map_values(|t: crate::structure::StructuredTone| (t.semitones as int % 12) as u8);
        let k = choose|k: int| 0 <= k < m.len() && m[k] == x;
        assert(0 <= tones[k].semitones as int % 12 < 12);
    }
}

fn reading_to_candidate(r: ScoredBlackadder) -> (c: HybridCandidate)
    ensures
        c@ == reading_candidate(r@),
{
    let ghost rv = r@;
    let kind = match r.interpretation.structure {
        BlackadderStructure::HalfDiminishedAddNineOmitThird => HybridKind::HalfDiminishedNine,
        BlackadderStructure::RootlessDominantThirdInBass => HybridKind::SecondaryDominantThirdInBass,
        _ => HybridKind::Blackadder,
    };
    let functional_role = match r.interpretation.function {
        Some(BlackadderFunction::SubdominantMinor) => Some(FunctionalRole::SubdominantMinor),
        Some(BlackadderFunction::Predominant) => if matches!(
            r.interpretation.structure,
            BlackadderStructure::HalfDiminishedAddNineOmitThird
        ) {
            Some(FunctionalRole::HalfDiminished)
        } else {
            Some(FunctionalRole::Predominant)
        },
        Some(_) => Some(FunctionalRole::Dominant),
        None => None,
    };
    let rule_id = if r.evidence.len() > 0 {
        r.evidence[0].rule_id.clone()
    } else {
        String::from_str("builtin.blackadder")
    };
    let effective_root = r.interpretation.effective_root;
    let c = HybridCandidate {
        analysis: HybridAnalysis {
            is_hybrid: true,
            alter: Some(r.alter),
            bass_preference: r.bass_preference,
            root_override: r.root_override,
            kind,
            slash_classification: SlashClassification::Hybrid(kind),
            effective_root,
            functional_role,
            blackadder: Some(r.interpretation),
        },
        intrinsic_score: r.intrinsic_score,
        rule_id,
        evidence: r.evidence,
    };
    assert(c@.evidence =~= rv.evidence);
    c
}

fn candidates_of_readings(readings: Vec<ScoredBlackadder>) -> (r: Vec<HybridCandidate>)
    ensures
        candidate_views(r@) == views_of(readings@).map_values(|x: ReadingView| reading_candidate(x)),
{
    let ghost orig = readings@;
    let mut input = readings;
    let mut out: Vec<HybridCandidate> = Vec::new();
    let ghost mut k: int = 0;
    while input.len() > 0
        invariant
            0 <= k <= orig.len(),
            input@ == orig.skip(k),
            candidate_views(out@) == views_of(orig.take(k)).map_values(|x: ReadingView| reading_candidate(x)),
        decreases input.len(),
    {
        let r = input.remove(0);
        let c = reading_to_candidate(r);
        let ghost prev = out@;
        out.push(c);
        proof {
            assert(orig.skip(k)[0] == orig[k]);
            assert(orig.skip(k + 1) =~= orig.skip(k).remove(0));
            assert(candidate_views(out@) =~= candidate_views(prev).push(c@));
            assert(views_of(orig.take(k + 1)).map_values(|x: ReadingView| reading_candidate(x)) =~= views_of(
                orig.take(k),
            ).map_values(|x: ReadingView| reading_candidate(x)).push(reading_candidate(orig[k]@)));
            k = k + 1;
        }
    }
    assert(orig.take(k) =~= orig);
    out
}

#[derive(Clone, Copy, Debug)]
pub struct ChordInterpreter {
    behavior: BehaviorProfile,
}

impl Default for ChordInterpreter {
    fn default() -> (r: Self)
        ensures
            r.spec_behavior() == BehaviorProfile::StrictV1,
    {
        ChordInterpreter { behavior: BehaviorProfile::StrictV1 }
    }
}

impl ChordInterpreter {
    pub fn new(behavior: BehaviorProfile) -> (r: Self)
        ensures
            r.spec_behavior() == behavior,
    {
        ChordInterpreter { behavior }
    }

    pub closed spec fn spec_behavior(self) -> BehaviorProfile {
        self.behavior
    }

    pub fn behavior(self) -> (r: BehaviorProfile)
        ensures
            r == self.spec_behavior(),
    {
        self.behavior
    }

    /// Legacy Blackadder check (Python019 profile).
    fn check_blackadder(&self, chord: &ParsedChord, next_chord: Option<&ParsedChord>) -> (r: Option<HybridCandidate>)
        requires
            chord.bass is Some,
        ensures
            match legacy_blackadder(*chord, next_chord, self.spec_behavior()) {
                Some(c) => r matches Some(x) && x@ == c,
                None => r is None,
            },
    {
        let bass = chord.bass.unwrap();
        let bass_pc = bass.pitch_class();
        let triad = aug_triad_pitch_classes(chord.root);
        // The shape is recognized when the pitch a tritone above the bass is
        // in the augmented triad; that member gives the display spelling.
        let anchor_pc = bass_pc.offset(6);
        let anchor_value = anchor_pc.value();
        let _ = chord.root.pitch_class().value();
        if !triad.contains(&anchor_value) {
            return None;
        }
        let mut score: i64 = 0;
        let bass_preference = self.bass_preference_from_resolution(bass, next_chord);
        let bass_fixed = name_of_pitch_class(bass_pc, bass_preference);
        let anchor = name_of_pitch_class(anchor_pc, bass_preference);
        if let Some(next) = next_chord {
            let bass_to_next = semitone_distance(next.root, bass);
            // A semitone continuation is suggestive evidence.
            if bass_to_next == 1 || bass_to_next == 11 {
                score = score + 300;
            }
            if bass_to_next == 2 && is_tonic_for(next, self.behavior) {
                score = score + 500;
            }
        }
        let mut alter = String::new();
        let mut kind = HybridKind::Blackadder;
        let mut effective_root = bass_fixed;
        let mut resolves = false;
        let dominant = spell_pitch_class(anchor.letter.shift(1), anchor_pc.offset(2));
        if let Some(next) = next_chord {
            // The same pitches as a dominant with its third in the bass, when
            // that dominant resolves to the next tonic-like chord.
            let dominant_to_next = semitone_distance(next.root, dominant);
            if (dominant_to_next == 5 || dominant_to_next == 7) && is_tonic_for(next, self.behavior) {
                resolves = true;
            }
        }
        if resolves {
            alter = dominant.to_string();
            alter.append("7(9,#11)/");
            let b = bass_fixed.to_string();
            alter.append(b.as_str());
            kind = HybridKind::SecondaryDominantThirdInBass;
            effective_root = dominant;
            score = score + 600;
        } else {
            alter = bass_fixed.to_string();
            alter.append("7(9,#11)");
        }
        let root_override = if chord.root.pitch_class().value() != anchor_value {
            Some(anchor)
        } else {
            None
        };
        let analysis = HybridAnalysis {
            is_hybrid: true,
            alter: Some(alter),
            bass_preference,
            root_override,
            kind,
            slash_classification: SlashClassification::Hybrid(kind),
            effective_root: Some(effective_root),
            functional_role: Some(FunctionalRole::Dominant),
            blackadder: None,
        };
        let rule = if resolves {
            "builtin.hybrid.secondary_dominant_third_in_bass"
        } else {
            "builtin.hybrid.blackadder"
        };
        Some(hybrid_candidate(analysis, score, rule))
    }

    /// Legacy half-diminished-ninth check (Python019 profile).
    fn check_half_diminished(&self, chord: &ParsedChord, next_chord: Option<&ParsedChord>) -> (r: Option<HybridCandidate>)
        requires
            chord.bass is Some,
        ensures
            match legacy_half_diminished(*chord, next_chord, self.spec_behavior()) {
                Some(c) => r matches Some(x) && x@ == c,
                None => r is None,
            },
    {
        let bass = chord.bass.unwrap();
        proof {
            lemma_shape_subset(chord.root, bass);
        }
        let d = semitone_distance(chord.root, bass);
        if !(d == 2 || d == 6 || d == 10) {
            return None;
        }
        // A small base bias wins a context-free tie; a following dominant is
        // much stronger evidence of ii-V.
        let mut score: i64 = 50;
        if let Some(next) = next_chord {
            let bass_to_next = semitone_distance(next.root, bass);
            let next_is_dominant = is_dominant_for(next, self.behavior);
            if (bass_to_next == 5 || bass_to_next == 7) && next_is_dominant {
                score = score + 600;
            } else if next_is_dominant {
                score = score + 200;
            }
        }
        let bass_fixed = name_of_pitch_class(bass.pitch_class(), None);
        let mut alter = bass_fixed.to_string();
        alter.append("m7-5(9)");
        let analysis = HybridAnalysis {
            is_hybrid: true,
            alter: Some(alter),
            bass_preference: None,
            root_override: None,
            kind: HybridKind::HalfDiminishedNine,
            slash_classification: SlashClassification::Hybrid(HybridKind::HalfDiminishedNine),
            effective_root: Some(bass_fixed),
            functional_role: Some(FunctionalRole::HalfDiminished),
            blackadder: None,
        };
        Some(hybrid_candidate(analysis, score, "builtin.hybrid.half_diminished_nine"))
    }

    fn infer_aug_candidates(&self, chord: &ParsedChord, context: BlackadderContext) -> (r: Vec<HybridCandidate>)
        requires
            chord.bass is Some,
            slash_formula_fits(*chord, self.spec_behavior()),
        ensures
            candidate_views(r@) == aug_candidates(*chord, context, self.spec_behavior()),
    {
        if matches!(self.behavior, BehaviorProfile::StrictV1) {
            return candidates_of_readings(analyze_blackadder(chord, context, self.behavior));
        }
        // The legacy readings are not mutually exclusive; their scores only
        // express preference.
        let mut candidates: Vec<HybridCandidate> = Vec::new();
        let ghost before = candidate_views(candidates@);
        if let Some(c) = self.check_blackadder(chord, context.next_chord) {
            candidates.push(c);
        }
        let ghost mid = candidates@;
        if let Some(c) = self.check_half_diminished(chord, context.next_chord) {
            candidates.push(c);
        }
        assert(candidate_views(candidates@) =~= option_seq(legacy_blackadder(*chord, context.next_chord, self.behavior))
            + option_seq(legacy_half_diminished(*chord, context.next_chord, self.behavior)));
        candidates
    }

    /// Pitch classes of the formula measured from the bass, as a set.
    #[verifier::rlimit(40)]
    fn bass_relative_set(&self, chord: &ParsedChord) -> (r: HashSet<u8>)
        requires
            chord.bass is Some,
            slash_formula_fits(*chord, self.spec_behavior()),
        ensures
            forall|t: u8| t < 12 ==> (r@.contains(t) <==> bass_relative(*chord, self.spec_behavior()).contains(t as int)),
    {
        let bass = chord.bass.unwrap();
        let distance = semitone_distance(chord.root, bass);
        let ghost d = distance as int;
        let tones = match formula_intervals(chord, self.behavior) {
            Some(t) => t,
            None => HashSet::new(),
        };
        let ghost offsets = tones@;
        proof {
            if formula_offsets(*chord, self.behavior) is Some {
                lemma_formula_offsets_range(*chord, self.behavior);
            }
            assert(bass_relative(*chord, self.behavior) =~= offsets.map(|x: u8| (x + d) % 12));
        }
        let mut r: HashSet<u8> = HashSet::new();
        let mut t: u8 = 0;
        while t < 12
            invariant
                t <= 12,
                distance < 12,
                d == distance,
                tones@ == offsets,
                forall|x: u8| offsets.contains(x) ==> x < 12,
                bass_relative(*chord, self.spec_behavior()) == offsets.map(|x: u8| (x + d) % 12),
                forall|u: u8| u < t ==> (r@.contains(u) <==> bass_relative(*chord, self.spec_behavior()).contains(u as int)),
                forall|u: u8| r@.contains(u) ==> u < t,
            decreases 12 - t,
        {
            proof {
                lemma_shifted_offsets(offsets, d, t as int);
            }
            // Membership of `t` above the bass is membership of `t - distance`
            // above the root.
            if tones.contains(&((t + 12 - distance) % 12)) {
                r.insert(t);
            }
            t = t + 1;
        }
        r
    }

    /// The sus reading of a non-augmented slash chord, if any.
    fn infer_normal_hybrid(&self, chord: &ParsedChord) -> (r: (Option<String>, HybridKind))
        requires
            chord.bass is Some,
            slash_formula_fits(*chord, self.spec_behavior()),
        ensures
            r.1 == sus_kind(*chord, self.spec_behavior()),
            r.0 matches Some(a) ==> normal_hybrid(*chord, self.spec_behavior()).analysis.alter == Some(a@),
            r.0 is None ==> normal_hybrid(*chord, self.spec_behavior()).analysis.alter is None,
    {
        let relative = self.bass_relative_set(chord);
        // A sus label needs the absence of a third above the functional
        // bass; otherwise a tertian reading describes the same set.
        if relative.contains(&3) || relative.contains(&4) {
            return (None, HybridKind::Unnamed);
        }
        let lexeme = match &chord.bass_lexeme {
            Some(l) => l.clone(),
            None => String::new(),
        };
        if relative.contains(&2) && relative.contains(&5) && relative.contains(&10) {
            let mut alter = lexeme;
            alter.append("9sus4");
            return (Some(alter), HybridKind::SusFourNine);
        }
        if relative.contains(&1) && relative.contains(&5) && relative.contains(&10) {
            let mut alter = lexeme;
            alter.append("7sus4(b9)");
            return (Some(alter), HybridKind::SusFourSevenFlatNine);
        }
        (None, HybridKind::Unnamed)
    }

    pub fn bass_preference_from_resolution(&self, bass: SpelledNote, next_chord: Option<&ParsedChord>) -> (r: Option<bool>)
        ensures
            r == resolution_preference(bass, next_chord),
    {
        crate::analysis::blackadder::bass_preference_from_resolution(bass, next_chord)
    }

    /// Every local reading of a slash symbol, with optional key and
    /// observation context.
    pub fn analyze_slash_candidates_with_context(&self, chord: &ParsedChord, context: BlackadderContext) -> (r: Vec<
        HybridCandidate,
    >)
        requires
            slash_formula_fits(*chord, self.spec_behavior()),
        ensures
            candidate_views(r@) == slash_candidates(*chord, context, self.spec_behavior()),
    {
        if chord.bass.is_none() {
            // One neutral reading keeps downstream code uniform.
            let r = vec![hybrid_candidate(HybridAnalysis::default(), 0, "builtin.slash.none")];
            assert(candidate_views(r@) =~= slash_candidates(*chord, context, self.behavior));
            return r;
        }
        // Without a trusted formula the bass cannot be known to be a chord
        // tone: StrictV1 reports uncertainty rather than assuming a triad.
        if matches!(self.behavior, BehaviorProfile::StrictV1) && formula(chord, self.behavior).is_none() {
            let mut analysis = HybridAnalysis::default();
            analysis.slash_classification = SlashClassification::Indeterminate;
            let r = vec![hybrid_candidate(analysis, 0, "builtin.slash.indeterminate")];
            assert(candidate_views(r@) =~= slash_candidates(*chord, context, self.behavior));
            return r;
        }
        // A bass in the formula needs no functional reinterpretation.
        if is_inversion_for(chord, self.behavior) {
            let mut analysis = HybridAnalysis::default();
            analysis.slash_classification = SlashClassification::Inversion;
            let r = vec![hybrid_candidate(analysis, 0, "builtin.slash.inversion")];
            assert(candidate_views(r@) =~= slash_candidates(*chord, context, self.behavior));
            return r;
        }
        let is_augmented = match self.behavior {
            BehaviorProfile::Python019 => is_aug_quality(chord.quality.as_str()),
            BehaviorProfile::StrictV1 => matches!(chord.quality_parsed.class, QualityClass::Augmented),
        };
        // Augmented triads are symmetric, so one set of notes supports
        // several functional roots: every match is kept.
        if is_augmented {
            let candidates = self.infer_aug_candidates(chord, context);
            if candidates.len() > 0 {
                return candidates;
            }
        }
        let (alter, kind) = self.infer_normal_hybrid(chord);
        let sus = matches!(kind, HybridKind::SusFourNine | HybridKind::SusFourSevenFlatNine);
        // A complete sus formula over the bass is meaningful symbolic
        // evidence on its own.
        let score: i64 = if sus {
            75
        } else {
            0
        };
        let mut analysis = HybridAnalysis::default();
        analysis.is_hybrid = true;
        analysis.alter = alter;
        analysis.kind = kind;
        analysis.slash_classification = SlashClassification::Hybrid(kind);
        analysis.effective_root = chord.bass;
        analysis.functional_role = if sus {
            Some(FunctionalRole::Dominant)
        } else {
            None
        };
        let rule = match kind {
            HybridKind::SusFourNine => "builtin.hybrid.sus4_9",
            HybridKind::SusFourSevenFlatNine => "builtin.hybrid.sus4_7_b9",
            _ => "builtin.hybrid.unclassified",
        };
        let r = vec![hybrid_candidate(analysis, score, rule)];
        assert(candidate_views(r@) =~= slash_candidates(*chord, context, self.behavior));
        r
    }

    pub fn analyze_slash_candidates(&self, chord: &ParsedChord, next_chord: Option<&ParsedChord>) -> (r: Vec<
        HybridCandidate,
    >)
        requires
            slash_formula_fits(*chord, self.spec_behavior()),
        ensures
            candidate_views(r@) == slash_candidates(
                *chord,
                BlackadderContext { tonic: None, previous_chord: None, next_chord, observations: None },
                self.spec_behavior(),
            ),
    {
        self.analyze_slash_candidates_with_context(
            chord,
            BlackadderContext { tonic: None, previous_chord: None, next_chord, observations: None },
        )
    }

    /// Candidate score for the immediate continuation (hundredths).
    pub fn contextual_candidate_score(
        &self,
        candidate: &HybridCandidate,
        next_chord: Option<&ParsedChord>,
        tonic: Option<SpelledNote>,
    ) -> (r: i128)
        ensures
            r == contextual_points(candidate@, next_chord, tonic, self.spec_behavior()),
    {
        let transition: i64 = match &candidate.analysis.blackadder {
            Some(reading) => transition_score(reading, next_chord, tonic, self.behavior),
            None => 0,
        };
        candidate.intrinsic_score as i128 + transition as i128
    }

    /// Index of the first candidate with the highest contextual score.
    pub fn best_candidate(
        &self,
        candidates: &Vec<HybridCandidate>,
        next_chord: Option<&ParsedChord>,
        tonic: Option<SpelledNote>,
    ) -> (r: usize)
        requires
            candidates.len() > 0,
        ensures
            r == best_index(candidate_views(candidates@), next_chord, tonic, self.spec_behavior()),
            r < candidates.len(),
    {
        let ghost cs = candidate_views(candidates@);
        let mut best: usize = 0;
        let mut best_score = self.contextual_candidate_score(&candidates[0], next_chord, tonic);
        let mut i: usize = 1;
        assert(cs.take(1).len() == 1);
        while i < candidates.len()
            invariant
                1 <= i <= candidates.len(),
                cs == candidate_views(candidates@),
                best < i,
                best == best_index(cs.take(i as int), next_chord, tonic, self.spec_behavior()),
                best_score == contextual_points(cs[best as int], next_chord, tonic, self.spec_behavior()),
            decreases candidates.len() - i,
        {
            let score = self.contextual_candidate_score(&candidates[i], next_chord, tonic);
            proof {
                assert(cs.take(i + 1).drop_last() =~= cs.take(i as int));
                assert(cs.take(i + 1).last() == cs[i as int]);
                assert(cs.take(i as int)[best as int] == cs[best as int]);
            }
            if score > best_score {
                best = i;
                best_score = score;
            }
            i = i + 1;
        }
        assert(cs.take(candidates.len() as int) =~= cs);
        best
    }

    /// The first best-scoring local reading of a slash chord.
    pub fn analyze_slash_chord(&self, chord: &ParsedChord, next_chord: Option<&ParsedChord>) -> (r: HybridAnalysis)
        requires
            slash_formula_fits(*chord, self.spec_behavior()),
        ensures
            ({
                let cs = slash_candidates(
                    *chord,
                    BlackadderContext { tonic: None, previous_chord: None, next_chord, observations: None },
                    self.spec_behavior(),
                );
                r@ == cs[best_index(cs, next_chord, None, self.spec_behavior())].analysis
            }),
    {
        let mut candidates = self.analyze_slash_candidates(chord, next_chord);
        let best = self.best_candidate(&candidates, next_chord, None);
        let chosen = candidates.remove(best);
        chosen.analysis
    }
}

/// Candidates depend on the next chord only as it is heard.
pub proof fn lemma_slash_alike(chord: ParsedChord, c1: BlackadderContext, c2: BlackadderContext, behavior: BehaviorProfile)
    requires
        crate::analysis::blackadder::contexts_alike(c1, c2),
    ensures
        slash_candidates(chord, c1, behavior) == slash_candidates(chord, c2, behavior),
{
    crate::analysis::blackadder::lemma_readings_alike(chord, c1, c2, behavior);
    if let (Some(a), Some(b)) = (c1.next_chord, c2.next_chord) {
        assert(dominant_for(*a, behavior) == dominant_for(*b, behavior));
        assert(tonic_for(*a, behavior) == tonic_for(*b, behavior));
    }
    if chord.bass is Some {
        assert(legacy_blackadder(chord, c1.next_chord, behavior) == legacy_blackadder(chord, c2.next_chord, behavior));
        assert(legacy_half_diminished(chord, c1.next_chord, behavior) == legacy_half_diminished(
            chord,
            c2.next_chord,
            behavior,
        ));
    }
    assert(aug_candidates(chord, c1, behavior) == aug_candidates(chord, c2, behavior));
}

} // verus!
