//! The built-in lattice: candidates from annotated chord events, and the
//! transition evidence between candidates of adjacent chords.

use vstd::prelude::*;
use crate::analysis::blackadder::{
    dist, evidence_views, pc, transition_evidence, transition_rule, BlackadderFunction, BlackadderInterpretation,
};
use crate::analysis::context::tonic_of;
use crate::analysis::evidence::{duplicate_evidence, EvidenceView, ScoreEvidence};
use crate::analysis::harmony::{
    empty_classification, same_classification, ClassificationView, HarmonicClassification, HarmonicInterpretation,
    HarmonicRole, HarmonicSource, InterpretationFamily, ReadingView, TonalScope, reading_wf,
};
use crate::analysis::interpreter::HybridKind;
use crate::analysis::lattice::{
    classification_views, reading_view, AnalysisLattice, CandidateLayer, CandidateTransition, EdgeView,
    InterpretationCandidate, InterpretationKind, LatticeView, LayerView, StateView,
};
use crate::domain::chord::{ParsedChord, ParsedSymbol, ProgressionItem};
use crate::domain::note::SpelledNote;
use crate::profile::{BehaviorProfile, KeyBoundaryPolicy, NoChordPolicy};
use crate::romanizer::{
    chord_positions, event_result, AnnotatedEvent, FunctionalInterpretation, FunctionalView, ResolutionType,
    RomanizedChord, RomanizerOptions,
};

verus! {

pub const RULE_SET_VERSION: &'static str = "builtin-strict-v13-dominant-prolongation";

// ---------------------------------------------------------------------
// Candidate ids.

pub open spec fn digit_char(d: int) -> char {
    if d == 0 {
        '0'
    } else if d == 1 {
        '1'
    } else if d == 2 {
        '2'
    } else if d == 3 {
        '3'
    } else if d == 4 {
        '4'
    } else if d == 5 {
        '5'
    } else if d == 6 {
        '6'
    } else if d == 7 {
        '7'
    } else if d == 8 {
        '8'
    } else {
        '9'
    }
}

/// Decimal digits of `n`, without leading zeros.
pub open spec fn decimal(n: nat) -> Seq<char>
    decreases n,
{
    if n < 10 {
        seq![digit_char(n as int)]
    } else {
        decimal(n / 10).push(digit_char((n % 10) as int))
    }
}

pub const ID_EVENT: &'static str = "event-";
pub const ID_CANDIDATE: &'static str = ":candidate-";

/// `event-{e}:candidate-{o}`.
pub open spec fn candidate_id_text(e: int, o: int) -> Seq<char> {
    ID_EVENT@ + decimal(e as nat) + ID_CANDIDATE@ + decimal(o as nat)
}

fn push_decimal(s: &mut String, n: usize)
    ensures
        final(s)@ == old(s)@ + decimal(n as nat),
    decreases n,
{
    if n >= 10 {
        push_decimal(s, n / 10);
    }
    let d = n % 10;
    let c = if d == 0 {
        '0'
    } else if d == 1 {
        '1'
    } else if d == 2 {
        '2'
    } else if d == 3 {
        '3'
    } else if d == 4 {
        '4'
    } else if d == 5 {
        '5'
    } else if d == 6 {
        '6'
    } else if d == 7 {
        '7'
    } else if d == 8 {
        '8'
    } else {
        '9'
    };
    crate::text::push_char(s, c);
    proof {
        if n >= 10 {
            assert(decimal(n as nat) == decimal((n / 10) as nat).push(c));
        }
    }
}

fn push_text(s: &mut String, t: &str)
    ensures
        final(s)@ == old(s)@ + t@,
{
    let v = crate::text::to_chars(t);
    let ghost start = s@;
    let mut i: usize = 0;
    while i < v.len()
        invariant
            v@ == t@,
            i <= v.len(),
            s@ == start + v@.take(i as int),
        decreases v.len() - i,
    {
        crate::text::push_char(s, v[i]);
        assert(v@.take(i + 1) =~= v@.take(i as int).push(v@[i as int]));
        i = i + 1;
    }
    assert(v@.take(v.len() as int) =~= v@);
}

/// The id of candidate `ordinal` of event `event_index`.
pub fn candidate_id(event_index: usize, ordinal: usize) -> (r: String)
    ensures
        r@ == candidate_id_text(event_index as int, ordinal as int),
{
    let mut s = String::new();
    push_text(&mut s, ID_EVENT);
    push_decimal(&mut s, event_index);
    push_text(&mut s, ID_CANDIDATE);
    push_decimal(&mut s, ordinal);
    assert(s@ =~= candidate_id_text(event_index as int, ordinal as int));
    s
}

// ---------------------------------------------------------------------
// Candidates of one chord.

pub const RULE_PRIMARY: &'static str = "builtin.degree.primary";
pub const WHY_PRIMARY: &'static str = "Primary contextual degree spelling";
pub const WHY_FUNCTIONAL: &'static str = "Functional interpretation of a slash chord";

/// The neutral primary-degree state. It carries the chord's
/// classifications only when no scored reading exists.
pub open spec fn primary_state(e: int, rc: RomanizedChord) -> StateView {
    StateView {
        id: candidate_id_text(e, 0),
        event_index: e,
        label: rc.roman@,
        tonic: rc.tonic,
        degree_root: Some(rc.degree_root),
        kind: InterpretationKind::PrimaryDegree,
        emission_score: 0,
        evidence: seq![EvidenceView { rule_id: RULE_PRIMARY@, contribution: 0, explanation: WHY_PRIMARY@ }],
        hybrid_kind: None,
        effective_root: None,
        blackadder: None,
        classifications: if rc.readings().interpretations.len() == 0 {
            rc.readings().classifications
        } else {
            Seq::empty()
        },
    }
}

/// A scored reading of the chord as candidate `o`.
pub open spec fn contextual_state(e: int, o: int, rc: RomanizedChord, x: ReadingView) -> StateView {
    StateView {
        id: candidate_id_text(e, o),
        event_index: e,
        label: rc.roman@,
        tonic: rc.tonic,
        degree_root: Some(rc.degree_root),
        kind: InterpretationKind::ContextualHarmony,
        emission_score: x.intrinsic_score,
        evidence: x.evidence,
        hybrid_kind: None,
        effective_root: Some(rc.chord.root),
        blackadder: None,
        classifications: seq![x.classification],
    }
}

/// A functional reading of a slash chord as candidate `o`.
pub open spec fn functional_state(e: int, o: int, rc: RomanizedChord, f: FunctionalView) -> StateView {
    StateView {
        id: candidate_id_text(e, o),
        event_index: e,
        label: f.label,
        tonic: rc.tonic,
        degree_root: Some(rc.degree_root),
        kind: InterpretationKind::FunctionalHybrid,
        emission_score: f.intrinsic_score,
        evidence: if f.evidence.len() == 0 {
            seq![EvidenceView { rule_id: f.rule_id, contribution: f.intrinsic_score, explanation: WHY_FUNCTIONAL@ }]
        } else {
            f.evidence
        },
        hybrid_kind: Some(f.hybrid_kind),
        effective_root: f.effective_root,
        blackadder: f.blackadder,
        classifications: if f.classification == empty_classification() {
            rc.readings().classifications
        } else {
            seq![f.classification]
        },
    }
}

/// Two candidates stand for the same harmonic state.
pub open spec fn same_semantic(a: StateView, b: StateView) -> bool {
    &&& a.kind == b.kind
    &&& a.degree_root == b.degree_root
    &&& a.hybrid_kind == b.hybrid_kind
    &&& a.effective_root == b.effective_root
    &&& a.blackadder == b.blackadder
    &&& a.classifications == b.classifications
}

/// Index of the first candidate at or after `i` in the same state as `x`,
/// or `-1`.
pub open spec fn first_same(cs: Seq<StateView>, x: StateView, i: int) -> int
    decreases cs.len() - i,
{
    if i < 0 || i >= cs.len() {
        -1
    } else if same_semantic(cs[i], x) {
        i
    } else {
        first_same(cs, x, i + 1)
    }
}

/// `cs` with `x` added, or merged into the candidate of its state: the
/// stronger emission wins and the existing id stays.
pub open spec fn push_semantic(cs: Seq<StateView>, x: StateView) -> Seq<StateView> {
    let j = first_same(cs, x, 0);
    if j < 0 {
        cs.push(x)
    } else if x.emission_score > cs[j].emission_score {
        cs.update(j, StateView { id: cs[j].id, ..x })
    } else {
        cs
    }
}

pub open spec fn with_contextual(cs: Seq<StateView>, e: int, rc: RomanizedChord, xs: Seq<ReadingView>) -> Seq<StateView>
    decreases xs.len(),
{
    if xs.len() == 0 {
        cs
    } else {
        let before = with_contextual(cs, e, rc, xs.drop_last());
        push_semantic(before, contextual_state(e, before.len() as int, rc, xs.last()))
    }
}

pub open spec fn with_functional(cs: Seq<StateView>, e: int, rc: RomanizedChord, fs: Seq<FunctionalView>) -> Seq<StateView>
    decreases fs.len(),
{
    if fs.len() == 0 {
        cs
    } else {
        let before = with_functional(cs, e, rc, fs.drop_last());
        push_semantic(before, functional_state(e, before.len() as int, rc, fs.last()))
    }
}

/// The candidates of chord event `e`: the primary degree, then each
/// scored reading, then each functional reading, merged by state.
pub open spec fn result_states(e: int, rc: RomanizedChord) -> Seq<StateView> {
    with_functional(
        with_contextual(seq![primary_state(e, rc)], e, rc, rc.readings().interpretations),
        e,
        rc,
        rc.labels().functional_interpretations,
    )
}

/// Emission scores below 2^74 in magnitude.
pub open spec fn states_bounded(cs: Seq<StateView>) -> bool {
    forall|i: int| 0 <= i < cs.len() ==> -0x400_0000_0000_0000_0000 <= #[trigger] cs[i].emission_score < 0x400_0000_0000_0000_0000
}

proof fn lemma_first_same_range(cs: Seq<StateView>, x: StateView, i: int)
    requires
        i >= 0,
    ensures
        first_same(cs, x, i) == -1 || (i <= first_same(cs, x, i) < cs.len() && same_semantic(cs[first_same(cs, x, i)], x)),
    decreases cs.len() - i,
{
    if i < cs.len() && !same_semantic(cs[i], x) {
        lemma_first_same_range(cs, x, i + 1);
    }
}

fn same_observations(
    a: &Vec<crate::analysis::blackadder::BlackadderObservationKind>,
    b: &Vec<crate::analysis::blackadder::BlackadderObservationKind>,
) -> (r: bool)
    ensures
        r == (a@ == b@),
{
    if a.len() != b.len() {
        return false;
    }
    let mut i: usize = 0;
    while i < a.len()
        invariant
            i <= a.len(),
            a.len() == b.len(),
            forall|k: int| 0 <= k < i ==> a@[k] == b@[k],
        decreases a.len() - i,
    {
        if a[i] != b[i] {
            return false;
        }
        i = i + 1;
    }
    assert(a@ =~= b@);
    true
}

/// The same Blackadder reading, or both absent.
fn same_reading(a: &Option<BlackadderInterpretation>, b: &Option<BlackadderInterpretation>) -> (r: bool)
    ensures
        r == (reading_view(*a) == reading_view(*b)),
{
    match (a, b) {
        (Some(x), Some(y)) => {
            x.canonical_bass == y.canonical_bass && x.written_upper_root == y.written_upper_root
                && x.canonical_upper_root == y.canonical_upper_root && x.structure == y.structure && x.function
                == y.function && x.origin == y.origin && x.effective_root == y.effective_root && x.target_root
                == y.target_root && x.scale == y.scale && same_classification(&x.classification, &y.classification)
                && same_observations(&x.unresolved_observations, &y.unresolved_observations)
        },
        (None, None) => true,
        _ => false,
    }
}

/// The same classifications, in order.
fn same_classifications(a: &Vec<HarmonicClassification>, b: &Vec<HarmonicClassification>) -> (r: bool)
    ensures
        r == (classification_views(a@) == classification_views(b@)),
{
    if a.len() != b.len() {
        proof {
            assert(classification_views(a@).len() != classification_views(b@).len());
        }
        return false;
    }
    let mut i: usize = 0;
    while i < a.len()
        invariant
            i <= a.len(),
            a.len() == b.len(),
            forall|k: int| 0 <= k < i ==> a@[k]@ == b@[k]@,
        decreases a.len() - i,
    {
        if !same_classification(&a[i], &b[i]) {
            proof {
                assert(classification_views(a@)[i as int] != classification_views(b@)[i as int]);
            }
            return false;
        }
        i = i + 1;
    }
    assert(classification_views(a@) =~= classification_views(b@));
    true
}

fn same_semantic_candidate(a: &InterpretationCandidate, b: &InterpretationCandidate) -> (r: bool)
    ensures
        r == same_semantic(a@, b@),
{
    a.kind == b.kind && a.degree_root == b.degree_root && a.hybrid_kind == b.hybrid_kind && a.effective_root
        == b.effective_root && same_reading(&a.blackadder, &b.blackadder) && same_classifications(
        &a.harmonic_classifications,
        &b.harmonic_classifications,
    )
}

pub open spec fn candidate_views(v: Seq<InterpretationCandidate>) -> Seq<StateView> {
    v.map_values(|c: InterpretationCandidate| c@)
}

/// Add `candidate`, or merge it into the candidate of the same state.
fn push_semantic_candidate(candidates: &mut Vec<InterpretationCandidate>, candidate: InterpretationCandidate)
    ensures
        candidate_views(final(candidates)@) == push_semantic(candidate_views(old(candidates)@), candidate@),
{
    let ghost cs = candidate_views(candidates@);
    let mut i: usize = 0;
    while i < candidates.len()
        invariant
            cs == candidate_views(candidates@),
            cs == candidate_views(old(candidates)@),
            i <= candidates.len(),
            first_same(cs, candidate@, 0) == first_same(cs, candidate@, i as int),
        decreases candidates.len() - i,
    {
        if same_semantic_candidate(&candidates[i], &candidate) {
            assert(cs[i as int] == candidates@[i as int]@);
            assert(first_same(cs, candidate@, i as int) == i);
            if candidate.emission_score > candidates[i].emission_score {
                let id = candidates[i].id.clone();
                let merged = InterpretationCandidate { id, ..candidate };
                candidates.set(i, merged);
                assert(candidate_views(candidates@) =~= cs.update(i as int, StateView { id: cs[i as int].id, ..candidate@ }));
                assert(candidate_views(candidates@) == push_semantic(cs, candidate@));
            } else {
                assert(candidate_views(candidates@) == push_semantic(cs, candidate@));
            }
            return;
        }
        i = i + 1;
    }
    candidates.push(candidate);
    assert(candidate_views(candidates@) =~= cs.push(candidate@));
}

fn copy_classifications(v: &Vec<HarmonicClassification>) -> (r: Vec<HarmonicClassification>)
    ensures
        classification_views(r@) == classification_views(v@),
{
    let mut r: Vec<HarmonicClassification> = Vec::new();
    let mut i: usize = 0;
    while i < v.len()
        invariant
            i <= v.len(),
            r@.len() == i,
            forall|a: int| 0 <= a < i ==> (#[trigger] r@[a])@ == v@[a]@,
        decreases v.len() - i,
    {
        r.push(v[i].duplicate());
        i = i + 1;
    }
    assert(classification_views(r@) =~= classification_views(v@));
    r
}

fn one_classification(c: &HarmonicClassification) -> (r: Vec<HarmonicClassification>)
    ensures
        classification_views(r@) == seq![c@],
{
    let mut r: Vec<HarmonicClassification> = Vec::new();
    r.push(c.duplicate());
    assert(classification_views(r@) =~= seq![c@]);
    r
}

/// The candidates of chord event `event_index`.
pub fn candidates_for_result(event_index: usize, result: &RomanizedChord) -> (r: Vec<InterpretationCandidate>)
    requires
        forall|k: int| 0 <= k < result.harmonic_interpretations@.len() ==> reading_wf(#[trigger] result.harmonic_interpretations@[k]@),
    ensures
        candidate_views(r@) == result_states(event_index as int, *result),
        states_bounded(candidate_views(r@)),
{
    let ghost e = event_index as int;
    let ghost rc = *result;
    let mut evidence: Vec<ScoreEvidence> = Vec::new();
    evidence.push(ScoreEvidence::new(RULE_PRIMARY, 0, WHY_PRIMARY));
    let classifications = if result.harmonic_interpretations.len() == 0 {
        copy_classifications(&result.harmonic_classifications)
    } else {
        Vec::new()
    };
    let primary = InterpretationCandidate {
        id: candidate_id(event_index, 0),
        event_index,
        label: result.roman.clone(),
        tonic: result.tonic,
        degree_root: Some(result.degree_root),
        kind: InterpretationKind::PrimaryDegree,
        emission_score: 0,
        evidence,
        hybrid_kind: None,
        effective_root: None,
        blackadder: None,
        harmonic_classifications: classifications,
    };
    proof {
        assert(evidence_views(primary.evidence@) =~= seq![
            EvidenceView { rule_id: RULE_PRIMARY@, contribution: 0, explanation: WHY_PRIMARY@ },
        ]);
        if result.harmonic_interpretations.len() != 0 {
            assert(classification_views(primary.harmonic_classifications@) =~= Seq::<ClassificationView>::empty());
        }
        assert(primary@ == primary_state(e, rc));
    }
    let mut candidates: Vec<InterpretationCandidate> = Vec::new();
    candidates.push(primary);
    assert(candidate_views(candidates@) =~= seq![primary_state(e, rc)]);
    let ghost xs = rc.readings().interpretations;
    let mut i: usize = 0;
    while i < result.harmonic_interpretations.len()
        invariant
            e == event_index as int,
            rc == *result,
            xs == rc.readings().interpretations,
            forall|k: int| 0 <= k < result.harmonic_interpretations@.len() ==> reading_wf(#[trigger] result.harmonic_interpretations@[k]@),
            i <= result.harmonic_interpretations.len(),
            candidate_views(candidates@) == with_contextual(seq![primary_state(e, rc)], e, rc, xs.take(i as int)),
            states_bounded(candidate_views(candidates@)),
        decreases result.harmonic_interpretations.len() - i,
    {
        let x = &result.harmonic_interpretations[i];
        proof {
            assert(reading_wf(x@));
            let n = x.evidence.len();
            assert(x@.evidence.len() == n);
            assert(300 * (n as int) <= 300 * (usize::MAX as int)) by (nonlinear_arith)
                requires n <= usize::MAX;
            assert(xs.take(i + 1).drop_last() =~= xs.take(i as int));
            assert(xs.take(i + 1).last() == x@);
        }
        let ordinal = candidates.len();
        let candidate = InterpretationCandidate {
            id: candidate_id(event_index, ordinal),
            event_index,
            label: result.roman.clone(),
            tonic: result.tonic,
            degree_root: Some(result.degree_root),
            kind: InterpretationKind::ContextualHarmony,
            emission_score: x.intrinsic_score,
            evidence: duplicate_evidence(&x.evidence),
            hybrid_kind: None,
            effective_root: Some(result.chord.root),
            blackadder: None,
            harmonic_classifications: one_classification(&x.classification),
        };
        assert(candidate@ == contextual_state(e, ordinal as int, rc, x@));
        push_semantic_candidate(&mut candidates, candidate);
        proof {
            let before = with_contextual(seq![primary_state(e, rc)], e, rc, xs.take(i as int));
            lemma_first_same_range(before, candidate@, 0);
        }
        i = i + 1;
    }
    assert(xs.take(xs.len() as int) =~= xs);
    let ghost base = candidate_views(candidates@);
    let ghost fs = rc.labels().functional_interpretations;
    let mut j: usize = 0;
    while j < result.functional_interpretations.len()
        invariant
            e == event_index as int,
            rc == *result,
            fs == rc.labels().functional_interpretations,
            j <= result.functional_interpretations.len(),
            candidate_views(candidates@) == with_functional(base, e, rc, fs.take(j as int)),
            states_bounded(candidate_views(candidates@)),
        decreases result.functional_interpretations.len() - j,
    {
        let f = &result.functional_interpretations[j];
        proof {
            assert(fs.take(j + 1).drop_last() =~= fs.take(j as int));
            assert(fs.take(j + 1).last() == f@);
        }
        let evidence = if f.evidence.len() == 0 {
            let mut v: Vec<ScoreEvidence> = Vec::new();
            v.push(ScoreEvidence { rule_id: f.rule_id.clone(), contribution: f.intrinsic_score, explanation: String::from_str(WHY_FUNCTIONAL) });
            assert(evidence_views(v@) =~= seq![
                EvidenceView { rule_id: f.rule_id@, contribution: f.intrinsic_score as int, explanation: WHY_FUNCTIONAL@ },
            ]);
            v
        } else {
            duplicate_evidence(&f.evidence)
        };
        let default = HarmonicClassification::default();
        let classifications = if same_classification(&f.classification, &default) {
            copy_classifications(&result.harmonic_classifications)
        } else {
            one_classification(&f.classification)
        };
        let ordinal = candidates.len();
        let candidate = InterpretationCandidate {
            id: candidate_id(event_index, ordinal),
            event_index,
            label: f.label.clone(),
            tonic: result.tonic,
            degree_root: Some(result.degree_root),
            kind: InterpretationKind::FunctionalHybrid,
            emission_score: f.intrinsic_score as i128,
            evidence,
            hybrid_kind: Some(f.hybrid_kind),
            effective_root: f.effective_root,
            blackadder: match &f.blackadder {
                Some(b) => Some(b.duplicate()),
                None => None,
            },
            harmonic_classifications: classifications,
        };
        assert(candidate@ == functional_state(e, ordinal as int, rc, f@));
        push_semantic_candidate(&mut candidates, candidate);
        proof {
            let before = with_functional(base, e, rc, fs.take(j as int));
            lemma_first_same_range(before, candidate@, 0);
        }
        j = j + 1;
    }
    assert(fs.take(fs.len() as int) =~= fs);
    candidates
}


// ---------------------------------------------------------------------
// Transition evidence.

pub const RULE_II_V: &'static str = "builtin.progression.ii_v";
pub const WHY_II_V: &'static str = "Minor or diminished chord moves by fifth to a dominant";
pub const RULE_PERFECT: &'static str = "builtin.progression.perfect_resolution";
pub const WHY_PERFECT: &'static str = "Dominant resolves by perfect fifth";
pub const RULE_SEMITONE: &'static str = "builtin.progression.semitone_resolution";
pub const WHY_SEMITONE: &'static str = "Dominant resolves downward by semitone";
pub const RULE_BACKDOOR: &'static str = "builtin.progression.backdoor_resolution";
pub const WHY_BACKDOOR: &'static str = "Flat-seven dominant resolves upward by whole tone";
pub const RULE_LEADING: &'static str = "builtin.progression.leading_tone_resolution";
pub const WHY_LEADING: &'static str = "Leading-tone chord resolves upward by semitone";
pub const RULE_DECEPTIVE: &'static str = "builtin.progression.deceptive_resolution";
pub const WHY_DECEPTIVE: &'static str = "Applied dominant diverts to a tonic substitute in its temporary key";
pub const RULE_APPLIED_TWO_FIVE: &'static str = "builtin.progression.coherent_applied_two_five";
pub const WHY_APPLIED_TWO_FIVE: &'static str = "Adjacent candidates select ii and V in the same temporary key";
pub const RULE_DOMINANT_TARGET: &'static str = "builtin.progression.coherent_dominant_target";
pub const WHY_DOMINANT_TARGET: &'static str = "Dominant and target candidates use the same tonal perspective";
pub const RULE_PROLONGATION: &'static str = "builtin.progression.dominant_prolongation";
pub const WHY_PROLONGATION: &'static str = "Tritone-substitute dominant moves to the dominant that shares its tonic target";
pub const RULE_NEAPOLITAN_DOMINANT: &'static str = "builtin.progression.neapolitan_to_dominant";
pub const WHY_NEAPOLITAN_DOMINANT: &'static str = "Neapolitan candidate proceeds to the dominant in the same key";
pub const RULE_SECONDARY_DECEPTIVE: &'static str = "builtin.progression.coherent_secondary_deceptive";
pub const WHY_SECONDARY_DECEPTIVE: &'static str = "Dominant and tonic-substitute candidates share one temporary-key reading";
pub const RULE_KEY_PAIR: &'static str = "builtin.progression.coherent_alternate_key_pair";
pub const WHY_KEY_PAIR: &'static str = "Adjacent chord roles are coherent in the same alternate key";
pub const RULE_LOCAL_STATE: &'static str = "builtin.progression.continue_local_tonal_state";
pub const WHY_LOCAL_STATE: &'static str = "Adjacent candidates continue the same temporary tonal state";
pub const RULE_FLAT_SIX: &'static str = "builtin.progression.flat_six_to_dominant";
pub const WHY_FLAT_SIX: &'static str = "Subdominant-minor flat-six harmony descends to the global dominant";
pub const RULE_FLAT_TWO_NEAPOLITAN: &'static str = "builtin.progression.flat_two_neapolitan_to_tonic";
pub const WHY_FLAT_TWO_NEAPOLITAN: &'static str = "Neapolitan/Phrygian flat-two resolves directly to the global tonic";
pub const RULE_FLAT_TWO_PHRYGIAN: &'static str = "builtin.progression.flat_two_phrygian_to_tonic";
pub const WHY_FLAT_TWO_PHRYGIAN: &'static str = "Phrygian flat-two descends directly to the global tonic";
pub const RULE_VOICE_LEADING: &'static str = "builtin.progression.voice_leading_required";
pub const WHY_VOICE_LEADING: &'static str = "Retained augmented upper structure weakens a function inferred from bass motion alone";
pub const RULE_SUSPENSION: &'static str = "builtin.progression.suspension_to_dominant";
pub const WHY_SUSPENSION: &'static str = "Suspended dominant retains its functional bass as the suspension resolves";

pub open spec fn ev(rule_id: Seq<char>, contribution: int, explanation: Seq<char>) -> EvidenceView {
    EvidenceView { rule_id, contribution, explanation }
}

pub open spec fn item_if(b: bool, e: EvidenceView) -> Seq<EvidenceView> {
    if b {
        seq![e]
    } else {
        Seq::empty()
    }
}

pub open spec fn resolution_items(r: Option<ResolutionType>) -> Seq<EvidenceView> {
    match r {
        Some(ResolutionType::Perfect) => seq![ev(RULE_PERFECT@, 200, WHY_PERFECT@)],
        Some(ResolutionType::Semitone) => seq![ev(RULE_SEMITONE@, 100, WHY_SEMITONE@)],
        Some(ResolutionType::Backdoor) => seq![ev(RULE_BACKDOOR@, 150, WHY_BACKDOOR@)],
        Some(ResolutionType::LeadingTone) => seq![ev(RULE_LEADING@, 150, WHY_LEADING@)],
        Some(ResolutionType::Deceptive) => seq![ev(RULE_DECEPTIVE@, 75, WHY_DECEPTIVE@)],
        None => Seq::empty(),
    }
}

/// Evidence for one pair of classifications of adjacent candidates that
/// share a tonal perspective.
pub open spec fn pair_items(from: StateView, fc: ClassificationView, tc: ClassificationView) -> Seq<EvidenceView> {
    if !(fc.perspective is Some && fc.perspective == tc.perspective) {
        Seq::empty()
    } else {
        let pd = Some(HarmonicRole::Predominant);
        let d = Some(HarmonicRole::Dominant);
        let t = Some(HarmonicRole::Tonic);
        item_if(
            fc.role == pd && tc.role == d && fc.families.contains(InterpretationFamily::AppliedCadence)
                && tc.families.contains(InterpretationFamily::AppliedCadence),
            ev(RULE_APPLIED_TWO_FIVE@, 85, WHY_APPLIED_TWO_FIVE@),
        ) + item_if(
            fc.role == d && fc.dominant_relation is Some && tc.role == t,
            ev(RULE_DOMINANT_TARGET@, 90, WHY_DOMINANT_TARGET@),
        ) + item_if(
            fc.role == d && tc.role == d && (from.blackadder matches Some(b) && b.function == Some(
                BlackadderFunction::TritoneSubstitute,
            )),
            ev(RULE_PROLONGATION@, 80, WHY_PROLONGATION@),
        ) + item_if(
            fc.role == pd && fc.families.contains(InterpretationFamily::Neapolitan) && tc.role == d,
            ev(RULE_NEAPOLITAN_DOMINANT@, 65, WHY_NEAPOLITAN_DOMINANT@),
        ) + item_if(
            fc.role == d && tc.role == t && fc.families.contains(InterpretationFamily::SecondaryDominantDeceptive)
                && tc.families.contains(InterpretationFamily::SecondaryDominantDeceptive),
            ev(RULE_SECONDARY_DECEPTIVE@, 75, WHY_SECONDARY_DECEPTIVE@),
        ) + item_if(
            fc.families.contains(InterpretationFamily::AlternateKeySequence) && tc.families.contains(
                InterpretationFamily::AlternateKeySequence,
            ),
            ev(RULE_KEY_PAIR@, 70, WHY_KEY_PAIR@),
        ) + item_if(
            fc.perspective matches Some(p) && p.scope == TonalScope::Tonicization,
            ev(RULE_LOCAL_STATE@, 25, WHY_LOCAL_STATE@),
        )
    }
}

pub open spec fn row_items(from: StateView, fc: ClassificationView, tcs: Seq<ClassificationView>) -> Seq<EvidenceView>
    decreases tcs.len(),
{
    if tcs.len() == 0 {
        Seq::empty()
    } else {
        row_items(from, fc, tcs.drop_last()) + pair_items(from, fc, tcs.last())
    }
}

/// Evidence for every pair of classifications, rows in order.
pub open spec fn semantic_items(from: StateView, fcs: Seq<ClassificationView>, tcs: Seq<ClassificationView>) -> Seq<
    EvidenceView,
>
    decreases fcs.len(),
{
    if fcs.len() == 0 {
        Seq::empty()
    } else {
        semantic_items(from, fcs.drop_last(), tcs) + row_items(from, fcs.last(), tcs)
    }
}

/// Cadence gestures from the `from` degree to the `to` degree in one key.
pub open spec fn degree_class_items(fc: ClassificationView, from_degree: int, to_degree: int) -> Seq<EvidenceView> {
    item_if(
        from_degree == 8 && to_degree == 7 && fc.families.contains(InterpretationFamily::SubdominantMinor),
        ev(RULE_FLAT_SIX@, 70, WHY_FLAT_SIX@),
    ) + if from_degree == 1 && to_degree == 0 {
        if fc.families.contains(InterpretationFamily::Neapolitan) {
            seq![ev(RULE_FLAT_TWO_NEAPOLITAN@, 65, WHY_FLAT_TWO_NEAPOLITAN@)]
        } else if fc.sources.contains(HarmonicSource::Phrygian) {
            seq![ev(RULE_FLAT_TWO_PHRYGIAN@, 45, WHY_FLAT_TWO_PHRYGIAN@)]
        } else {
            Seq::empty()
        }
    } else {
        Seq::empty()
    }
}

pub open spec fn degree_rows(fcs: Seq<ClassificationView>, from_degree: int, to_degree: int) -> Seq<EvidenceView>
    decreases fcs.len(),
{
    if fcs.len() == 0 {
        Seq::empty()
    } else {
        degree_rows(fcs.drop_last(), from_degree, to_degree) + degree_class_items(fcs.last(), from_degree, to_degree)
    }
}

/// Degree-specific cadence evidence, only when both chords share a key.
pub open spec fn degree_items(prev: RomanizedChord, cur: RomanizedChord, fcs: Seq<ClassificationView>) -> Seq<EvidenceView> {
    if pc(prev.tonic) != pc(cur.tonic) {
        Seq::empty()
    } else {
        degree_rows(fcs, dist(prev.chord.root, prev.tonic), dist(cur.chord.root, cur.tonic))
    }
}

pub open spec fn any_family(cs: Seq<ClassificationView>, f: InterpretationFamily) -> bool {
    exists|i: int| 0 <= i < cs.len() && (#[trigger] cs[i]).families.contains(f)
}

pub open spec fn any_role(cs: Seq<ClassificationView>, r: HarmonicRole) -> bool {
    exists|i: int| 0 <= i < cs.len() && (#[trigger] cs[i]).role == Some(r)
}

/// The Blackadder reading's own transition evidence, weakened when its
/// augmented upper structure asks for voice leading.
pub open spec fn blackadder_items(from: StateView, next: ParsedChord, tonic: SpelledNote, behavior: BehaviorProfile) -> Seq<
    EvidenceView,
> {
    match from.blackadder {
        Some(b) => match transition_rule(b, next, tonic, behavior) {
            Some(e) => seq![e] + item_if(
                any_family(from.classifications, InterpretationFamily::VoiceLeadingRequired),
                ev(RULE_VOICE_LEADING@, -525, WHY_VOICE_LEADING@),
            ),
            None => Seq::empty(),
        },
        None => Seq::empty(),
    }
}

pub open spec fn sus_items(from: StateView, to: StateView) -> Seq<EvidenceView> {
    item_if(
        (from.hybrid_kind == Some(HybridKind::SusFourNine) || from.hybrid_kind == Some(HybridKind::SusFourSevenFlatNine))
            && from.effective_root is Some && from.effective_root == to.effective_root && any_role(
            to.classifications,
            HarmonicRole::Dominant,
        ),
        ev(RULE_SUSPENSION@, 80, WHY_SUSPENSION@),
    )
}

/// All evidence for moving from candidate `from` of chord `prev` to
/// candidate `to` of chord `cur`, in order.
pub open spec fn transition_items(
    prev: RomanizedChord,
    cur: RomanizedChord,
    from: StateView,
    to: StateView,
    behavior: BehaviorProfile,
) -> Seq<EvidenceView> {
    item_if(prev.is_ii_v_start, ev(RULE_II_V@, 150, WHY_II_V@)) + resolution_items(cur.resolution_type) + semantic_items(
        from,
        from.classifications,
        to.classifications,
    ) + degree_items(prev, cur, from.classifications) + blackadder_items(from, cur.chord, prev.tonic, behavior)
        + sus_items(from, to)
}

pub open spec fn evidence_sum(s: Seq<EvidenceView>) -> int
    decreases s.len(),
{
    if s.len() == 0 {
        0
    } else {
        evidence_sum(s.drop_last()) + s.last().contribution
    }
}

/// The edge between two candidates of adjacent chords.
pub open spec fn edge_of(
    prev: RomanizedChord,
    cur: RomanizedChord,
    from: StateView,
    to: StateView,
    behavior: BehaviorProfile,
) -> EdgeView {
    let items = transition_items(prev, cur, from, to, behavior);
    EdgeView { from: from.id, to: to.id, score: evidence_sum(items), evidence: items }
}

/// Running evidence of one edge: its score is the sum of its items, and
/// each item contributes at most six points either way.
struct Tally {
    score: i128,
    evidence: Vec<ScoreEvidence>,
}

spec fn tally_ok(t: Tally) -> bool {
    &&& t.score == evidence_sum(evidence_views(t.evidence@))
    &&& -600 * t.evidence.len() <= t.score <= 600 * t.evidence.len()
}

impl Tally {
    fn add(&mut self, rule_id: &str, contribution: i64, explanation: &str)
        requires
            tally_ok(*old(self)),
            -600 <= contribution <= 600,
        ensures
            tally_ok(*final(self)),
            evidence_views(final(self).evidence@) == evidence_views(old(self).evidence@).push(
                ev(rule_id@, contribution as int, explanation@),
            ),
    {
        self.push(ScoreEvidence::new(rule_id, contribution, explanation));
    }

    fn push(&mut self, item: ScoreEvidence)
        requires
            tally_ok(*old(self)),
            -600 <= item.contribution <= 600,
        ensures
            tally_ok(*final(self)),
            evidence_views(final(self).evidence@) == evidence_views(old(self).evidence@).push(item@),
    {
        let ghost before = evidence_views(self.evidence@);
        assert(self.evidence.len() <= usize::MAX);
        let c = item.contribution;
        self.evidence.push(item);
        proof {
            assert(evidence_views(self.evidence@) =~= before.push(item@));
            assert(evidence_views(self.evidence@).drop_last() =~= before);
        }
        self.score = self.score + c as i128;
    }
}

fn has_family(v: &Vec<InterpretationFamily>, f: InterpretationFamily) -> (r: bool)
    ensures
        r == v@.contains(f),
{
    let mut i: usize = 0;
    while i < v.len()
        invariant
            i <= v.len(),
            forall|k: int| 0 <= k < i ==> v@[k] != f,
        decreases v.len() - i,
    {
        if v[i] == f {
            return true;
        }
        i = i + 1;
    }
    false
}

fn has_source(v: &Vec<HarmonicSource>, f: HarmonicSource) -> (r: bool)
    ensures
        r == v@.contains(f),
{
    let mut i: usize = 0;
    while i < v.len()
        invariant
            i <= v.len(),
            forall|k: int| 0 <= k < i ==> v@[k] != f,
        decreases v.len() - i,
    {
        if v[i] == f {
            return true;
        }
        i = i + 1;
    }
    false
}

fn classes_with_family(cs: &Vec<HarmonicClassification>, f: InterpretationFamily) -> (r: bool)
    ensures
        r == any_family(classification_views(cs@), f),
{
    let mut i: usize = 0;
    while i < cs.len()
        invariant
            i <= cs.len(),
            forall|k: int| 0 <= k < i ==> !cs@[k]@.families.contains(f),
        decreases cs.len() - i,
    {
        if has_family(&cs[i].families, f) {
            assert(classification_views(cs@)[i as int] == cs@[i as int]@);
            return true;
        }
        i = i + 1;
    }
    proof {
        assert forall|k: int| 0 <= k < cs.len() implies !(#[trigger] classification_views(cs@)[k]).families.contains(f) by {
            assert(classification_views(cs@)[k] == cs@[k]@);
        }
    }
    false
}

fn classes_with_role(cs: &Vec<HarmonicClassification>, r0: HarmonicRole) -> (r: bool)
    ensures
        r == any_role(classification_views(cs@), r0),
{
    let mut i: usize = 0;
    while i < cs.len()
        invariant
            i <= cs.len(),
            forall|k: int| 0 <= k < i ==> cs@[k]@.role != Some(r0),
        decreases cs.len() - i,
    {
        if cs[i].role == Some(r0) {
            assert(classification_views(cs@)[i as int] == cs@[i as int]@);
            return true;
        }
        i = i + 1;
    }
    proof {
        assert forall|k: int| 0 <= k < cs.len() implies (#[trigger] classification_views(cs@)[k]).role != Some(r0) by {
            assert(classification_views(cs@)[k] == cs@[k]@);
        }
    }
    false
}

fn add_pair_evidence(
    tally: &mut Tally,
    from: &InterpretationCandidate,
    fc: &HarmonicClassification,
    tc: &HarmonicClassification,
)
    requires
        tally_ok(*old(tally)),
    ensures
        tally_ok(*final(tally)),
        evidence_views(final(tally).evidence@) == evidence_views(old(tally).evidence@) + pair_items(from@, fc@, tc@),
{
    let ghost start = evidence_views(tally.evidence@);
    if !(fc.perspective.is_some() && fc.perspective == tc.perspective) {
        assert(start + pair_items(from@, fc@, tc@) =~= start);
        return;
    }
    let pd = Some(HarmonicRole::Predominant);
    let d = Some(HarmonicRole::Dominant);
    let t = Some(HarmonicRole::Tonic);
    let ghost s0 = evidence_views(tally.evidence@);
    if fc.role == pd && tc.role == d && has_family(&fc.families, InterpretationFamily::AppliedCadence) && has_family(
        &tc.families,
        InterpretationFamily::AppliedCadence,
    ) {
        tally.add(RULE_APPLIED_TWO_FIVE, 85, WHY_APPLIED_TWO_FIVE);
    }
    let ghost s1 = evidence_views(tally.evidence@);
    if fc.role == d && fc.dominant_relation.is_some() && tc.role == t {
        tally.add(RULE_DOMINANT_TARGET, 90, WHY_DOMINANT_TARGET);
    }
    let ghost s2 = evidence_views(tally.evidence@);
    let tritone = match &from.blackadder {
        Some(b) => b.function == Some(BlackadderFunction::TritoneSubstitute),
        None => false,
    };
    if fc.role == d && tc.role == d && tritone {
        tally.add(RULE_PROLONGATION, 80, WHY_PROLONGATION);
    }
    let ghost s3 = evidence_views(tally.evidence@);
    if fc.role == pd && has_family(&fc.families, InterpretationFamily::Neapolitan) && tc.role == d {
        tally.add(RULE_NEAPOLITAN_DOMINANT, 65, WHY_NEAPOLITAN_DOMINANT);
    }
    let ghost s4 = evidence_views(tally.evidence@);
    if fc.role == d && tc.role == t && has_family(&fc.families, InterpretationFamily::SecondaryDominantDeceptive)
        && has_family(&tc.families, InterpretationFamily::SecondaryDominantDeceptive) {
        tally.add(RULE_SECONDARY_DECEPTIVE, 75, WHY_SECONDARY_DECEPTIVE);
    }
    let ghost s5 = evidence_views(tally.evidence@);
    if has_family(&fc.families, InterpretationFamily::AlternateKeySequence) && has_family(
        &tc.families,
        InterpretationFamily::AlternateKeySequence,
    ) {
        tally.add(RULE_KEY_PAIR, 70, WHY_KEY_PAIR);
    }
    let ghost s6 = evidence_views(tally.evidence@);
    let local = match fc.perspective {
        Some(p) => p.scope == TonalScope::Tonicization,
        None => false,
    };
    if local {
        tally.add(RULE_LOCAL_STATE, 25, WHY_LOCAL_STATE);
    }
    proof {
        let f = from@;
        let (a, b) = (fc@, tc@);
        assert(f.blackadder == reading_view(from.blackadder));
        assert(evidence_views(tally.evidence@) =~= start + pair_items(from@, fc@, tc@));
    }
}

fn add_degree_evidence(
    tally: &mut Tally,
    prev: &RomanizedChord,
    cur: &RomanizedChord,
    from: &InterpretationCandidate,
)
    requires
        tally_ok(*old(tally)),
    ensures
        tally_ok(*final(tally)),
        evidence_views(final(tally).evidence@) == evidence_views(old(tally).evidence@) + degree_items(
            *prev,
            *cur,
            from@.classifications,
        ),
{
    let ghost start = evidence_views(tally.evidence@);
    if prev.tonic.pitch_class().value() != cur.tonic.pitch_class().value() {
        assert(start + degree_items(*prev, *cur, from@.classifications) =~= start);
        return;
    }
    let from_degree = crate::speller::semitone_distance(prev.chord.root, prev.tonic);
    let to_degree = crate::speller::semitone_distance(cur.chord.root, cur.tonic);
    let ghost fcs = from@.classifications;
    let cs = &from.harmonic_classifications;
    let mut i: usize = 0;
    while i < cs.len()
        invariant
            fcs == classification_views(cs@),
            i <= cs.len(),
            tally_ok(*tally),
            from_degree == dist(prev.chord.root, prev.tonic),
            to_degree == dist(cur.chord.root, cur.tonic),
            evidence_views(tally.evidence@) == start + degree_rows(fcs.take(i as int), from_degree as int, to_degree as int),
        decreases cs.len() - i,
    {
        let c = &cs[i];
        let ghost before = evidence_views(tally.evidence@);
        if from_degree == 8 && to_degree == 7 && has_family(&c.families, InterpretationFamily::SubdominantMinor) {
            tally.add(RULE_FLAT_SIX, 70, WHY_FLAT_SIX);
        }
        if from_degree == 1 && to_degree == 0 {
            if has_family(&c.families, InterpretationFamily::Neapolitan) {
                tally.add(RULE_FLAT_TWO_NEAPOLITAN, 65, WHY_FLAT_TWO_NEAPOLITAN);
            } else if has_source(&c.sources, HarmonicSource::Phrygian) {
                tally.add(RULE_FLAT_TWO_PHRYGIAN, 45, WHY_FLAT_TWO_PHRYGIAN);
            }
        }
        proof {
            assert(fcs.take(i + 1).drop_last() =~= fcs.take(i as int));
            assert(fcs.take(i + 1).last() == c@);
            assert(evidence_views(tally.evidence@) =~= before + degree_class_items(c@, from_degree as int, to_degree as int));
        }
        i = i + 1;
    }
    assert(fcs.take(cs.len() as int) =~= fcs);
}

/// The score and evidence of moving from candidate `from` of chord `prev`
/// to candidate `to` of chord `cur`.
#[verifier::rlimit(40)]
fn progression_transition_score(
    prev: &RomanizedChord,
    cur: &RomanizedChord,
    from: &InterpretationCandidate,
    to: &InterpretationCandidate,
    behavior: BehaviorProfile,
) -> (r: (i128, Vec<ScoreEvidence>))
    ensures
        evidence_views(r.1@) == transition_items(*prev, *cur, from@, to@, behavior),
        r.0 == evidence_sum(evidence_views(r.1@)),
        -0x400_0000_0000_0000_0000 < r.0 < 0x400_0000_0000_0000_0000,
{
    let mut tally = Tally { score: 0, evidence: Vec::new() };
    assert(evidence_views(tally.evidence@) =~= Seq::<EvidenceView>::empty());
    let ghost s0 = evidence_views(tally.evidence@);
    if prev.is_ii_v_start {
        tally.add(RULE_II_V, 150, WHY_II_V);
    }
    match cur.resolution_type {
        Some(ResolutionType::Perfect) => tally.add(RULE_PERFECT, 200, WHY_PERFECT),
        Some(ResolutionType::Semitone) => tally.add(RULE_SEMITONE, 100, WHY_SEMITONE),
        Some(ResolutionType::Backdoor) => tally.add(RULE_BACKDOOR, 150, WHY_BACKDOOR),
        Some(ResolutionType::LeadingTone) => tally.add(RULE_LEADING, 150, WHY_LEADING),
        Some(ResolutionType::Deceptive) => tally.add(RULE_DECEPTIVE, 75, WHY_DECEPTIVE),
        None => {},
    }
    let ghost s2 = evidence_views(tally.evidence@);
    assert(s2 =~= item_if(prev.is_ii_v_start, ev(RULE_II_V@, 150, WHY_II_V@)) + resolution_items(cur.resolution_type));
    let fcs = &from.harmonic_classifications;
    let tcs = &to.harmonic_classifications;
    let ghost (fv, tv) = (from@.classifications, to@.classifications);
    let mut a: usize = 0;
    while a < fcs.len()
        invariant
            fv == classification_views(fcs@),
            tv == classification_views(tcs@),
            a <= fcs.len(),
            tally_ok(tally),
            evidence_views(tally.evidence@) == s2 + semantic_items(from@, fv.take(a as int), tv),
        decreases fcs.len() - a,
    {
        let ghost row_start = evidence_views(tally.evidence@);
        let mut b: usize = 0;
        while b < tcs.len()
            invariant
                fv == classification_views(fcs@),
                tv == classification_views(tcs@),
                a < fcs.len(),
                b <= tcs.len(),
                tally_ok(tally),
                evidence_views(tally.evidence@) == row_start + row_items(from@, fv[a as int], tv.take(b as int)),
            decreases tcs.len() - b,
        {
            let ghost before = evidence_views(tally.evidence@);
            add_pair_evidence(&mut tally, from, &fcs[a], &tcs[b]);
            proof {
                assert(tv.take(b + 1).drop_last() =~= tv.take(b as int));
                assert(tv.take(b + 1).last() == tcs@[b as int]@);
                assert(fv[a as int] == fcs@[a as int]@);
                assert(evidence_views(tally.evidence@) =~= row_start + row_items(from@, fv[a as int], tv.take(b + 1)));
            }
            b = b + 1;
        }
        proof {
            assert(tv.take(tcs.len() as int) =~= tv);
            assert(fv.take(a + 1).drop_last() =~= fv.take(a as int));
            assert(fv.take(a + 1).last() == fv[a as int]);
            assert(evidence_views(tally.evidence@) =~= s2 + semantic_items(from@, fv.take(a + 1), tv));
        }
        a = a + 1;
    }
    assert(fv.take(fcs.len() as int) =~= fv);
    let ghost s3 = evidence_views(tally.evidence@);
    add_degree_evidence(&mut tally, prev, cur, from);
    let ghost s4 = evidence_views(tally.evidence@);
    if let Some(b) = &from.blackadder {
        let items = transition_evidence(b, &cur.chord, prev.tonic, behavior);
        if items.len() > 0 {
            let item = items[0].duplicate();
            tally.push(item);
            if classes_with_family(&from.harmonic_classifications, InterpretationFamily::VoiceLeadingRequired) {
                tally.add(RULE_VOICE_LEADING, -525, WHY_VOICE_LEADING);
            }
        }
    }
    let ghost s5 = evidence_views(tally.evidence@);
    assert(s5 =~= s4 + blackadder_items(from@, cur.chord, prev.tonic, behavior));
    let sus = match from.hybrid_kind {
        Some(HybridKind::SusFourNine) | Some(HybridKind::SusFourSevenFlatNine) => true,
        _ => false,
    };
    let keeps = from.effective_root.is_some() && from.effective_root == to.effective_root;
    if sus && keeps && classes_with_role(&to.harmonic_classifications, HarmonicRole::Dominant) {
        tally.add(RULE_SUSPENSION, 80, WHY_SUSPENSION);
    }
    proof {
        assert(evidence_views(tally.evidence@) =~= transition_items(*prev, *cur, from@, to@, behavior));
        let n = tally.evidence.len();
        assert(600 * (n as int) < 0x400_0000_0000_0000_0000) by (nonlinear_arith)
            requires n <= usize::MAX;
    }
    (tally.score, tally.evidence)
}


// ---------------------------------------------------------------------
// Segments and the whole lattice.

/// Segment counter, tonic of the last chord and pending break after the
/// first `n` events. A boundary, or an N.C. that breaks context, starts a
/// new segment at the next chord; so does a key change when key changes
/// break context.
pub open spec fn segment_scan(items: Seq<ProgressionItem>, o: RomanizerOptions, n: int) -> (int, Option<SpelledNote>, bool)
    decreases n,
{
    if n <= 0 {
        (0, None, false)
    } else {
        let (seg, last, pending) = segment_scan(items, o, n - 1);
        match items[n - 1].symbol {
            ParsedSymbol::Boundary { .. } => (seg, None, true),
            ParsedSymbol::NoChord { .. } => if o.no_chord_policy == NoChordPolicy::Break {
                (seg, None, true)
            } else {
                (seg, last, pending)
            },
            ParsedSymbol::Chord(_) => {
                let tonic = tonic_of(items[n - 1], o.default_tonic);
                let key_break = o.key_boundary_policy == KeyBoundaryPolicy::Break && (last matches Some(p) && p != tonic);
                if pending || key_break {
                    (seg + 1, Some(tonic), false)
                } else {
                    (seg, Some(tonic), pending)
                }
            },
        }
    }
}

/// Segment of event `i`.
pub open spec fn segment_of(items: Seq<ProgressionItem>, o: RomanizerOptions, i: int) -> int {
    segment_scan(items, o, i + 1).0
}

/// The segment of every event.
fn segment_ids(progression: &[ProgressionItem], options: &RomanizerOptions) -> (r: Vec<usize>)
    ensures
        r.len() == progression.len(),
        forall|i: int| 0 <= i < progression.len() ==> r@[i] as int == segment_of(progression@, *options, i),
{
    let ghost items = progression@;
    let ghost o = *options;
    let mut segment: usize = 0;
    let mut last: Option<SpelledNote> = None;
    let mut pending = false;
    let mut out: Vec<usize> = Vec::new();
    let mut i: usize = 0;
    while i < progression.len()
        invariant
            items == progression@,
            o == *options,
            i <= progression.len(),
            segment <= i,
            segment_scan(items, o, i as int) == (segment as int, last, pending),
            out.len() == i,
            forall|k: int| 0 <= k < i ==> out@[k] as int == segment_of(items, o, k),
        decreases progression.len() - i,
    {
        let item = &progression[i];
        match &item.symbol {
            ParsedSymbol::Boundary { .. } => {
                pending = true;
                last = None;
            },
            ParsedSymbol::NoChord { .. } => {
                if options.no_chord_policy == NoChordPolicy::Break {
                    pending = true;
                    last = None;
                }
            },
            ParsedSymbol::Chord(_) => {
                let tonic = crate::analysis::context::item_tonic(item, options.default_tonic);
                let key_break = options.key_boundary_policy == KeyBoundaryPolicy::Break && match last {
                    Some(p) => p != tonic,
                    None => false,
                };
                if pending || key_break {
                    segment = segment + 1;
                    pending = false;
                }
                last = Some(tonic);
            },
        }
        out.push(segment);
        i = i + 1;
    }
    out
}

/// The chord of event `i`.
pub open spec fn rc_at(events: Seq<AnnotatedEvent>, i: int) -> RomanizedChord {
    match events[i] {
        AnnotatedEvent::Chord(rc) => *rc,
        _ => vstd::pervasive::arbitrary(),
    }
}

pub open spec fn built_layer(items: Seq<ProgressionItem>, events: Seq<AnnotatedEvent>, o: RomanizerOptions, e: int) -> LayerView {
    LayerView { event_index: e, segment_id: segment_of(items, o, e), candidates: result_states(e, rc_at(events, e)) }
}

pub open spec fn row_edges(
    prev: RomanizedChord,
    cur: RomanizedChord,
    from: StateView,
    ts: Seq<StateView>,
    behavior: BehaviorProfile,
) -> Seq<EdgeView> {
    ts.map_values(|to: StateView| edge_of(prev, cur, from, to, behavior))
}

/// Every pair of candidates, rows by `from` in order.
pub open spec fn cross_edges(
    prev: RomanizedChord,
    cur: RomanizedChord,
    fs: Seq<StateView>,
    ts: Seq<StateView>,
    behavior: BehaviorProfile,
) -> Seq<EdgeView>
    decreases fs.len(),
{
    if fs.len() == 0 {
        Seq::empty()
    } else {
        cross_edges(prev, cur, fs.drop_last(), ts, behavior) + row_edges(prev, cur, fs.last(), ts, behavior)
    }
}

/// The edges between the chords of events `a` and `b`; none across a
/// segment change.
pub open spec fn built_gap(items: Seq<ProgressionItem>, events: Seq<AnnotatedEvent>, o: RomanizerOptions, a: int, b: int) -> Seq<
    EdgeView,
> {
    if segment_of(items, o, a) != segment_of(items, o, b) {
        Seq::empty()
    } else {
        cross_edges(
            rc_at(events, a),
            rc_at(events, b),
            result_states(a, rc_at(events, a)),
            result_states(b, rc_at(events, b)),
            o.behavior,
        )
    }
}

/// The lattice of annotated events: one layer per chord event, and the
/// edges between consecutive chords.
pub open spec fn built_lattice(items: Seq<ProgressionItem>, events: Seq<AnnotatedEvent>, o: RomanizerOptions) -> LatticeView {
    let pos = chord_positions(items);
    LatticeView {
        rule_set_version: RULE_SET_VERSION@,
        layers: pos.map_values(|e: int| built_layer(items, events, o, e)),
        transitions: Seq::new(
            if pos.len() == 0 {
                0
            } else {
                (pos.len() - 1) as nat
            },
            |j: int| built_gap(items, events, o, pos[j], pos[j + 1]),
        ),
    }
}

impl AnalysisLattice {
    /// The lattice of aligned annotated events.
    pub(crate) fn from_annotated_events(
        progression: &[ProgressionItem],
        events: &[AnnotatedEvent],
        options: &RomanizerOptions,
    ) -> (r: Self)
        requires
            events.len() == progression.len(),
            forall|i: int| 0 <= i < progression.len() ==> event_result(#[trigger] events@[i], progression@, *options, i),
        ensures
            r@ == built_lattice(progression@, events@, *options),
            progression.len() <= 0x4_0000_0000_0000 ==> crate::analysis::lattice::decodable(r@),
    {
        let ghost items = progression@;
        let ghost o = *options;
        let segments = segment_ids(progression, options);
        let mut layers: Vec<CandidateLayer> = Vec::new();
        let mut results: Vec<&RomanizedChord> = Vec::new();
        let mut i: usize = 0;
        assert(items.take(0) =~= Seq::<ProgressionItem>::empty());
        while i < events.len()
            invariant
                items == progression@,
                o == *options,
                events.len() == progression.len(),
                forall|k: int| 0 <= k < progression.len() ==> event_result(#[trigger] events@[k], items, o, k),
                segments.len() == progression.len(),
                forall|k: int| 0 <= k < progression.len() ==> segments@[k] as int == segment_of(items, o, k),
                i <= events.len(),
                layers.len() == chord_positions(items.take(i as int)).len(),
                results.len() == layers.len(),
                layers.len() <= i,
                forall|j: int| 0 <= j < layers.len() ==> {
                    let e = #[trigger] chord_positions(items.take(i as int))[j];
                    &&& layers@[j]@ == built_layer(items, events@, o, e)
                    &&& *results@[j] == rc_at(events@, e)
                    &&& states_bounded(layers@[j]@.candidates)
                },
            decreases events.len() - i,
        {
            let ghost pre = chord_positions(items.take(i as int));
            proof {
                assert(items.take(i + 1).drop_last() =~= items.take(i as int));
                assert(items.take(i + 1).last() == items[i as int]);
                assert(event_result(events@[i as int], items, o, i as int));
            }
            match &events[i] {
                AnnotatedEvent::Chord(rc) => {
                    let result: &RomanizedChord = &**rc;
                    proof {
                        assert(items[i as int].symbol is Chord);
                        assert(chord_positions(items.take(i + 1)) == pre.push(i as int));
                        assert(crate::romanizer::chord_result(*result, items, o, i as int));
                        assert forall|k: int| 0 <= k < result.harmonic_interpretations@.len() implies reading_wf(
                            #[trigger] result.harmonic_interpretations@[k]@,
                        ) by {
                            assert(result.readings().interpretations[k] == result.harmonic_interpretations@[k]@);
                        }
                    }
                    let layer = CandidateLayer {
                        event_index: i,
                        segment_id: segments[i],
                        candidates: candidates_for_result(i, result),
                    };
                    proof {
                        assert(layer@.candidates == candidate_views(layer.candidates@));
                        assert(rc_at(events@, i as int) == *result);
                    }
                    layers.push(layer);
                    results.push(result);
                },
                _ => {
                    proof {
                        assert(!(items[i as int].symbol is Chord));
                        assert(chord_positions(items.take(i + 1)) == pre);
                    }
                },
            }
            i = i + 1;
        }
        assert(items.take(events.len() as int) =~= items);
        let ghost pos = chord_positions(items);
        let mut transitions: Vec<Vec<CandidateTransition>> = Vec::new();
        let gaps = if layers.len() == 0 {
            0
        } else {
            layers.len() - 1
        };
        let mut j: usize = 0;
        while j < gaps
            invariant
                items == progression@,
                o == *options,
                pos == chord_positions(items),
                layers.len() == pos.len(),
                results.len() == layers.len(),
                gaps == (if layers.len() == 0 { 0 } else { layers.len() - 1 }),
                forall|m: int| 0 <= m < layers.len() ==> {
                    &&& layers@[m]@ == built_layer(items, events@, o, #[trigger] pos[m])
                    &&& *results@[m] == rc_at(events@, pos[m])
                },
                j <= gaps,
                transitions.len() == j,
                forall|m: int| 0 <= m < j ==> (#[trigger] transitions@[m])@.map_values(|e: CandidateTransition| e@)
                    == built_gap(items, events@, o, pos[m], pos[m + 1]),
                forall|m: int, q: int| 0 <= m < j && 0 <= q < transitions@[m].len() ==> -0x400_0000_0000_0000_0000 <= (
                #[trigger] transitions@[m]@[q]).score < 0x400_0000_0000_0000_0000,
            decreases gaps - j,
        {
            let ghost (pa, pb) = (pos[j as int], pos[j + 1]);
            assert(layers@[j as int]@ == built_layer(items, events@, o, pa));
            assert(layers@[j + 1]@ == built_layer(items, events@, o, pb));
            let mut edges: Vec<CandidateTransition> = Vec::new();
            if layers[j].segment_id == layers[j + 1].segment_id {
                let prev = results[j];
                let cur = results[j + 1];
                let fs = &layers[j].candidates;
                let ts = &layers[j + 1].candidates;
                let ghost (fv, tv) = (candidate_views(fs@), candidate_views(ts@));
                let mut a: usize = 0;
                while a < fs.len()
                    invariant
                        o == *options,
                        fv == candidate_views(fs@),
                        tv == candidate_views(ts@),
                        a <= fs.len(),
                        edges@.map_values(|e: CandidateTransition| e@) == cross_edges(*prev, *cur, fv.take(a as int), tv, o.behavior),
                        forall|q: int| 0 <= q < edges.len() ==> -0x400_0000_0000_0000_0000 <= (#[trigger] edges@[q]).score < 0x400_0000_0000_0000_0000,
                    decreases fs.len() - a,
                {
                    let ghost row_start = edges@.map_values(|e: CandidateTransition| e@);
                    let mut b: usize = 0;
                    while b < ts.len()
                        invariant
                            o == *options,
                            fv == candidate_views(fs@),
                            tv == candidate_views(ts@),
                            a < fs.len(),
                            b <= ts.len(),
                            edges@.map_values(|e: CandidateTransition| e@) == row_start + row_edges(*prev, *cur, fv[a as int], tv.take(b as int), o.behavior),
                            forall|q: int| 0 <= q < edges.len() ==> -0x400_0000_0000_0000_0000 <= (#[trigger] edges@[q]).score < 0x400_0000_0000_0000_0000,
                        decreases ts.len() - b,
                    {
                        let from = &fs[a];
                        let to = &ts[b];
                        let (score, evidence) = progression_transition_score(prev, cur, from, to, options.behavior);
                        let edge = CandidateTransition {
                            from_candidate: from.id.clone(),
                            to_candidate: to.id.clone(),
                            score,
                            evidence,
                        };
                        let ghost before = edges@.map_values(|e: CandidateTransition| e@);
                        proof {
                            assert(fv[a as int] == from@);
                            assert(tv[b as int] == to@);
                            assert(edge@ == edge_of(*prev, *cur, from@, to@, o.behavior));
                        }
                        edges.push(edge);
                        proof {
                            assert(edges@.map_values(|e: CandidateTransition| e@) =~= before.push(edge@));
                            assert(tv.take(b + 1) =~= tv.take(b as int).push(tv[b as int]));
                            assert(row_edges(*prev, *cur, fv[a as int], tv.take(b + 1), o.behavior) =~= row_edges(
                                *prev,
                                *cur,
                                fv[a as int],
                                tv.take(b as int),
                                o.behavior,
                            ).push(edge@));
                        }
                        b = b + 1;
                    }
                    proof {
                        assert(tv.take(ts.len() as int) =~= tv);
                        assert(fv.take(a + 1).drop_last() =~= fv.take(a as int));
                        assert(fv.take(a + 1).last() == fv[a as int]);
                    }
                    a = a + 1;
                }
                proof {
                    assert(fv.take(fs.len() as int) =~= fv);
                }
            } else {
                assert(edges@.map_values(|e: CandidateTransition| e@) =~= Seq::<EdgeView>::empty());
            }
            transitions.push(edges);
            j = j + 1;
        }
        let r = AnalysisLattice { rule_set_version: String::from_str(RULE_SET_VERSION), layers, transitions };
        proof {
            let l = r@;
            let b = built_lattice(items, events@, o);
            assert(l.layers =~= b.layers);
            assert(l.transitions =~= b.transitions);
            if progression.len() <= 0x4_0000_0000_0000 {
                assert forall|t: int, c: int| 0 <= t < l.layers.len() && 0 <= c < l.layers[t].candidates.len() implies -0x400_0000_0000_0000_0000
                    <= #[trigger] crate::analysis::lattice::cand(l, t, c).emission_score < 0x400_0000_0000_0000_0000 by {
                    assert(states_bounded(l.layers[t].candidates));
                }
            }
        }
        r
    }
}

pub open spec fn readings_wf_of(rc: RomanizedChord) -> bool {
    forall|k: int| 0 <= k < rc.harmonic_interpretations@.len() ==> reading_wf(#[trigger] rc.harmonic_interpretations@[k]@)
}


/// A candidate with one piece of evidence: its own score.
pub fn candidate(
    event_index: usize,
    ordinal: usize,
    label: &str,
    tonic: SpelledNote,
    degree_root: Option<crate::domain::degree::Degree>,
    kind: InterpretationKind,
    score: i64,
    rule_id: &str,
    explanation: &str,
) -> (r: InterpretationCandidate)
    ensures
        r@ == (StateView {
            id: candidate_id_text(event_index as int, ordinal as int),
            event_index: event_index as int,
            label: label@,
            tonic,
            degree_root,
            kind,
            emission_score: score as int,
            evidence: seq![ev(rule_id@, score as int, explanation@)],
            hybrid_kind: None,
            effective_root: None,
            blackadder: None,
            classifications: Seq::empty(),
        }),
{
    let mut evidence: Vec<ScoreEvidence> = Vec::new();
    evidence.push(ScoreEvidence::new(rule_id, score, explanation));
    let r = InterpretationCandidate {
        id: candidate_id(event_index, ordinal),
        event_index,
        label: String::from_str(label),
        tonic,
        degree_root,
        kind,
        emission_score: score as i128,
        evidence,
        hybrid_kind: None,
        effective_root: None,
        blackadder: None,
        harmonic_classifications: Vec::new(),
    };
    assert(evidence_views(r.evidence@) =~= seq![ev(rule_id@, score as int, explanation@)]);
    assert(classification_views(r.harmonic_classifications@) =~= Seq::<ClassificationView>::empty());
    r
}

} // verus!
