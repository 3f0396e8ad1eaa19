//! Deterministic progression context for the Roman-numeral labels.
//!
//! Four steps, each a function of the one before: which chords are
//! musically adjacent (N.C. may be transparent, boundaries never are); the
//! local facts of each chord; the cadence markers and scored readings that
//! adjacent chords give each other; and the accidental preference the
//! context implies for spelling a root.

use vstd::prelude::*;
use crate::analysis::blackadder::{
    lemma_readings_alike, dist, mode_of_class, pc, perspective_of, spelled_on, tonal_mode, tonal_perspective, BlackadderContext,
};
use crate::analysis::harmony::{
    new_reading, reading_wf, role_classification, same_classification, with_evidence, with_family, with_item,
    ClassificationView, DominantRelation, HarmonicClassification, HarmonicInterpretation, HarmonicRole,
    InterpretationFamily, ReadingView, TonalMode, TonalPerspective,
};
use crate::domain::degree::{Degree, RomanDegree};
use crate::romanizer::{ResolutionType, RomanizerOptions};
use crate::analysis::ordinary::{add_ordinary, ordinary_candidates, push_all};
use crate::speller::{
    degree_from_spelling, root_accidental_preference, semitone_distance, spell_pitch_class, spelled_degree,
    target_accidental_preference,
};
use crate::analysis::interpreter::{
    candidate_views, slash_candidates, CandidateView, ChordInterpreter, FunctionalRole, HybridCandidate, HybridKind,
};
use crate::domain::chord::{heard_alike, ParsedChord, ParsedSymbol, ProgressionItem};
use crate::domain::note::{letter_at, letter_index, lemma_letter_at_index, SpelledNote};
use crate::domain::quality::{QualityClass, SeventhQuality};
use crate::profile::{BehaviorProfile, KeyBoundaryPolicy, NoChordPolicy};
use crate::romanizer::chosen_analysis;
use crate::structure::{
    alterations_fit, quality_alterations_fit, slash_formula_fits, diminished_for, dominant_for, is_diminished_for, is_dominant_for, is_minor_for, is_tonic_for,
    minor_for, tonic_for,
};

verus! {

/// Tonic of an event: its own override, else the default.
pub open spec fn tonic_of(item: ProgressionItem, default_tonic: SpelledNote) -> SpelledNote {
    match item.tonic {
        Some(t) => t,
        None => default_tonic,
    }
}

pub fn item_tonic(item: &ProgressionItem, default_tonic: SpelledNote) -> (r: SpelledNote)
    ensures
        r == tonic_of(*item, default_tonic),
{
    match item.tonic {
        Some(t) => t,
        None => default_tonic,
    }
}

pub open spec fn is_chord_item(item: ProgressionItem) -> bool {
    item.symbol is Chord
}

/// Whether a non-chord event severs adjacency: a boundary always, N.C.
/// under the breaking policy.
pub open spec fn severs(item: ProgressionItem, no_chord_policy: NoChordPolicy) -> bool {
    match item.symbol {
        ParsedSymbol::Boundary { .. } => true,
        ParsedSymbol::NoChord { .. } => no_chord_policy == NoChordPolicy::Break,
        ParsedSymbol::Chord(_) => false,
    }
}

/// Policies that decide adjacency.
pub struct LinkPolicy {
    pub default_tonic: SpelledNote,
    pub key_boundary_policy: KeyBoundaryPolicy,
    pub no_chord_policy: NoChordPolicy,
}

/// Chord `j` is followed by chord `i`: only events that neither are chords
/// nor sever lie between them, and a key change between them is no break
/// under the policy.
pub open spec fn linked(items: Seq<ProgressionItem>, p: LinkPolicy, j: int, i: int) -> bool {
    &&& 0 <= j < i < items.len()
    &&& is_chord_item(items[j])
    &&& is_chord_item(items[i])
    &&& forall|m: int| j < m < i ==> !is_chord_item(#[trigger] items[m]) && !severs(items[m], p.no_chord_policy)
    &&& (p.key_boundary_policy == KeyBoundaryPolicy::Continue || tonic_of(items[j], p.default_tonic) == tonic_of(
        items[i],
        p.default_tonic,
    ))
}

/// The chord heard just before event `i`, if any.
pub open spec fn prev_link(items: Seq<ProgressionItem>, p: LinkPolicy, i: int) -> Option<usize> {
    if exists|j: usize| linked(items, p, j as int, i) {
        Some(choose|j: usize| linked(items, p, j as int, i))
    } else {
        None
    }
}

/// The chord heard just after event `j`, if any.
pub open spec fn next_link(items: Seq<ProgressionItem>, p: LinkPolicy, j: int) -> Option<usize> {
    if exists|i: usize| linked(items, p, j, i as int) {
        Some(choose|i: usize| linked(items, p, j, i as int))
    } else {
        None
    }
}

/// A chord has at most one predecessor and at most one successor.
pub proof fn lemma_link_unique(items: Seq<ProgressionItem>, p: LinkPolicy, j1: int, i1: int, j2: int, i2: int)
    requires
        linked(items, p, j1, i1),
        linked(items, p, j2, i2),
        j1 == j2 || i1 == i2,
    ensures
        j1 == j2 && i1 == i2,
{
    if i1 == i2 && j1 < j2 {
        assert(!is_chord_item(items[j2]));
    }
    if i1 == i2 && j2 < j1 {
        assert(!is_chord_item(items[j1]));
    }
    if j1 == j2 && i1 < i2 {
        assert(!is_chord_item(items[i1]));
    }
    if j1 == j2 && i2 < i1 {
        assert(!is_chord_item(items[i2]));
    }
}

pub proof fn lemma_prev_link_is(items: Seq<ProgressionItem>, p: LinkPolicy, j: int, i: int)
    requires
        items.len() <= usize::MAX,
        linked(items, p, j, i),
    ensures
        prev_link(items, p, i) == Some(j as usize),
        next_link(items, p, j) == Some(i as usize),
{
    assert(linked(items, p, (j as usize) as int, i));
    assert(linked(items, p, j, (i as usize) as int));
    let j2 = choose|j2: usize| linked(items, p, j2 as int, i);
    lemma_link_unique(items, p, j, i, j2 as int, i);
    let i2 = choose|i2: usize| linked(items, p, j, i2 as int);
    lemma_link_unique(items, p, j, i, j, i2 as int);
}

/// Adjacency is mutual: `i` follows `j` exactly when `j` precedes `i`,
/// and a predecessor always comes earlier.
pub proof fn lemma_links_mutual(items: Seq<ProgressionItem>, p: LinkPolicy, j: int, i: int)
    requires
        items.len() <= usize::MAX,
        0 <= j < items.len(),
        0 <= i < items.len(),
    ensures
        next_link(items, p, j) == Some(i as usize) <==> prev_link(items, p, i) == Some(j as usize),
        prev_link(items, p, i) matches Some(k) ==> k < i && linked(items, p, k as int, i),
        next_link(items, p, j) matches Some(k) ==> j < k && linked(items, p, j, k as int),
{
    if let Some(k) = prev_link(items, p, i) {
        lemma_prev_link_is(items, p, k as int, i);
    }
    if let Some(k) = next_link(items, p, j) {
        lemma_prev_link_is(items, p, j, k as int);
    }
    if prev_link(items, p, i) == Some(j as usize) {
        lemma_prev_link_is(items, p, j, i);
    }
    if next_link(items, p, j) == Some(i as usize) {
        lemma_prev_link_is(items, p, j, i);
    }
}

/// The linkable chord before `idx`: no chord and nothing severing after it.
pub open spec fn open_at(items: Seq<ProgressionItem>, np: NoChordPolicy, j: int, idx: int) -> bool {
    &&& 0 <= j < idx
    &&& is_chord_item(items[j])
    &&& forall|m: int| j < m < idx ==> !is_chord_item(#[trigger] items[m]) && !severs(items[m], np)
}

/// Predecessor and successor chord of every event, in one scan.
pub fn build_neighbors(items: &[ProgressionItem], p: LinkPolicy) -> (r: (Vec<Option<usize>>, Vec<Option<usize>>))
    ensures
        r.0.len() == items.len(),
        r.1.len() == items.len(),
        forall|i: int| 0 <= i < items.len() ==> r.0@[i] == prev_link(items@, p, i),
        forall|i: int| 0 <= i < items.len() ==> r.1@[i] == next_link(items@, p, i),
{
    let n = items.len();
    let mut previous: Vec<Option<usize>> = Vec::new();
    let mut next: Vec<Option<usize>> = Vec::new();
    let mut k: usize = 0;
    while k < n
        invariant
            k <= n,
            n == items.len(),
            previous.len() == k,
            next.len() == k,
            forall|i: int| 0 <= i < k ==> previous@[i] is None && next@[i] is None,
        decreases n - k,
    {
        previous.push(None);
        next.push(None);
        k = k + 1;
    }
    let ghost s = items@;
    let mut last: Option<usize> = None;
    let mut idx: usize = 0;
    while idx < n
        invariant
            idx <= n,
            n == items.len(),
            s == items@,
            previous.len() == n,
            next.len() == n,
            forall|j: int| #![trigger open_at(s, p.no_chord_policy, j, idx as int)] 0 <= j < n ==> (open_at(s, p.no_chord_policy, j, idx as int) <==> last == Some(j as usize)),
            last matches Some(l) ==> l < idx,
            forall|i: int| #![trigger previous@[i]] 0 <= i < idx ==> (previous@[i] matches Some(j) ==> linked(s, p, j as int, i)),
            forall|i: int| #![trigger previous@[i]] 0 <= i < idx ==> (previous@[i] is None ==> forall|j: int| !linked(s, p, j, i)),
            forall|i: int| idx <= i < n ==> previous@[i] is None,
            forall|j: int| #![trigger next@[j]] 0 <= j < idx ==> (next@[j] matches Some(i) ==> i < idx && linked(s, p, j, i as int)),
            forall|j: int| #![trigger next@[j]] 0 <= j < idx ==> (next@[j] is None ==> forall|i: int| i < idx ==> !linked(s, p, j, i)),
            forall|j: int| idx <= j < n ==> next@[j] is None,
        decreases n - idx,
    {
        let ghost nidx: int = idx + 1;
        match &items[idx].symbol {
            ParsedSymbol::Boundary { .. } => {
                last = None;
                proof {
                    assert forall|j: int| 0 <= j < n implies !open_at(s, p.no_chord_policy, j, nidx) by {
                        if open_at(s, p.no_chord_policy, j, nidx) && j < idx {
                            assert(!severs(s[idx as int], p.no_chord_policy));
                        }
                    }
                }
            },
            ParsedSymbol::NoChord { .. } => {
                if matches!(p.no_chord_policy, NoChordPolicy::Break) {
                    last = None;
                }
                proof {
                    assert forall|j: int| 0 <= j < n implies (open_at(s, p.no_chord_policy, j, nidx) <==> last == Some(
                        j as usize,
                    )) by {
                        if open_at(s, p.no_chord_policy, j, nidx) && j < idx {
                            assert(!severs(s[idx as int], p.no_chord_policy));
                        }
                        if open_at(s, p.no_chord_policy, j, idx as int) && p.no_chord_policy == NoChordPolicy::Transparent {
                            assert forall|m: int| j < m < nidx implies !is_chord_item(#[trigger] s[m]) && !severs(
                                s[m],
                                p.no_chord_policy,
                            ) by {
                                if m < idx {
                                    assert(open_at(s, p.no_chord_policy, j, idx as int));
                                }
                            }
                        }
                    }
                }
            },
            ParsedSymbol::Chord(_) => {
                let mut link = last;
                if let Some(pi) = last {
                    let changed = item_tonic(&items[pi], p.default_tonic) != item_tonic(&items[idx], p.default_tonic);
                    if matches!(p.key_boundary_policy, KeyBoundaryPolicy::Break) && changed {
                        link = None;
                    }
                }
                proof {
                    assert forall|j: int| linked(s, p, j, idx as int) implies link == Some(j as usize) by {
                        assert(open_at(s, p.no_chord_policy, j, idx as int));
                    }
                    if let Some(pi) = link {
                        assert(open_at(s, p.no_chord_policy, pi as int, idx as int));
                        assert(linked(s, p, pi as int, idx as int));
                    }
                }
                if let Some(pi) = link {
                    previous.set(idx, Some(pi));
                    next.set(pi, Some(idx));
                }
                last = Some(idx);
                proof {
                    assert forall|j: int| 0 <= j < n implies (open_at(s, p.no_chord_policy, j, nidx) <==> last == Some(
                        j as usize,
                    )) by {
                        if open_at(s, p.no_chord_policy, j, nidx) && j < idx {
                            assert(!is_chord_item(s[idx as int]));
                        }
                    }
                    assert forall|j: int| 0 <= j < nidx implies (next@[j] is None ==> forall|i: int|
                        i < nidx ==> !linked(s, p, j, i)) by {
                        if next@[j] is None {
                            assert forall|i: int| i < nidx implies !linked(s, p, j, i) by {
                                if i == idx && linked(s, p, j, i) {
                                    assert(link == Some(j as usize));
                                }
                            }
                        }
                    }
                }
            },
        }
        idx = idx + 1;
    }
    proof {
        assert forall|i: int| 0 <= i < n implies previous@[i] == prev_link(s, p, i) by {
            if let Some(j) = previous@[i] {
                lemma_prev_link_is(s, p, j as int, i);
            } else {
                assert(!exists|j: usize| linked(s, p, j as int, i));
            }
        }
        assert forall|j: int| 0 <= j < n implies next@[j] == next_link(s, p, j) by {
            if let Some(i) = next@[j] {
                lemma_prev_link_is(s, p, j, i as int);
            } else {
                assert(!exists|i: usize| linked(s, p, j, i as int));
            }
        }
    }
    (previous, next)
}

#[derive(Clone, Copy, Debug, Eq, PartialEq, Structural)]
/// What the progression rules read of one chord.
pub struct NodeFacts {
    /// Root used for progression motion: for a functional slash chord this
    /// can differ from both the written root and the bass.
    pub effective_root: SpelledNote,
    /// Key of the event.
    pub tonic: SpelledNote,
    /// Mode of the global key hypothesis.
    pub global_mode: TonalMode,
    pub is_dominant: bool,
    pub is_minor: bool,
    pub is_diminished: bool,
    pub is_tonic_quality: bool,
    pub quality: QualityClass,
    pub seventh: Option<SeventhQuality>,
    /// Mode suggested by the chord's own quality.
    pub tonal_mode: TonalMode,
}

/// Local readings of a chord for the context: StrictV1 sees the key and the
/// neighbors, Python019 the next chord only.
pub open spec fn node_candidates(
    chord: ParsedChord,
    tonic: SpelledNote,
    previous: Option<&ParsedChord>,
    next: Option<&ParsedChord>,
    behavior: BehaviorProfile,
) -> Seq<CandidateView> {
    match behavior {
        BehaviorProfile::StrictV1 => slash_candidates(
            chord,
            BlackadderContext { tonic: Some(tonic), previous_chord: previous, next_chord: next, observations: None },
            behavior,
        ),
        BehaviorProfile::Python019 => slash_candidates(
            chord,
            BlackadderContext { tonic: None, previous_chord: None, next_chord: next, observations: None },
            behavior,
        ),
    }
}

/// The sus and third-in-bass readings act as dominants of their bass.
pub open spec fn dominant_kind(kind: HybridKind) -> bool {
    kind == HybridKind::SusFourNine || kind == HybridKind::SusFourSevenFlatNine || kind
        == HybridKind::SecondaryDominantThirdInBass
}

/// Facts of a chord under its best local reading.
pub open spec fn facts_of(
    chord: ParsedChord,
    tonic: SpelledNote,
    global_mode: TonalMode,
    previous: Option<&ParsedChord>,
    next: Option<&ParsedChord>,
    behavior: BehaviorProfile,
) -> NodeFacts {
    let a = chosen_analysis(node_candidates(chord, tonic, previous, next, behavior), next, tonic, behavior);
    let strict = behavior == BehaviorProfile::StrictV1;
    NodeFacts {
        effective_root: if strict {
            match a.effective_root {
                Some(r) => r,
                None => chord.root,
            }
        } else if a.is_hybrid && dominant_kind(a.kind) && chord.bass is Some {
            chord.bass.unwrap()
        } else {
            chord.root
        },
        tonic,
        global_mode,
        is_dominant: dominant_for(chord, behavior) || (strict && a.functional_role == Some(FunctionalRole::Dominant))
            || dominant_kind(a.kind),
        is_minor: minor_for(chord, behavior),
        is_diminished: diminished_for(chord, behavior) || (strict && a.functional_role == Some(
            FunctionalRole::HalfDiminished,
        )),
        is_tonic_quality: tonic_for(chord, behavior),
        quality: chord.quality_parsed.class,
        seventh: chord.quality_parsed.seventh,
        tonal_mode: mode_of_class(chord.quality_parsed.class),
    }
}

/// Local readings and facts of one chord.
pub fn pre_analyze(
    chord: &ParsedChord,
    tonic: SpelledNote,
    global_mode: TonalMode,
    previous: Option<&ParsedChord>,
    next: Option<&ParsedChord>,
    interpreter: &ChordInterpreter,
) -> (r: (NodeFacts, Vec<HybridCandidate>))
    requires
        slash_formula_fits(*chord, interpreter.spec_behavior()),
    ensures
        r.0 == facts_of(*chord, tonic, global_mode, previous, next, interpreter.spec_behavior()),
        candidate_views(r.1@) == node_candidates(*chord, tonic, previous, next, interpreter.spec_behavior()),
{
    let behavior = interpreter.behavior();
    let strict = matches!(behavior, BehaviorProfile::StrictV1);
    let candidates = if strict {
        interpreter.analyze_slash_candidates_with_context(
            chord,
            BlackadderContext { tonic: Some(tonic), previous_chord: previous, next_chord: next, observations: None },
        )
    } else {
        interpreter.analyze_slash_candidates(chord, next)
    };
    // One convenience reading gives the effective root; every candidate
    // is kept for the labels.
    let ghost a = chosen_analysis(candidate_views(candidates@), next, tonic, behavior);
    let (is_hybrid, kind, effective, role) = if candidates.len() == 0 {
        (false, HybridKind::Unnamed, None, None)
    } else {
        let best = interpreter.best_candidate(&candidates, next, Some(tonic));
        let analysis = &candidates[best].analysis;
        (analysis.is_hybrid, analysis.kind, analysis.effective_root, analysis.functional_role)
    };
    let dominant_reading = matches!(
        kind,
        HybridKind::SusFourNine | HybridKind::SusFourSevenFlatNine | HybridKind::SecondaryDominantThirdInBass
    );
    let effective_root = if strict {
        match effective {
            Some(r) => r,
            None => chord.root,
        }
    } else if is_hybrid && dominant_reading && chord.bass.is_some() {
        chord.bass.unwrap()
    } else {
        chord.root
    };
    let is_dominant = is_dominant_for(chord, behavior) || (strict && matches!(role, Some(FunctionalRole::Dominant)))
        || dominant_reading;
    let is_diminished = is_diminished_for(chord, behavior) || (strict && matches!(
        role,
        Some(FunctionalRole::HalfDiminished)
    ));
    let facts = NodeFacts {
        effective_root,
        tonic,
        global_mode,
        is_dominant,
        is_minor: is_minor_for(chord, behavior),
        is_diminished,
        is_tonic_quality: is_tonic_for(chord, behavior),
        quality: chord.quality_parsed.class,
        seventh: chord.quality_parsed.seventh,
        tonal_mode: tonal_mode(chord),
    };
    (facts, candidates)
}

/// Abstract form of a chord's scored readings and the union of their
/// classifications.
pub struct ReadingsView {
    pub interpretations: Seq<ReadingView>,
    pub classifications: Seq<ClassificationView>,
}

pub open spec fn no_readings() -> ReadingsView {
    ReadingsView { interpretations: Seq::empty(), classifications: Seq::empty() }
}

/// A reading of the same rule and classification is already present.
pub open spec fn has_reading(xs: Seq<ReadingView>, x: ReadingView) -> bool {
    exists|k: int| 0 <= k < xs.len() && (#[trigger] xs[k]).rule_id == x.rule_id && xs[k].classification == x.classification
}

/// `s` with reading `x` and its classification, each recorded once.
pub open spec fn push_reading(s: ReadingsView, x: ReadingView) -> ReadingsView {
    ReadingsView {
        interpretations: if has_reading(s.interpretations, x) {
            s.interpretations
        } else {
            s.interpretations.push(x)
        },
        classifications: with_item(s.classifications, x.classification),
    }
}

pub open spec fn first_class_in(cs: Seq<ClassificationView>, p: TonalPerspective, k: int) -> bool {
    0 <= k < cs.len() && cs[k].perspective == Some(p) && forall|m: int| 0 <= m < k ==> (#[trigger] cs[m]).perspective != Some(p)
}

pub open spec fn first_reading_in(xs: Seq<ReadingView>, p: TonalPerspective, k: int) -> bool {
    0 <= k < xs.len() && xs[k].classification.perspective == Some(p) && forall|m: int|
        0 <= m < k ==> (#[trigger] xs[m]).classification.perspective != Some(p)
}

/// `s` with `family` added to the first classification seen from `p`, and
/// to the first reading seen from `p` together with one more contribution.
pub open spec fn reinforce(
    s: ReadingsView,
    p: TonalPerspective,
    family: InterpretationFamily,
    rule_id: Seq<char>,
    contribution: int,
    explanation: Seq<char>,
) -> ReadingsView {
    ReadingsView {
        classifications: if exists|k: int| first_class_in(s.classifications, p, k) {
            let k = choose|k: int| first_class_in(s.classifications, p, k);
            s.classifications.update(k, with_family(s.classifications[k], family))
        } else {
            s.classifications
        },
        interpretations: if exists|k: int| first_reading_in(s.interpretations, p, k) {
            let k = choose|k: int| first_reading_in(s.interpretations, p, k);
            let x = s.interpretations[k];
            s.interpretations.update(
                k,
                with_evidence(
                    ReadingView { classification: with_family(x.classification, family), ..x },
                    rule_id,
                    contribution,
                    explanation,
                ),
            )
        } else {
            s.interpretations
        },
    }
}

/// Scored readings of one chord and the union of their classifications.
pub struct NodeReadings {
    pub harmonic_interpretations: Vec<HarmonicInterpretation>,
    pub harmonic_classifications: Vec<HarmonicClassification>,
}

impl View for NodeReadings {
    type V = ReadingsView;

    open spec fn view(&self) -> ReadingsView {
        ReadingsView {
            interpretations: self.harmonic_interpretations@.map_values(|x: HarmonicInterpretation| x@),
            classifications: self.harmonic_classifications@.map_values(|c: HarmonicClassification| c@),
        }
    }
}

pub open spec fn readings_wf(s: ReadingsView) -> bool {
    forall|k: int| 0 <= k < s.interpretations.len() ==> reading_wf(#[trigger] s.interpretations[k])
}

impl NodeReadings {
    pub fn new() -> (r: Self)
        ensures
            r@ == no_readings(),
            readings_wf(r@),
    {
        let r = NodeReadings { harmonic_interpretations: Vec::new(), harmonic_classifications: Vec::new() };
        assert(r@.interpretations =~= Seq::<ReadingView>::empty());
        assert(r@.classifications =~= Seq::<ClassificationView>::empty());
        r
    }

    /// Record a reading and its classification, each once.
    pub fn push(&mut self, x: HarmonicInterpretation)
        requires
            readings_wf(old(self)@),
            reading_wf(x@),
        ensures
            final(self)@ == push_reading(old(self)@, x@),
            readings_wf(final(self)@),
    {
        let ghost s0 = self@;
        let mut i: usize = 0;
        while i < self.harmonic_classifications.len() && !same_classification(
            &self.harmonic_classifications[i],
            &x.classification,
        )
            invariant
                i <= self.harmonic_classifications.len(),
                self@ == s0,
                forall|k: int| 0 <= k < i ==> s0.classifications[k] != x@.classification,
            decreases self.harmonic_classifications.len() - i,
        {
            i = i + 1;
        }
        if i == self.harmonic_classifications.len() {
            self.harmonic_classifications.push(x.classification.duplicate());
            assert(self@.classifications =~= s0.classifications.push(x@.classification));
        } else {
            assert(s0.classifications[i as int] == x@.classification);
            assert(s0.classifications.contains(x@.classification));
        }
        let ghost s1 = self@;
        let mut j: usize = 0;
        while j < self.harmonic_interpretations.len() && !(self.harmonic_interpretations[j].rule_id == x.rule_id
            && same_classification(&self.harmonic_interpretations[j].classification, &x.classification))
            invariant
                j <= self.harmonic_interpretations.len(),
                self@ == s1,
                s1.interpretations == s0.interpretations,
                forall|k: int| 0 <= k < j ==> !((#[trigger] s0.interpretations[k]).rule_id == x@.rule_id
                    && s0.interpretations[k].classification == x@.classification),
            decreases self.harmonic_interpretations.len() - j,
        {
            j = j + 1;
        }
        if j == self.harmonic_interpretations.len() {
            let ghost xv = x@;
            self.harmonic_interpretations.push(x);
            assert(self@.interpretations =~= s0.interpretations.push(xv));
        } else {
            assert(s0.interpretations[j as int].rule_id == x@.rule_id);
        }
    }

    /// Add `family` to the first classification and the first reading seen
    /// from `p`, and the contribution to that reading.
    pub fn reinforce(
        &mut self,
        p: TonalPerspective,
        family: InterpretationFamily,
        rule_id: &str,
        contribution: i64,
        explanation: &str,
    )
        requires
            readings_wf(old(self)@),
            0 <= contribution <= 300,
        ensures
            final(self)@ == reinforce(old(self)@, p, family, rule_id@, contribution as int, explanation@),
            readings_wf(final(self)@),
    {
        let ghost s0 = self@;
        let mut i: usize = 0;
        while i < self.harmonic_classifications.len() && self.harmonic_classifications[i].perspective != Some(p)
            invariant
                i <= self.harmonic_classifications.len(),
                self@ == s0,
                forall|k: int| 0 <= k < i ==> (#[trigger] s0.classifications[k]).perspective != Some(p),
            decreases self.harmonic_classifications.len() - i,
        {
            i = i + 1;
        }
        if i < self.harmonic_classifications.len() {
            assert(first_class_in(s0.classifications, p, i as int));
            proof {
                assert forall|k: int| first_class_in(s0.classifications, p, k) implies k == i by {
                    if k < i {
                    } else if k > i {
                        assert(s0.classifications[i as int].perspective == Some(p));
                    }
                }
            }
            let ghost before = self.harmonic_classifications@;
            self.harmonic_classifications[i].add_family(family);
            assert(self@.classifications =~= s0.classifications.update(
                i as int,
                with_family(s0.classifications[i as int], family),
            ));
        } else {
            assert(!exists|k: int| first_class_in(s0.classifications, p, k));
        }
        let ghost s1 = self@;
        let mut j: usize = 0;
        while j < self.harmonic_interpretations.len() && self.harmonic_interpretations[j].classification.perspective
            != Some(p)
            invariant
                j <= self.harmonic_interpretations.len(),
                self@ == s1,
                s1.interpretations == s0.interpretations,
                forall|k: int| 0 <= k < j ==> (#[trigger] s0.interpretations[k]).classification.perspective != Some(p),
            decreases self.harmonic_interpretations.len() - j,
        {
            j = j + 1;
        }
        if j < self.harmonic_interpretations.len() {
            assert(first_reading_in(s0.interpretations, p, j as int));
            proof {
                assert forall|k: int| first_reading_in(s0.interpretations, p, k) implies k == j by {
                    if k > j {
                        assert(s0.interpretations[j as int].classification.perspective == Some(p));
                    }
                }
                assert(reading_wf(s0.interpretations[j as int]));
            }
            let x = &mut self.harmonic_interpretations[j];
            x.classification.add_family(family);
            x.add_evidence(rule_id, contribution, explanation);
            let ghost x0 = s0.interpretations[j as int];
            assert(self@.interpretations =~= s0.interpretations.update(
                j as int,
                with_evidence(
                    ReadingView { classification: with_family(x0.classification, family), ..x0 },
                    rule_id@,
                    contribution as int,
                    explanation@,
                ),
            ));
        } else {
            assert(!exists|k: int| first_reading_in(s0.interpretations, p, k));
        }
    }
}

/// A fully diminished seventh: the symmetric `{0,3,6,9}` set.
pub open spec fn full_diminished_seventh(f: NodeFacts) -> bool {
    f.quality == QualityClass::Diminished && f.seventh == Some(SeventhQuality::Diminished)
}

/// A diminished chord can carry the leading tone of the next tonic: any of
/// a diminished seventh's four notes, else only the written root.
pub open spec fn leading_tone_motion(c: NodeFacts, n: NodeFacts) -> bool {
    let d = dist(n.effective_root, c.effective_root);
    c.is_diminished && n.is_tonic_quality && if full_diminished_seventh(c) {
        d == 1 || d == 4 || d == 7 || d == 10
    } else {
        d == 1
    }
}

/// How chord `c` resolves to the next chord `n`: down a fifth, down a
/// semitone as a tritone substitute, up a whole tone to the global tonic
/// (backdoor), or (StrictV1) as a diminished leading-tone chord.
pub open spec fn pair_relation(c: NodeFacts, n: NodeFacts, behavior: BehaviorProfile) -> Option<DominantRelation> {
    let d = dist(n.effective_root, c.effective_root);
    if c.is_dominant && d == 5 && n.is_tonic_quality {
        Some(DominantRelation::FifthRelated)
    } else if c.is_dominant && d == 11 && n.is_tonic_quality {
        Some(DominantRelation::TritoneSubstitute)
    } else if c.is_dominant && d == 2 && n.is_tonic_quality && pc(n.effective_root) == pc(c.tonic) {
        Some(DominantRelation::Backdoor)
    } else if behavior == BehaviorProfile::StrictV1 && leading_tone_motion(c, n) {
        Some(DominantRelation::LeadingTone)
    } else {
        None
    }
}

/// A minor or diminished chord moving up a fourth to a dominant starts a
/// II-V.
pub open spec fn marks_two_five(c: NodeFacts, n: NodeFacts) -> bool {
    dist(n.effective_root, c.effective_root) == 5 && (c.is_minor || c.is_diminished) && n.is_dominant
}

pub open spec fn resolution_of(r: DominantRelation) -> ResolutionType {
    match r {
        DominantRelation::FifthRelated => ResolutionType::Perfect,
        DominantRelation::TritoneSubstitute => ResolutionType::Semitone,
        DominantRelation::Backdoor => ResolutionType::Backdoor,
        DominantRelation::LeadingTone => ResolutionType::LeadingTone,
    }
}

/// The key frame of a resolution: the target as local tonic.
pub open spec fn cadence_perspective(c: NodeFacts, n: NodeFacts) -> TonalPerspective {
    perspective_of(c.tonic, n.effective_root, n.tonal_mode)
}

pub open spec fn relation_families(r: DominantRelation) -> Seq<InterpretationFamily> {
    match r {
        DominantRelation::FifthRelated => Seq::empty(),
        DominantRelation::TritoneSubstitute => seq![InterpretationFamily::TritoneSubstitute],
        DominantRelation::Backdoor => seq![InterpretationFamily::Backdoor],
        DominantRelation::LeadingTone => seq![InterpretationFamily::AppliedLeadingTone],
    }
}

/// The dominant's reading of a resolution; a leading-tone chord is heard
/// as `VII` of its target.
pub open spec fn resolving_reading(c: NodeFacts, n: NodeFacts, r: DominantRelation) -> ReadingView {
    let cl = ClassificationView {
        dominant_relation: Some(r),
        local_degree: Some(
            if r == DominantRelation::LeadingTone {
                Degree { accidental: 0i8, degree: RomanDegree::Vii }
            } else {
                spelled_degree(c.effective_root, n.effective_root)
            },
        ),
        families: relation_families(r),
        perspective: Some(cadence_perspective(c, n)),
        ..role_classification(HarmonicRole::Dominant)
    };
    match r {
        DominantRelation::FifthRelated => new_reading(
            "builtin.ordinary.dominant_resolution"@,
            155,
            "Dominant-quality chord resolves by descending fifth"@,
            cl,
        ),
        DominantRelation::TritoneSubstitute => new_reading(
            "builtin.ordinary.tritone_resolution"@,
            135,
            "Dominant-quality chord resolves down by semitone as a tritone substitute"@,
            cl,
        ),
        DominantRelation::Backdoor => new_reading(
            "builtin.ordinary.backdoor_resolution"@,
            140,
            "Flat-seven dominant resolves up by whole tone to the global tonic"@,
            cl,
        ),
        DominantRelation::LeadingTone => new_reading(
            "builtin.ordinary.leading_tone_resolution"@,
            150,
            "Diminished collection contains the leading tone of its local target"@,
            cl,
        ),
    }
}

/// The target's reading of a resolution: the local tonic.
pub open spec fn resolved_reading(c: NodeFacts, n: NodeFacts) -> ReadingView {
    new_reading(
        "builtin.ordinary.tonicized_target"@,
        90,
        "Chord is the realized target of a dominant relation"@,
        ClassificationView {
            local_degree: Some(spelled_degree(n.effective_root, n.effective_root)),
            perspective: Some(cadence_perspective(c, n)),
            ..role_classification(HarmonicRole::Tonic)
        },
    )
}

pub fn pair_relation_of(c: &NodeFacts, n: &NodeFacts, behavior: BehaviorProfile) -> (r: Option<DominantRelation>)
    ensures
        r == pair_relation(*c, *n, behavior),
{
    let d = semitone_distance(n.effective_root, c.effective_root);
    if c.is_dominant && d == 5 && n.is_tonic_quality {
        Some(DominantRelation::FifthRelated)
    } else if c.is_dominant && d == 11 && n.is_tonic_quality {
        Some(DominantRelation::TritoneSubstitute)
    } else if c.is_dominant && d == 2 && n.is_tonic_quality && n.effective_root.pitch_class().value()
        == c.tonic.pitch_class().value() {
        Some(DominantRelation::Backdoor)
    } else if matches!(behavior, BehaviorProfile::StrictV1) && c.is_diminished && n.is_tonic_quality && if matches!(
        c.quality,
        QualityClass::Diminished,
    ) && matches!(c.seventh, Some(SeventhQuality::Diminished)) {
        d == 1 || d == 4 || d == 7 || d == 10
    } else {
        d == 1
    } {
        Some(DominantRelation::LeadingTone)
    } else {
        None
    }
}

pub fn marks_two_five_of(c: &NodeFacts, n: &NodeFacts) -> (r: bool)
    ensures
        r == marks_two_five(*c, *n),
{
    semitone_distance(n.effective_root, c.effective_root) == 5 && (c.is_minor || c.is_diminished) && n.is_dominant
}

pub fn resolution_type_of(r: DominantRelation) -> (t: ResolutionType)
    ensures
        t == resolution_of(r),
{
    match r {
        DominantRelation::FifthRelated => ResolutionType::Perfect,
        DominantRelation::TritoneSubstitute => ResolutionType::Semitone,
        DominantRelation::Backdoor => ResolutionType::Backdoor,
        DominantRelation::LeadingTone => ResolutionType::LeadingTone,
    }
}

fn resolving_reading_of(c: &NodeFacts, n: &NodeFacts, r: DominantRelation) -> (x: HarmonicInterpretation)
    ensures
        x@ == resolving_reading(*c, *n, r),
        reading_wf(x@),
{
    let mut cl = HarmonicClassification::with_role(HarmonicRole::Dominant);
    cl.dominant_relation = Some(r);
    cl.local_degree = Some(
        if matches!(r, DominantRelation::LeadingTone) {
            // The heard root inside the local key; the written degree stays
            // on the chord's own label.
            Degree::new(0, RomanDegree::Vii)
        } else {
            degree_from_spelling(c.effective_root, n.effective_root)
        },
    );
    cl.perspective = Some(tonal_perspective(c.tonic, n.effective_root, n.tonal_mode));
    match r {
        DominantRelation::FifthRelated => {},
        DominantRelation::TritoneSubstitute => cl.add_family(InterpretationFamily::TritoneSubstitute),
        DominantRelation::Backdoor => cl.add_family(InterpretationFamily::Backdoor),
        DominantRelation::LeadingTone => cl.add_family(InterpretationFamily::AppliedLeadingTone),
    }
    assert(cl@.families =~= relation_families(r));
    assert(cl@.sources =~= Seq::<crate::analysis::harmony::HarmonicSource>::empty());
    match r {
        DominantRelation::FifthRelated => HarmonicInterpretation::new(
            "builtin.ordinary.dominant_resolution",
            155,
            "Dominant-quality chord resolves by descending fifth",
            cl,
        ),
        DominantRelation::TritoneSubstitute => HarmonicInterpretation::new(
            "builtin.ordinary.tritone_resolution",
            135,
            "Dominant-quality chord resolves down by semitone as a tritone substitute",
            cl,
        ),
        DominantRelation::Backdoor => HarmonicInterpretation::new(
            "builtin.ordinary.backdoor_resolution",
            140,
            "Flat-seven dominant resolves up by whole tone to the global tonic",
            cl,
        ),
        DominantRelation::LeadingTone => HarmonicInterpretation::new(
            "builtin.ordinary.leading_tone_resolution",
            150,
            "Diminished collection contains the leading tone of its local target",
            cl,
        ),
    }
}

fn resolved_reading_of(c: &NodeFacts, n: &NodeFacts) -> (x: HarmonicInterpretation)
    ensures
        x@ == resolved_reading(*c, *n),
        reading_wf(x@),
{
    let mut cl = HarmonicClassification::with_role(HarmonicRole::Tonic);
    cl.local_degree = Some(degree_from_spelling(n.effective_root, n.effective_root));
    cl.perspective = Some(tonal_perspective(c.tonic, n.effective_root, n.tonal_mode));
    HarmonicInterpretation::new(
        "builtin.ordinary.tonicized_target",
        90,
        "Chord is the realized target of a dominant relation",
        cl,
    )
}

/// The note `letters` staff steps and `semitones` semitones above `x`,
/// spelled on that letter.
pub open spec fn step_note(x: SpelledNote, letters: int, semitones: int) -> SpelledNote {
    spelled_on(letter_at(letter_index(x.letter) + letters), (pc(x) + semitones) % 12)
}

pub fn step_note_of(x: SpelledNote, letters: usize, semitones: i16) -> (r: SpelledNote)
    requires
        letters <= 7,
        0 <= semitones < 12,
    ensures
        r == step_note(x, letters as int, semitones as int),
{
    proof {
        lemma_letter_at_index(x.letter);
    }
    spell_pitch_class(x.letter.shift(letters), x.pitch_class().offset(semitones))
}

/// A secondary dominant moving to the VI (major key) or bVI (minor key) of
/// the key it implies: the local mode, when the implied tonic is not the
/// global one.
pub open spec fn deceptive_mode(d: NodeFacts, t: NodeFacts) -> Option<TonalMode> {
    let lt = step_note(d.effective_root, 3, 5);
    let td = dist(t.effective_root, lt);
    if !d.is_dominant || !t.is_tonic_quality || pc(lt) == pc(d.tonic) {
        None
    } else if td == 8 && t.quality == QualityClass::Major {
        Some(TonalMode::Minor)
    } else if td == 9 && t.quality == QualityClass::Minor {
        Some(TonalMode::Major)
    } else {
        None
    }
}

pub open spec fn deceptive_classification(x: NodeFacts, d: NodeFacts, mode: TonalMode, role: HarmonicRole) -> ClassificationView {
    let lt = step_note(d.effective_root, 3, 5);
    ClassificationView {
        dominant_relation: if role == HarmonicRole::Dominant {
            Some(DominantRelation::FifthRelated)
        } else {
            None
        },
        local_degree: Some(spelled_degree(x.effective_root, lt)),
        families: seq![InterpretationFamily::SecondaryDominantDeceptive],
        perspective: Some(perspective_of(d.tonic, lt, mode)),
        ..role_classification(role)
    }
}

pub open spec fn deceptive_dominant_reading(d: NodeFacts, mode: TonalMode) -> ReadingView {
    new_reading(
        "builtin.ordinary.secondary_dominant_deceptive.dominant"@,
        145,
        "Secondary dominant targets a local tonic but moves to its VI/bVI substitute"@,
        deceptive_classification(d, d, mode, HarmonicRole::Dominant),
    )
}

pub open spec fn deceptive_target_reading(d: NodeFacts, t: NodeFacts, mode: TonalMode) -> ReadingView {
    new_reading(
        "builtin.ordinary.secondary_dominant_deceptive.target"@,
        80,
        "Chord acts as the tonic substitute in a secondary deceptive resolution"@,
        deceptive_classification(t, d, mode, HarmonicRole::Tonic),
    )
}

/// A short pair with a clear reading in a temporary key other than the
/// global one: `IV-iii`, `ii-iii` (major) or `iv-V` (minor). Gives the
/// local tonic, mode, both roles, both scores and the explanation.
pub open spec fn key_pair(f: NodeFacts, s: NodeFacts) -> Option<
    (SpelledNote, TonalMode, HarmonicRole, HarmonicRole, int, int, Seq<char>),
> {
    let m = dist(s.effective_root, f.effective_root);
    let pair = if f.quality == QualityClass::Major && !f.is_dominant && s.quality == QualityClass::Minor && m == 11 {
        Some(
            (
                step_note(f.effective_root, 4, 7),
                TonalMode::Major,
                HarmonicRole::Subdominant,
                HarmonicRole::Tonic,
                80int,
                65int,
                "Major IV descends by semitone to minor iii in a temporary key"@,
            ),
        )
    } else if f.quality == QualityClass::Minor && s.quality == QualityClass::Minor && m == 2 {
        Some(
            (
                step_note(f.effective_root, 6, 10),
                TonalMode::Major,
                HarmonicRole::Predominant,
                HarmonicRole::Tonic,
                55int,
                50int,
                "Two minor chords a whole tone apart form local ii-iii motion"@,
            ),
        )
    } else if f.quality == QualityClass::Minor && s.is_dominant && m == 2 {
        Some(
            (
                step_note(f.effective_root, 4, 7),
                TonalMode::Minor,
                HarmonicRole::Subdominant,
                HarmonicRole::Dominant,
                80int,
                80int,
                "Minor iv rises by whole tone to V in a temporary minor key"@,
            ),
        )
    } else {
        None
    };
    if pc(f.tonic) != pc(s.tonic) {
        None
    } else {
        match pair {
            Some(x) => if pc(x.0) == pc(f.tonic) {
                None
            } else {
                Some(x)
            },
            None => None,
        }
    }
}

pub open spec fn key_pair_reading(
    x: NodeFacts,
    f: NodeFacts,
    lt: SpelledNote,
    mode: TonalMode,
    role: HarmonicRole,
    rule_id: Seq<char>,
    score: int,
    explanation: Seq<char>,
) -> ReadingView {
    new_reading(
        rule_id,
        score,
        explanation,
        ClassificationView {
            dominant_relation: if role == HarmonicRole::Dominant {
                Some(DominantRelation::FifthRelated)
            } else {
                None
            },
            local_degree: Some(spelled_degree(x.effective_root, lt)),
            families: seq![InterpretationFamily::AlternateKeySequence],
            perspective: Some(perspective_of(f.tonic, lt, mode)),
            ..role_classification(role)
        },
    )
}

/// A realized local `ii-V-I/i` around a dominant that resolves down a fifth
/// or by tritone substitution: the local key frame, and whether the first
/// chord is the related `ii` of a tritone substitute.
pub open spec fn applied_two_five(f: NodeFacts, d: NodeFacts, t: NodeFacts) -> Option<(TonalPerspective, bool)> {
    if !(f.is_minor || f.is_diminished) || !d.is_dominant || !t.is_tonic_quality {
        None
    } else {
        match pair_relation(d, t, BehaviorProfile::StrictV1) {
            Some(r) => if r == DominantRelation::FifthRelated || r == DominantRelation::TritoneSubstitute {
                let related = dist(f.effective_root, t.effective_root) == 2;
                let substitute = r == DominantRelation::TritoneSubstitute && dist(d.effective_root, f.effective_root)
                    == 5;
                if related || substitute {
                    Some((cadence_perspective(d, t), substitute))
                } else {
                    None
                }
            } else {
                None
            },
            None => None,
        }
    }
}

pub open spec fn predominant_reading(f: NodeFacts, p: TonalPerspective, substitute: bool) -> ReadingView {
    let cl = ClassificationView {
        local_degree: Some(spelled_degree(f.effective_root, p.local_tonic)),
        families: if substitute {
            seq![InterpretationFamily::AppliedCadence, InterpretationFamily::TritoneSubstituteRelatedTwo]
        } else {
            seq![InterpretationFamily::AppliedCadence]
        },
        perspective: Some(p),
        ..role_classification(HarmonicRole::Predominant)
    };
    if substitute {
        new_reading(
            "builtin.ordinary.tritone_substitute_related_two.predominant"@,
            180,
            "Minor chord acts as the related ii of a tritone-substitute dominant"@,
            cl,
        )
    } else {
        new_reading(
            "builtin.ordinary.applied_two_five.predominant"@,
            180,
            "Minor or half-diminished chord acts as ii of a realized local ii-V cadence"@,
            cl,
        )
    }
}

/// Facts of the chord a link points at.
pub open spec fn facts_at_link(fs: Seq<Option<NodeFacts>>, l: Option<usize>) -> Option<NodeFacts> {
    match l {
        Some(j) => if j < fs.len() {
            fs[j as int]
        } else {
            None
        },
        None => None,
    }
}

/// The link of the chord a link points at.
pub open spec fn link_at_link(links: Seq<Option<usize>>, l: Option<usize>) -> Option<usize> {
    match l {
        Some(j) => if j < links.len() {
            links[j as int]
        } else {
            None
        },
        None => None,
    }
}

/// Readings from the resolutions into and out of chord `c`.
pub open spec fn after_resolutions(
    pf: Option<NodeFacts>,
    c: NodeFacts,
    nf: Option<NodeFacts>,
    behavior: BehaviorProfile,
) -> ReadingsView {
    let s = match pf {
        Some(x) => if pair_relation(x, c, behavior) is Some {
            push_reading(no_readings(), resolved_reading(x, c))
        } else {
            no_readings()
        },
        None => no_readings(),
    };
    match nf {
        Some(y) => match pair_relation(c, y, behavior) {
            Some(r) => push_reading(s, resolving_reading(c, y, r)),
            None => s,
        },
        None => s,
    }
}

/// Then the secondary deceptive resolutions into and out of `c`.
pub open spec fn after_deceptive(s: ReadingsView, pf: Option<NodeFacts>, c: NodeFacts, nf: Option<NodeFacts>) -> ReadingsView {
    let s1 = match pf {
        Some(x) => match deceptive_mode(x, c) {
            Some(mode) => push_reading(s, deceptive_target_reading(x, c, mode)),
            None => s,
        },
        None => s,
    };
    match nf {
        Some(y) => match deceptive_mode(c, y) {
            Some(mode) => push_reading(s1, deceptive_dominant_reading(c, mode)),
            None => s1,
        },
        None => s1,
    }
}

/// Then the temporary-key pairs `c` ends and begins.
pub open spec fn after_key_pairs(s: ReadingsView, pf: Option<NodeFacts>, c: NodeFacts, nf: Option<NodeFacts>) -> ReadingsView {
    let s1 = match pf {
        Some(x) => match key_pair(x, c) {
            Some(k) => push_reading(
                s,
                key_pair_reading(c, x, k.0, k.1, k.3, "builtin.ordinary.alternate_key_sequence.second"@, k.5, k.6),
            ),
            None => s,
        },
        None => s,
    };
    match nf {
        Some(y) => match key_pair(c, y) {
            Some(k) => push_reading(
                s1,
                key_pair_reading(c, c, k.0, k.1, k.2, "builtin.ordinary.alternate_key_sequence.first"@, k.4, k.6),
            ),
            None => s1,
        },
        None => s1,
    }
}

/// Then the local `ii-V-I` spans in which `c` is the target, the dominant
/// and the first chord.
pub open spec fn after_two_fives(
    s: ReadingsView,
    ppf: Option<NodeFacts>,
    pf: Option<NodeFacts>,
    c: NodeFacts,
    nf: Option<NodeFacts>,
    nnf: Option<NodeFacts>,
) -> ReadingsView {
    let s1 = match (ppf, pf) {
        (Some(f), Some(d)) => match applied_two_five(f, d, c) {
            Some(a) => reinforce(
                s,
                a.0,
                InterpretationFamily::AppliedCadence,
                "builtin.ordinary.applied_two_five.target"@,
                35,
                "Local tonic completes a ii-V-I/i span"@,
            ),
            None => s,
        },
        _ => s,
    };
    let s2 = match (pf, nf) {
        (Some(f), Some(t)) => match applied_two_five(f, c, t) {
            Some(a) => reinforce(
                s1,
                a.0,
                InterpretationFamily::AppliedCadence,
                "builtin.ordinary.applied_two_five.dominant"@,
                55,
                "Dominant is preceded by its related local ii chord"@,
            ),
            None => s1,
        },
        _ => s1,
    };
    match (nf, nnf) {
        (Some(d), Some(t)) => match applied_two_five(c, d, t) {
            Some(a) => push_reading(s2, predominant_reading(c, a.0, a.1)),
            None => s2,
        },
        _ => s2,
    }
}

/// All scored readings of event `k`: the resolution readings, and under
/// StrictV1 also the deceptive, temporary-key and local `ii-V` readings and
/// the explanations of ordinary chromatic chords, in that order.
#[verifier::opaque]
pub open spec fn node_readings(
    fs: Seq<Option<NodeFacts>>,
    pv: Seq<Option<usize>>,
    nx: Seq<Option<usize>>,
    k: int,
    behavior: BehaviorProfile,
) -> ReadingsView {
    match fs[k] {
        Some(c) => {
            let pf = facts_at_link(fs, pv[k]);
            let nf = facts_at_link(fs, nx[k]);
            let ppf = facts_at_link(fs, link_at_link(pv, pv[k]));
            let nnf = facts_at_link(fs, link_at_link(nx, nx[k]));
            let s = after_resolutions(pf, c, nf, behavior);
            if behavior == BehaviorProfile::StrictV1 {
                push_all(
                    after_two_fives(after_key_pairs(after_deceptive(s, pf, c, nf), pf, c, nf), ppf, pf, c, nf, nnf),
                    ordinary_candidates(pf, c, nf),
                )
            } else {
                s
            }
        },
        None => no_readings(),
    }
}

/// Event `k` starts a `II-V`, directly or as the `ii` of a local cadence.
pub open spec fn starts_two_five(
    fs: Seq<Option<NodeFacts>>,
    nx: Seq<Option<usize>>,
    k: int,
    behavior: BehaviorProfile,
) -> bool {
    match (fs[k], facts_at_link(fs, nx[k])) {
        (Some(c), Some(d)) => marks_two_five(c, d) || (behavior == BehaviorProfile::StrictV1 && match facts_at_link(
            fs,
            link_at_link(nx, nx[k]),
        ) {
            Some(t) => applied_two_five(c, d, t) is Some,
            None => false,
        }),
        _ => false,
    }
}

/// How event `k` is reached as a resolution target: a StrictV1 secondary
/// deceptive resolution, else the resolution from the previous chord.
pub open spec fn resolution_at(
    fs: Seq<Option<NodeFacts>>,
    pv: Seq<Option<usize>>,
    k: int,
    behavior: BehaviorProfile,
) -> Option<ResolutionType> {
    match (fs[k], facts_at_link(fs, pv[k])) {
        (Some(c), Some(x)) => if behavior == BehaviorProfile::StrictV1 && deceptive_mode(x, c) is Some {
            Some(ResolutionType::Deceptive)
        } else {
            match pair_relation(x, c, behavior) {
                Some(r) => Some(resolution_of(r)),
                None => None,
            }
        },
        _ => None,
    }
}

/// Spelling preference at event `k`: a semitone step up favors sharps on a
/// diminished chord and flats otherwise, a semitone step down favors flats;
/// a cadence target (the resolution reached through the dominant of a
/// `II-V`, or the fourth-up motion of a dominant) overrides with its own
/// root's preference. An unresolved `II-V` keeps the chord's own spelling.
pub open spec fn prefer_at(
    fs: Seq<Option<NodeFacts>>,
    pv: Seq<Option<usize>>,
    nx: Seq<Option<usize>>,
    k: int,
    behavior: BehaviorProfile,
) -> Option<bool> {
    match fs[k] {
        Some(c) => {
            let nf = facts_at_link(fs, nx[k]);
            let base = match nf {
                Some(y) => if dist(y.effective_root, c.effective_root) == 1 {
                    Some(c.is_diminished)
                } else if dist(y.effective_root, c.effective_root) == 11 {
                    Some(false)
                } else {
                    None
                },
                None => None,
            };
            let tl = link_at_link(nx, nx[k]);
            let target = if starts_two_five(fs, nx, k, behavior) {
                match tl {
                    Some(t) => if t < fs.len() && resolution_at(fs, pv, t as int, behavior) is Some {
                        fs[t as int]
                    } else {
                        None
                    },
                    None => None,
                }
            } else if c.is_dominant {
                match nf {
                    Some(y) => if dist(y.effective_root, c.effective_root) == 5 {
                        Some(y)
                    } else {
                        None
                    },
                    None => None,
                }
            } else {
                None
            };
            match target {
                Some(t) => match root_accidental_preference(t.effective_root) {
                    Some(p) => Some(p),
                    None => base,
                },
                None => base,
            }
        },
        None => None,
    }
}

pub fn deceptive_mode_of(d: &NodeFacts, t: &NodeFacts) -> (r: Option<TonalMode>)
    ensures
        r == deceptive_mode(*d, *t),
{
    let lt = step_note_of(d.effective_root, 3, 5);
    if !d.is_dominant || !t.is_tonic_quality || lt.pitch_class().value() == d.tonic.pitch_class().value() {
        return None;
    }
    let td = semitone_distance(t.effective_root, lt);
    if td == 8 && matches!(t.quality, QualityClass::Major) {
        Some(TonalMode::Minor)
    } else if td == 9 && matches!(t.quality, QualityClass::Minor) {
        Some(TonalMode::Major)
    } else {
        None
    }
}

fn deceptive_reading_of(x: &NodeFacts, d: &NodeFacts, mode: TonalMode, role: HarmonicRole) -> (r: HarmonicInterpretation)
    requires
        role == HarmonicRole::Dominant || role == HarmonicRole::Tonic,
        role == HarmonicRole::Dominant ==> *x == *d,
    ensures
        role == HarmonicRole::Dominant ==> r@ == deceptive_dominant_reading(*d, mode),
        role == HarmonicRole::Tonic ==> r@ == deceptive_target_reading(*d, *x, mode),
        reading_wf(r@),
{
    let lt = step_note_of(d.effective_root, 3, 5);
    let mut cl = HarmonicClassification::with_role(role);
    if matches!(role, HarmonicRole::Dominant) {
        cl.dominant_relation = Some(DominantRelation::FifthRelated);
    }
    cl.local_degree = Some(degree_from_spelling(x.effective_root, lt));
    cl.add_family(InterpretationFamily::SecondaryDominantDeceptive);
    cl.perspective = Some(tonal_perspective(d.tonic, lt, mode));
    assert(cl@.families =~= seq![InterpretationFamily::SecondaryDominantDeceptive]);
    if matches!(role, HarmonicRole::Dominant) {
        HarmonicInterpretation::new(
            "builtin.ordinary.secondary_dominant_deceptive.dominant",
            145,
            "Secondary dominant targets a local tonic but moves to its VI/bVI substitute",
            cl,
        )
    } else {
        HarmonicInterpretation::new(
            "builtin.ordinary.secondary_dominant_deceptive.target",
            80,
            "Chord acts as the tonic substitute in a secondary deceptive resolution",
            cl,
        )
    }
}

pub fn key_pair_of(f: &NodeFacts, s: &NodeFacts) -> (r: Option<
    (SpelledNote, TonalMode, HarmonicRole, HarmonicRole, i64, i64, &'static str),
>)
    ensures
        match key_pair(*f, *s) {
            Some(k) => r matches Some(x) && x.0 == k.0 && x.1 == k.1 && x.2 == k.2 && x.3 == k.3 && x.4 == k.4 && x.5
                == k.5 && x.6@ == k.6,
            None => r is None,
        },
        r matches Some(x) ==> 0 <= x.4 <= 300 && 0 <= x.5 <= 300,
{
    if f.tonic.pitch_class().value() != s.tonic.pitch_class().value() {
        return None;
    }
    let m = semitone_distance(s.effective_root, f.effective_root);
    let pair = if matches!(f.quality, QualityClass::Major) && !f.is_dominant && matches!(s.quality, QualityClass::Minor)
        && m == 11 {
        // IV-iii: BbM7-Am7 in C is IV-iii of F.
        Some(
            (
                step_note_of(f.effective_root, 4, 7),
                TonalMode::Major,
                HarmonicRole::Subdominant,
                HarmonicRole::Tonic,
                80i64,
                65i64,
                "Major IV descends by semitone to minor iii in a temporary key",
            ),
        )
    } else if matches!(f.quality, QualityClass::Minor) && matches!(s.quality, QualityClass::Minor) && m == 2 {
        // ii-iii: Fm7-Gm7 in C is ii-iii of Eb.
        Some(
            (
                step_note_of(f.effective_root, 6, 10),
                TonalMode::Major,
                HarmonicRole::Predominant,
                HarmonicRole::Tonic,
                55i64,
                50i64,
                "Two minor chords a whole tone apart form local ii-iii motion",
            ),
        )
    } else if matches!(f.quality, QualityClass::Minor) && s.is_dominant && m == 2 {
        // iv-V: Abm7-Bb7 in C is iv-V of Eb minor.
        Some(
            (
                step_note_of(f.effective_root, 4, 7),
                TonalMode::Minor,
                HarmonicRole::Subdominant,
                HarmonicRole::Dominant,
                80i64,
                80i64,
                "Minor iv rises by whole tone to V in a temporary minor key",
            ),
        )
    } else {
        None
    };
    match pair {
        Some(x) => if x.0.pitch_class().value() == f.tonic.pitch_class().value() {
            None
        } else {
            Some(x)
        },
        None => None,
    }
}

fn key_pair_reading_of(
    x: &NodeFacts,
    f: &NodeFacts,
    lt: SpelledNote,
    mode: TonalMode,
    role: HarmonicRole,
    rule_id: &str,
    score: i64,
    explanation: &str,
) -> (r: HarmonicInterpretation)
    requires
        0 <= score <= 300,
    ensures
        r@ == key_pair_reading(*x, *f, lt, mode, role, rule_id@, score as int, explanation@),
        reading_wf(r@),
{
    let mut cl = HarmonicClassification::with_role(role);
    if matches!(role, HarmonicRole::Dominant) {
        cl.dominant_relation = Some(DominantRelation::FifthRelated);
    }
    cl.local_degree = Some(degree_from_spelling(x.effective_root, lt));
    cl.add_family(InterpretationFamily::AlternateKeySequence);
    cl.perspective = Some(tonal_perspective(f.tonic, lt, mode));
    assert(cl@.families =~= seq![InterpretationFamily::AlternateKeySequence]);
    HarmonicInterpretation::new(rule_id, score, explanation, cl)
}

pub fn applied_two_five_of(f: &NodeFacts, d: &NodeFacts, t: &NodeFacts) -> (r: Option<(TonalPerspective, bool)>)
    ensures
        r == applied_two_five(*f, *d, *t),
{
    if !(f.is_minor || f.is_diminished) || !d.is_dominant || !t.is_tonic_quality {
        return None;
    }
    // The dominant's own resolution to the target fixes the local key.
    match pair_relation_of(d, t, BehaviorProfile::StrictV1) {
        Some(r) => if matches!(r, DominantRelation::FifthRelated | DominantRelation::TritoneSubstitute) {
            let related = semitone_distance(f.effective_root, t.effective_root) == 2;
            // Abm7-Db7-C in C: the related ii of the substitute dominant.
            let substitute = matches!(r, DominantRelation::TritoneSubstitute) && semitone_distance(
                d.effective_root,
                f.effective_root,
            ) == 5;
            if related || substitute {
                Some((tonal_perspective(d.tonic, t.effective_root, t.tonal_mode), substitute))
            } else {
                None
            }
        } else {
            None
        },
        None => None,
    }
}

fn predominant_reading_of(f: &NodeFacts, p: TonalPerspective, substitute: bool) -> (r: HarmonicInterpretation)
    ensures
        r@ == predominant_reading(*f, p, substitute),
        reading_wf(r@),
{
    let mut cl = HarmonicClassification::with_role(HarmonicRole::Predominant);
    cl.add_family(InterpretationFamily::AppliedCadence);
    if substitute {
        cl.add_family(InterpretationFamily::TritoneSubstituteRelatedTwo);
    }
    cl.local_degree = Some(degree_from_spelling(f.effective_root, p.local_tonic));
    cl.perspective = Some(p);
    if substitute {
        assert(cl@.families =~= seq![
            InterpretationFamily::AppliedCadence,
            InterpretationFamily::TritoneSubstituteRelatedTwo,
        ]);
        HarmonicInterpretation::new(
            "builtin.ordinary.tritone_substitute_related_two.predominant",
            180,
            "Minor chord acts as the related ii of a tritone-substitute dominant",
            cl,
        )
    } else {
        assert(cl@.families =~= seq![InterpretationFamily::AppliedCadence]);
        HarmonicInterpretation::new(
            "builtin.ordinary.applied_two_five.predominant",
            180,
            "Minor or half-diminished chord acts as ii of a realized local ii-V cadence",
            cl,
        )
    }
}

fn facts_of_link(fs: &Vec<Option<NodeFacts>>, l: Option<usize>) -> (r: Option<NodeFacts>)
    ensures
        r == facts_at_link(fs@, l),
{
    match l {
        Some(j) => if j < fs.len() {
            fs[j]
        } else {
            None
        },
        None => None,
    }
}

fn link_of_link(links: &Vec<Option<usize>>, l: Option<usize>) -> (r: Option<usize>)
    ensures
        r == link_at_link(links@, l),
{
    match l {
        Some(j) => if j < links.len() {
            links[j]
        } else {
            None
        },
        None => None,
    }
}

fn resolutions_of(pf: Option<NodeFacts>, c: NodeFacts, nf: Option<NodeFacts>, behavior: BehaviorProfile) -> (r: NodeReadings)
    ensures
        r@ == after_resolutions(pf, c, nf, behavior),
        readings_wf(r@),
{
    let mut r = NodeReadings::new();
    if let Some(x) = pf {
        if pair_relation_of(&x, &c, behavior).is_some() {
            r.push(resolved_reading_of(&x, &c));
        }
    }
    if let Some(y) = nf {
        if let Some(rel) = pair_relation_of(&c, &y, behavior) {
            r.push(resolving_reading_of(&c, &y, rel));
        }
    }
    r
}

fn add_deceptive(r: &mut NodeReadings, pf: Option<NodeFacts>, c: NodeFacts, nf: Option<NodeFacts>)
    requires
        readings_wf(old(r)@),
    ensures
        final(r)@ == after_deceptive(old(r)@, pf, c, nf),
        readings_wf(final(r)@),
{
    if let Some(x) = pf {
        if let Some(mode) = deceptive_mode_of(&x, &c) {
            r.push(deceptive_reading_of(&c, &x, mode, HarmonicRole::Tonic));
        }
    }
    if let Some(y) = nf {
        if let Some(mode) = deceptive_mode_of(&c, &y) {
            r.push(deceptive_reading_of(&c, &c, mode, HarmonicRole::Dominant));
        }
    }
}

fn add_key_pairs(r: &mut NodeReadings, pf: Option<NodeFacts>, c: NodeFacts, nf: Option<NodeFacts>)
    requires
        readings_wf(old(r)@),
    ensures
        final(r)@ == after_key_pairs(old(r)@, pf, c, nf),
        readings_wf(final(r)@),
{
    if let Some(x) = pf {
        if let Some(kp) = key_pair_of(&x, &c) {
            r.push(
                key_pair_reading_of(&c, &x, kp.0, kp.1, kp.3, "builtin.ordinary.alternate_key_sequence.second", kp.5, kp.6),
            );
        }
    }
    if let Some(y) = nf {
        if let Some(kp) = key_pair_of(&c, &y) {
            r.push(
                key_pair_reading_of(&c, &c, kp.0, kp.1, kp.2, "builtin.ordinary.alternate_key_sequence.first", kp.4, kp.6),
            );
        }
    }
}

fn add_two_fives(
    r: &mut NodeReadings,
    ppf: Option<NodeFacts>,
    pf: Option<NodeFacts>,
    c: NodeFacts,
    nf: Option<NodeFacts>,
    nnf: Option<NodeFacts>,
)
    requires
        readings_wf(old(r)@),
    ensures
        final(r)@ == after_two_fives(old(r)@, ppf, pf, c, nf, nnf),
        readings_wf(final(r)@),
{
    if let (Some(f), Some(d)) = (ppf, pf) {
        if let Some(a) = applied_two_five_of(&f, &d, &c) {
            r.reinforce(
                a.0,
                InterpretationFamily::AppliedCadence,
                "builtin.ordinary.applied_two_five.target",
                35,
                "Local tonic completes a ii-V-I/i span",
            );
        }
    }
    if let (Some(f), Some(t)) = (pf, nf) {
        if let Some(a) = applied_two_five_of(&f, &c, &t) {
            r.reinforce(
                a.0,
                InterpretationFamily::AppliedCadence,
                "builtin.ordinary.applied_two_five.dominant",
                55,
                "Dominant is preceded by its related local ii chord",
            );
        }
    }
    if let (Some(d), Some(t)) = (nf, nnf) {
        if let Some(a) = applied_two_five_of(&c, &d, &t) {
            r.push(predominant_reading_of(&c, a.0, a.1));
        }
    }
}

/// Scored readings of event `k` (see [`node_readings`]).
pub fn node_readings_of(
    fs: &Vec<Option<NodeFacts>>,
    pv: &Vec<Option<usize>>,
    nx: &Vec<Option<usize>>,
    k: usize,
    behavior: BehaviorProfile,
) -> (r: NodeReadings)
    requires
        k < fs.len(),
        pv.len() == fs.len(),
        nx.len() == fs.len(),
    ensures
        r@ == node_readings(fs@, pv@, nx@, k as int, behavior),
        readings_wf(r@),
{
    proof {
        reveal(node_readings);
    }
    let c = match fs[k] {
        Some(c) => c,
        None => return NodeReadings::new(),
    };
    let pf = facts_of_link(fs, pv[k]);
    let nf = facts_of_link(fs, nx[k]);
    let mut r = resolutions_of(pf, c, nf, behavior);
    if !matches!(behavior, BehaviorProfile::StrictV1) {
        return r;
    }
    let ppf = facts_of_link(fs, link_of_link(pv, pv[k]));
    let nnf = facts_of_link(fs, link_of_link(nx, nx[k]));
    add_deceptive(&mut r, pf, c, nf);
    add_key_pairs(&mut r, pf, c, nf);
    add_two_fives(&mut r, ppf, pf, c, nf, nnf);
    add_ordinary(&mut r, pf, c, nf);
    r
}

pub fn starts_two_five_of(fs: &Vec<Option<NodeFacts>>, nx: &Vec<Option<usize>>, k: usize, behavior: BehaviorProfile) -> (r: bool)
    requires
        k < fs.len(),
        nx.len() == fs.len(),
    ensures
        r == starts_two_five(fs@, nx@, k as int, behavior),
{
    let (c, d) = match (fs[k], facts_of_link(fs, nx[k])) {
        (Some(c), Some(d)) => (c, d),
        _ => return false,
    };
    if marks_two_five_of(&c, &d) {
        return true;
    }
    if !matches!(behavior, BehaviorProfile::StrictV1) {
        return false;
    }
    match facts_of_link(fs, link_of_link(nx, nx[k])) {
        Some(t) => applied_two_five_of(&c, &d, &t).is_some(),
        None => false,
    }
}

pub fn resolution_at_of(fs: &Vec<Option<NodeFacts>>, pv: &Vec<Option<usize>>, k: usize, behavior: BehaviorProfile) -> (r: Option<
    ResolutionType,
>)
    requires
        k < fs.len(),
        pv.len() == fs.len(),
    ensures
        r == resolution_at(fs@, pv@, k as int, behavior),
{
    let (c, x) = match (fs[k], facts_of_link(fs, pv[k])) {
        (Some(c), Some(x)) => (c, x),
        _ => return None,
    };
    if matches!(behavior, BehaviorProfile::StrictV1) && deceptive_mode_of(&x, &c).is_some() {
        return Some(ResolutionType::Deceptive);
    }
    match pair_relation_of(&x, &c, behavior) {
        Some(rel) => Some(resolution_type_of(rel)),
        None => None,
    }
}

pub fn prefer_at_of(
    fs: &Vec<Option<NodeFacts>>,
    pv: &Vec<Option<usize>>,
    nx: &Vec<Option<usize>>,
    k: usize,
    behavior: BehaviorProfile,
) -> (r: Option<bool>)
    requires
        k < fs.len(),
        pv.len() == fs.len(),
        nx.len() == fs.len(),
    ensures
        r == prefer_at(fs@, pv@, nx@, k as int, behavior),
{
    let c = match fs[k] {
        Some(c) => c,
        None => return None,
    };
    let nf = facts_of_link(fs, nx[k]);
    let base = match nf {
        Some(y) => {
            let d = semitone_distance(y.effective_root, c.effective_root);
            if d == 1 {
                Some(c.is_diminished)
            } else if d == 11 {
                Some(false)
            } else {
                None
            }
        },
        None => None,
    };
    // A cadence target is stronger evidence than a semitone step; through
    // a II-V, look past the dominant to its target.
    let target = if starts_two_five_of(fs, nx, k, behavior) {
        // Only a realized resolution of the dominant.
        match link_of_link(nx, nx[k]) {
            Some(t) => if t < fs.len() && resolution_at_of(fs, pv, t, behavior).is_some() {
                fs[t]
            } else {
                None
            },
            None => None,
        }
    } else if c.is_dominant {
        match nf {
            Some(y) => if semitone_distance(y.effective_root, c.effective_root) == 5 {
                Some(y)
            } else {
                None
            },
            None => None,
        }
    } else {
        None
    };
    match target {
        Some(t) => match target_accidental_preference(t.effective_root) {
            Some(p) => Some(p),
            None => base,
        },
        None => base,
    }
}

pub open spec fn link_policy(o: RomanizerOptions) -> LinkPolicy {
    LinkPolicy {
        default_tonic: o.default_tonic,
        key_boundary_policy: o.key_boundary_policy,
        no_chord_policy: o.no_chord_policy,
    }
}

/// The chord of the event a link points at.
pub open spec fn chord_at_link(items: Seq<ProgressionItem>, l: Option<usize>) -> Option<ParsedChord> {
    match l {
        Some(j) => if j < items.len() {
            match items[j as int].symbol {
                ParsedSymbol::Chord(c) => Some(c),
                _ => None,
            }
        } else {
            None
        },
        None => None,
    }
}

/// Neighbors the local analysis of event `i` may look at: both under
/// StrictV1, none under Python019.
pub open spec fn as_ref_opt<'a>(o: &'a Option<ParsedChord>) -> Option<&'a ParsedChord> {
    match o {
        Some(x) => Some(x),
        None => None,
    }
}

pub open spec fn seen_previous(items: Seq<ProgressionItem>, o: RomanizerOptions, i: int) -> Option<ParsedChord> {
    if o.behavior == BehaviorProfile::StrictV1 {
        chord_at_link(items, prev_link(items, link_policy(o), i))
    } else {
        None
    }
}

/// The chord event after event `i`.
pub open spec fn next_after(items: Seq<ProgressionItem>, o: RomanizerOptions, i: int) -> Option<int> {
    match next_link(items, link_policy(o), i) {
        Some(j) => if i < j < items.len() {
            Some(j as int)
        } else {
            None
        },
        None => None,
    }
}

/// `c` heard at another root.
pub open spec fn at_root(c: ParsedChord, root: SpelledNote) -> ParsedChord {
    ParsedChord { root, ..c }
}

/// The next chord prolongs the dominant that chord `c`'s bass substitutes
/// for: it is a dominant a tritone from that bass.
pub open spec fn prolongs_substitute(c: ParsedChord, f: NodeFacts) -> bool {
    c.bass matches Some(b) && f.is_dominant && dist(f.effective_root, b) == 6
}

/// Facts of event `i`, when it is a chord.
#[verifier::opaque]
pub open spec fn facts_at(items: Seq<ProgressionItem>, o: RomanizerOptions, i: int) -> Option<NodeFacts>
    decreases items.len() - i, 1int,
{
    if 0 <= i < items.len() {
        match items[i].symbol {
            ParsedSymbol::Chord(c) => Some(
                facts_of(
                    c,
                    tonic_of(items[i], o.default_tonic),
                    o.default_mode,
                    as_ref_opt(&seen_previous(items, o, i)),
                    as_ref_opt(&target_at(items, o, i)),
                    o.behavior,
                ),
            ),
            _ => None,
        }
    } else {
        None
    }
}

/// The continuation a StrictV1 local analysis of event `i` hears: the next
/// chord at its effective root; or, when that chord prolongs the dominant
/// this chord's bass substitutes for, the chord after it.
#[verifier::opaque]
pub open spec fn target_at(items: Seq<ProgressionItem>, o: RomanizerOptions, i: int) -> Option<ParsedChord>
    decreases items.len() - i, 0int,
{
    if o.behavior != BehaviorProfile::StrictV1 || !(0 <= i < items.len()) {
        None
    } else {
        match next_after(items, o, i) {
            Some(j) => match (items[j].symbol, facts_at(items, o, j)) {
                (ParsedSymbol::Chord(n1), Some(f1)) => {
                    let far = match items[i].symbol {
                        ParsedSymbol::Chord(c) => if prolongs_substitute(c, f1) {
                            match next_after(items, o, j) {
                                Some(k) => match (items[k].symbol, facts_at(items, o, k)) {
                                    (ParsedSymbol::Chord(n2), Some(f2)) => Some(at_root(n2, f2.effective_root)),
                                    _ => None,
                                },
                                None => None,
                            }
                        } else {
                            None
                        },
                        _ => None,
                    };
                    match far {
                        Some(t) => Some(t),
                        None => Some(at_root(n1, f1.effective_root)),
                    }
                },
                _ => None,
            },
            None => None,
        }
    }
}

/// Local readings of event `i`, when it is a chord.
pub open spec fn candidates_at(items: Seq<ProgressionItem>, o: RomanizerOptions, i: int) -> Option<Seq<CandidateView>> {
    match items[i].symbol {
        ParsedSymbol::Chord(c) => Some(
            node_candidates(
                c,
                tonic_of(items[i], o.default_tonic),
                as_ref_opt(&seen_previous(items, o, i)),
                as_ref_opt(&target_at(items, o, i)),
                o.behavior,
            ),
        ),
        _ => None,
    }
}

pub open spec fn facts_seq(items: Seq<ProgressionItem>, o: RomanizerOptions) -> Seq<Option<NodeFacts>> {
    Seq::new(items.len(), |i: int| facts_at(items, o, i))
}

pub open spec fn prev_seq(items: Seq<ProgressionItem>, o: RomanizerOptions) -> Seq<Option<usize>> {
    Seq::new(items.len(), |i: int| prev_link(items, link_policy(o), i))
}

pub open spec fn next_seq(items: Seq<ProgressionItem>, o: RomanizerOptions) -> Seq<Option<usize>> {
    Seq::new(items.len(), |i: int| next_link(items, link_policy(o), i))
}

/// Every chord's alterations fit the formula arithmetic under StrictV1.
pub open spec fn progression_fits(items: Seq<ProgressionItem>, behavior: BehaviorProfile) -> bool {
    behavior == BehaviorProfile::StrictV1 ==> forall|i: int|
        0 <= i < items.len() ==> match (#[trigger] items[i]).symbol {
            ParsedSymbol::Chord(c) => slash_formula_fits(c, BehaviorProfile::StrictV1),
            _ => true,
        }
}

/// Whether every event of a progression meets `progression_fits`, so that
/// the annotating functions may be called on it.
pub fn progression_fits_of(progression: &[ProgressionItem], behavior: BehaviorProfile) -> (r: bool)
    ensures
        r == progression_fits(progression@, behavior),
{
    if !matches!(behavior, BehaviorProfile::StrictV1) {
        return true;
    }
    let mut i: usize = 0;
    while i < progression.len()
        invariant
            behavior == BehaviorProfile::StrictV1,
            i <= progression.len(),
            forall|k: int|
                0 <= k < i ==> match (#[trigger] progression@[k]).symbol {
                    ParsedSymbol::Chord(c) => slash_formula_fits(c, BehaviorProfile::StrictV1),
                    _ => true,
                },
        decreases progression.len() - i,
    {
        if let ParsedSymbol::Chord(c) = &progression[i].symbol {
            if c.bass.is_some() && !quality_alterations_fit(&c.quality_parsed) {
                return false;
            }
        }
        i = i + 1;
    }
    true
}

/// Neighbor links, facts and local readings of every event.
pub struct ContextAnalysis {
    pub previous_chord: Vec<Option<usize>>,
    pub next_chord: Vec<Option<usize>>,
    pub facts: Vec<Option<NodeFacts>>,
    pub candidates: Vec<Option<Vec<HybridCandidate>>>,
}

pub fn chord_of_link<'a>(items: &'a [ProgressionItem], l: Option<usize>) -> (r: Option<&'a ParsedChord>)
    ensures
        r == as_ref_opt(&chord_at_link(items@, l)),
{
    match l {
        Some(j) => if j < items.len() {
            items[j].chord()
        } else {
            None
        },
        None => None,
    }
}

/// The continuation event `i` hears (see [`target_at`]), once the facts of
/// every later event are known.
pub fn target_for(
    items: &[ProgressionItem],
    o: RomanizerOptions,
    facts: &Vec<Option<NodeFacts>>,
    next_chord: &Vec<Option<usize>>,
    i: usize,
    chord: &ParsedChord,
) -> (r: Option<ParsedChord>)
    requires
        i < items.len(),
        o.behavior == BehaviorProfile::StrictV1,
        items@[i as int].symbol == ParsedSymbol::Chord(*chord),
        facts.len() == items.len(),
        next_chord@ == next_seq(items@, o),
        forall|k: int| i < k < items.len() ==> facts@[k] == facts_at(items@, o, k),
    ensures
        match target_at(items@, o, i as int) {
            Some(t) => r matches Some(x) && heard_alike(x, t),
            None => r is None,
        },
{
    proof {
        reveal(target_at);
        reveal(facts_at);
    }
    let n = items.len();
    let j = match next_chord[i] {
        Some(j) => if i < j && j < n {
            j
        } else {
            return None;
        },
        None => return None,
    };
    proof {
        lemma_links_mutual(items@, link_policy(o), i as int, j as int);
        lemma_prev_link_is(items@, link_policy(o), prev_link(items@, link_policy(o), j as int).unwrap() as int, j as int);
    }
    let (n1, f1) = match (items[j].chord(), facts[j]) {
        (Some(n1), Some(f1)) => (n1, f1),
        _ => return None,
    };
    // Past a dominant a tritone from the bass, the substitute's resolution
    // is the chord after it.
    let through = match chord.bass {
        Some(b) => f1.is_dominant && semitone_distance(f1.effective_root, b) == 6,
        None => false,
    };
    if through {
        if let Some(k) = next_chord[j] {
            if j < k && k < n {
                if let (Some(n2), Some(f2)) = (items[k].chord(), facts[k]) {
                    let mut t = n2.duplicate();
                    t.root = f2.effective_root;
                    return Some(t);
                }
            }
        }
    }
    let mut t = n1.duplicate();
    t.root = f1.effective_root;
    Some(t)
}

/// Facts of a chord depend on its continuation only as it is heard.
pub proof fn lemma_facts_heard_alike(
    chord: ParsedChord,
    tonic: SpelledNote,
    global_mode: TonalMode,
    previous: Option<&ParsedChord>,
    n1: ParsedChord,
    n2: ParsedChord,
    behavior: BehaviorProfile,
)
    requires
        heard_alike(n1, n2),
    ensures
        facts_of(chord, tonic, global_mode, previous, Some(&n1), behavior) == facts_of(
            chord,
            tonic,
            global_mode,
            previous,
            Some(&n2),
            behavior,
        ),
{
    lemma_candidates_heard_alike(chord, tonic, previous, n1, n2, behavior);
    crate::romanizer::lemma_best_alike(
        node_candidates(chord, tonic, previous, Some(&n1), behavior),
        n1,
        n2,
        Some(tonic),
        behavior,
    );
}

/// Facts and local readings of event `i`, once every later event's facts
/// are known; none for a non-chord event.
fn analyze_event(
    items: &[ProgressionItem],
    o: RomanizerOptions,
    interpreter: &ChordInterpreter,
    previous_chord: &Vec<Option<usize>>,
    next_chord: &Vec<Option<usize>>,
    facts: &Vec<Option<NodeFacts>>,
    i: usize,
) -> (r: Option<(NodeFacts, Vec<HybridCandidate>)>)
    requires
        i < items.len(),
        interpreter.spec_behavior() == o.behavior,
        progression_fits(items@, o.behavior),
        previous_chord@ == prev_seq(items@, o),
        next_chord@ == next_seq(items@, o),
        facts.len() == items.len(),
        forall|k: int| i < k < items.len() ==> facts@[k] == facts_at(items@, o, k),
    ensures
        match r {
            Some(x) => facts_at(items@, o, i as int) == Some(x.0) && candidates_at(items@, o, i as int) == Some(
                candidate_views(x.1@),
            ),
            None => facts_at(items@, o, i as int) is None && candidates_at(items@, o, i as int) is None,
        },
{
    proof {
        reveal(facts_at);
        reveal(target_at);
    }
    let chord = match items[i].chord() {
        Some(c) => c,
        None => return None,
    };
    let strict = matches!(o.behavior, BehaviorProfile::StrictV1);
    // StrictV1 lets the local analysis see its neighbors; Python019 keeps
    // it context-free.
    let previous = if strict {
        chord_of_link(items, previous_chord[i])
    } else {
        None
    };
    let target = if strict {
        target_for(items, o, facts, next_chord, i, chord)
    } else {
        None
    };
    let heard = match &target {
        Some(t) => Some(t),
        None => None,
    };
    let tonic = item_tonic(&items[i], o.default_tonic);
    proof {
        if strict {
            assert(match items@[i as int].symbol {
                ParsedSymbol::Chord(c) => slash_formula_fits(c, BehaviorProfile::StrictV1),
                _ => true,
            });
        }
    }
    let (f, cs) = pre_analyze(chord, tonic, o.default_mode, previous, heard, interpreter);
    proof {
        if let Some(t) = target {
            let spec_t = target_at(items@, o, i as int).unwrap();
            lemma_facts_heard_alike(*chord, tonic, o.default_mode, previous, t, spec_t, o.behavior);
            lemma_candidates_heard_alike(*chord, tonic, previous, t, spec_t, o.behavior);
        }
    }
    Some((f, cs))
}

/// Neighbor links, then facts and local readings of every event from the
/// last to the first, so that each chord hears its continuation at the
/// continuation's effective root.
pub fn analyze_context(items: &[ProgressionItem], o: RomanizerOptions, interpreter: &ChordInterpreter) -> (r: ContextAnalysis)
    requires
        interpreter.spec_behavior() == o.behavior,
        progression_fits(items@, o.behavior),
    ensures
        r.previous_chord@ == prev_seq(items@, o),
        r.next_chord@ == next_seq(items@, o),
        r.facts@ == facts_seq(items@, o),
        r.candidates@.len() == items@.len(),
        forall|i: int| #![trigger r.candidates@[i]] 0 <= i < items@.len() ==> match candidates_at(items@, o, i) {
            Some(cs) => r.candidates@[i] matches Some(v) && candidate_views(v@) == cs,
            None => r.candidates@[i] is None,
        },
{
    let policy = LinkPolicy {
        default_tonic: o.default_tonic,
        key_boundary_policy: o.key_boundary_policy,
        no_chord_policy: o.no_chord_policy,
    };
    let (previous_chord, next_chord) = build_neighbors(items, policy);
    assert(previous_chord@ =~= prev_seq(items@, o));
    assert(next_chord@ =~= next_seq(items@, o));
    let n = items.len();
    let mut facts: Vec<Option<NodeFacts>> = Vec::new();
    let mut candidates: Vec<Option<Vec<HybridCandidate>>> = Vec::new();
    let mut k: usize = 0;
    while k < n
        invariant
            k <= n,
            n == items.len(),
            facts.len() == k,
            candidates.len() == k,
            forall|m: int| 0 <= m < k ==> facts@[m] is None && candidates@[m] is None,
        decreases n - k,
    {
        facts.push(None);
        candidates.push(None);
        k = k + 1;
    }
    let mut i: usize = n;
    while i > 0
        invariant
            i <= n,
            n == items.len(),
            interpreter.spec_behavior() == o.behavior,
            progression_fits(items@, o.behavior),
            previous_chord@ == prev_seq(items@, o),
            next_chord@ == next_seq(items@, o),
            facts.len() == n,
            candidates.len() == n,
            forall|k: int| 0 <= k < i ==> facts@[k] is None && candidates@[k] is None,
            forall|k: int| i <= k < n ==> facts@[k] == facts_at(items@, o, k),
            forall|k: int| #![trigger candidates@[k]] i <= k < n ==> match candidates_at(items@, o, k) {
                Some(cs) => candidates@[k] matches Some(v) && candidate_views(v@) == cs,
                None => candidates@[k] is None,
            },
        decreases i,
    {
        i = i - 1;
        if let Some((f, cs)) = analyze_event(items, o, interpreter, &previous_chord, &next_chord, &facts, i) {
            facts.set(i, Some(f));
            candidates.set(i, Some(cs));
        } else {
            assert(facts_at(items@, o, i as int) is None);
        }
    }
    assert(facts@ =~= facts_seq(items@, o));
    ContextAnalysis { previous_chord, next_chord, facts, candidates }
}

/// Local readings depend on the next chord only as it is heard.
pub proof fn lemma_candidates_heard_alike(
    chord: ParsedChord,
    tonic: SpelledNote,
    previous: Option<&ParsedChord>,
    n1: ParsedChord,
    n2: ParsedChord,
    behavior: BehaviorProfile,
)
    requires
        heard_alike(n1, n2),
    ensures
        node_candidates(chord, tonic, previous, Some(&n1), behavior) == node_candidates(
            chord,
            tonic,
            previous,
            Some(&n2),
            behavior,
        ),
{
    crate::analysis::interpreter::lemma_slash_alike(
        chord,
        BlackadderContext { tonic: Some(tonic), previous_chord: previous, next_chord: Some(&n1), observations: None },
        BlackadderContext { tonic: Some(tonic), previous_chord: previous, next_chord: Some(&n2), observations: None },
        behavior,
    );
    crate::analysis::interpreter::lemma_slash_alike(
        chord,
        BlackadderContext { tonic: None, previous_chord: None, next_chord: Some(&n1), observations: None },
        BlackadderContext { tonic: None, previous_chord: None, next_chord: Some(&n2), observations: None },
        behavior,
    );
}

} // verus!
