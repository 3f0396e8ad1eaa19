//! Longer-range harmonic obligations along a keyed path.
//!
//! The function lattice scores first-order transitions only. Along one
//! complete keyed path this module remembers how long the active key has
//! lasted and up to two unresolved dominant targets. A dominant target is an
//! obligation, not a promise: it may survive a few decorative chords, resolve
//! into a tonic-quality chord, or resolve into another dominant as a link of
//! a dominant chain. Explicit boundaries clear unresolved obligations; the
//! established active key is kept. Scores are in hundredths of a point.

use vstd::prelude::*;
use crate::analysis::blackadder::{dist, pc, spelled_on};
use crate::analysis::evidence::{duplicate_evidence, EvidenceView, ScoreEvidence};
use crate::analysis::harmony::{ClassificationView, DominantRelation, HarmonicClassification, HarmonicRole, InterpretationFamily, TonalMode};
use crate::analysis::key::{key_text, KeyedAnalysisPath, KeyedPathSelection, TonalKey};
use crate::domain::chord::{ParsedChord, ParsedSymbol, ProgressionItem};
use crate::domain::note::{letter_at, letter_index};
use crate::domain::quality::{QualityClass, SeventhQuality};
use crate::profile::NoChordPolicy;
use crate::speller::{semitone_distance, spell_pitch_class};
use crate::text::{decimal_string, decimal_text};

verus! {

/// Most unresolved dominant goals kept at once: depth two covers
/// `V/V/V -> V/V -> V -> I` without letting an abandoned target reach a much
/// later phrase.
pub const MAX_PENDING_DEPTH: usize = 2;

/// A target stays audible across this many intervening chord events.
pub const MAX_INTERVENING_CHORDS: usize = 2;

#[derive(Clone, Copy, Debug, Eq, PartialEq, Structural)]
/// One unresolved functional expectation at a point of a path.
pub struct PendingResolution {
    /// Dominant or leading-tone event that opened the expectation.
    pub source_event_index: usize,
    /// Tonal target selected by this path.
    pub target_key: TonalKey,
    pub relation: DominantRelation,
    /// Chord events heard since the source without resolution.
    pub intervening_chords: usize,
    /// One-based position in the bounded tonicization stack.
    pub depth: usize,
    /// Earlier predominant that prepared this goal, if any.
    pub predominant_event_index: Option<usize>,
    /// Chords heard between that preparation and this dominant.
    pub predominant_intervening_chords: Option<usize>,
}

#[derive(Clone, Copy, Debug, Eq, PartialEq, Structural)]
/// A predominant waiting for a dominant in the same tonal frame.
pub struct PendingPredominant {
    pub source_event_index: usize,
    pub target_key: TonalKey,
    pub intervening_chords: usize,
}

#[derive(Clone, Copy, Debug, Eq, Hash, PartialEq, Structural)]
/// What kind of event discharged a remembered dominant goal.
pub enum HarmonicResolutionKind {
    /// Major or minor target arrival.
    TonicArrival,
    /// The expected root arrives as another dominant, closing the old goal
    /// and normally opening the next link of a dominant sequence.
    DominantChainLink,
    /// The expected root arrives with a non-tonic, non-dominant quality.
    RootArrival,
    /// A selected secondary-dominant-deceptive candidate discharges the goal
    /// without the literal tonic root.
    DeceptiveArrival,
}

#[derive(Clone, Debug, PartialEq)]
/// A resolved long-range obligation of a complete path.
pub struct HarmonicResolution {
    pub source_event_index: usize,
    pub resolution_event_index: usize,
    pub target_key: TonalKey,
    pub relation: DominantRelation,
    pub kind: HarmonicResolutionKind,
    pub intervening_chords: usize,
    pub depth: usize,
    pub predominant_event_index: Option<usize>,
    pub predominant_intervening_chords: Option<usize>,
    /// Additive whole-path contribution; an immediate ordinary resolution
    /// has none, the lattice already scored it.
    pub score: i64,
    pub evidence: Vec<ScoreEvidence>,
}

#[derive(Clone, Debug, PartialEq)]
/// One complete predominant-dominant-resolution phrase.
pub struct CadentialSpan {
    pub predominant_event_index: usize,
    pub dominant_event_index: usize,
    pub resolution_event_index: usize,
    pub target_key: TonalKey,
    pub dominant_relation: DominantRelation,
    pub resolution_kind: HarmonicResolutionKind,
    pub intervening_before_dominant: usize,
    pub intervening_before_resolution: usize,
    /// Only dependencies not already scored by adjacent transitions count.
    pub score: i64,
    pub evidence: Vec<ScoreEvidence>,
}

/// Major triad with a minor or diminished seventh.
pub open spec fn memory_dominant(chord: ParsedChord) -> bool {
    chord.quality_parsed.class == QualityClass::Major && (chord.quality_parsed.seventh == Some(SeventhQuality::Minor)
        || chord.quality_parsed.seventh == Some(SeventhQuality::Diminished))
}

fn is_dominant_quality(chord: &ParsedChord) -> (r: bool)
    ensures
        r == memory_dominant(*chord),
{
    matches!(chord.quality_parsed.class, QualityClass::Major) && matches!(
        chord.quality_parsed.seventh,
        Some(SeventhQuality::Minor) | Some(SeventhQuality::Diminished)
    )
}

/// Mode of a stable major or minor, non-dominant chord.
pub open spec fn tonic_mode_of(chord: ParsedChord) -> Option<TonalMode> {
    if memory_dominant(chord) {
        None
    } else if chord.quality_parsed.class == QualityClass::Major {
        Some(TonalMode::Major)
    } else if chord.quality_parsed.class == QualityClass::Minor {
        Some(TonalMode::Minor)
    } else {
        None
    }
}

fn stable_tonic_mode(chord: &ParsedChord) -> (r: Option<TonalMode>)
    ensures
        r == tonic_mode_of(*chord),
{
    if is_dominant_quality(chord) {
        return None;
    }
    match chord.quality_parsed.class {
        QualityClass::Major => Some(TonalMode::Major),
        QualityClass::Minor => Some(TonalMode::Minor),
        _ => None,
    }
}

pub open spec fn same_key_as(a: TonalKey, b: TonalKey) -> bool {
    pc(a.tonic) == pc(b.tonic) && a.mode == b.mode
}

pub open spec fn same_tonic_as(a: TonalKey, b: TonalKey) -> bool {
    pc(a.tonic) == pc(b.tonic)
}

fn same_key(left: TonalKey, right: TonalKey) -> (r: bool)
    ensures
        r == same_key_as(left, right),
{
    left.tonic.pitch_class().value() == right.tonic.pitch_class().value() && left.mode == right.mode
}

fn same_tonic(left: TonalKey, right: TonalKey) -> (r: bool)
    ensures
        r == same_tonic_as(left, right),
{
    left.tonic.pitch_class().value() == right.tonic.pitch_class().value()
}

/// The key a fourth above the chord's root, on the letter three steps up,
/// with its mode left open.
pub open spec fn dominant_target(chord: ParsedChord) -> TonalKey {
    TonalKey {
        tonic: spelled_on(letter_at(letter_index(chord.root.letter) + 3), (pc(chord.root) + 5) % 12),
        mode: TonalMode::Unknown,
    }
}

fn target_of_dominant(chord: &ParsedChord) -> (r: TonalKey)
    ensures
        r == dominant_target(*chord),
{
    let tonic = spell_pitch_class(chord.root.letter.shift(3), chord.root.pitch_class().offset(5));
    TonalKey { tonic, mode: TonalMode::Unknown }
}

/// The dominant relation of `chord` to `target` read from their distance.
pub open spec fn relation_to(chord: ParsedChord, target: TonalKey) -> Option<DominantRelation> {
    let d = dist(target.tonic, chord.root);
    if d == 5 && memory_dominant(chord) {
        Some(DominantRelation::FifthRelated)
    } else if d == 11 && memory_dominant(chord) {
        Some(DominantRelation::TritoneSubstitute)
    } else if d == 2 && memory_dominant(chord) {
        Some(DominantRelation::Backdoor)
    } else if d == 1 && (chord.quality_parsed.class == QualityClass::Diminished || chord.quality_parsed.class
        == QualityClass::HalfDiminished) {
        Some(DominantRelation::LeadingTone)
    } else {
        None
    }
}

fn infer_relation(chord: &ParsedChord, target_key: TonalKey) -> (r: Option<DominantRelation>)
    ensures
        r == relation_to(*chord, target_key),
{
    let d = semitone_distance(target_key.tonic, chord.root);
    let dominant = is_dominant_quality(chord);
    if d == 5 && dominant {
        Some(DominantRelation::FifthRelated)
    } else if d == 11 && dominant {
        Some(DominantRelation::TritoneSubstitute)
    } else if d == 2 && dominant {
        Some(DominantRelation::Backdoor)
    } else if d == 1 && matches!(chord.quality_parsed.class, QualityClass::Diminished | QualityClass::HalfDiminished) {
        Some(DominantRelation::LeadingTone)
    } else {
        None
    }
}

/// A predominant or subdominant selection, not itself of dominant quality,
/// prepares its local key.
pub open spec fn predominant_target(role: Option<HarmonicRole>, local_key: TonalKey, chord: ParsedChord) -> Option<TonalKey> {
    if (role == Some(HarmonicRole::Predominant) || role == Some(HarmonicRole::Subdominant)) && !memory_dominant(chord) {
        Some(local_key)
    } else {
        None
    }
}

fn predominant_goal(keyed: &KeyedPathSelection, chord: &ParsedChord) -> (r: Option<TonalKey>)
    ensures
        r == predominant_target(keyed.role, keyed.local_key, *chord),
{
    if matches!(keyed.role, Some(HarmonicRole::Predominant) | Some(HarmonicRole::Subdominant))
        && !is_dominant_quality(chord) {
        Some(keyed.local_key)
    } else {
        None
    }
}

pub open spec fn classification_views(cs: Seq<HarmonicClassification>) -> Seq<ClassificationView> {
    cs.map_values(|c: HarmonicClassification| c@)
}

/// Some classification carries the secondary-dominant-deceptive family.
pub open spec fn has_deceptive_family(cs: Seq<ClassificationView>) -> bool {
    exists|k: int| 0 <= k < cs.len() && (#[trigger] cs[k]).families.contains(InterpretationFamily::SecondaryDominantDeceptive)
}

fn deceptive_selected(cs: &Vec<HarmonicClassification>) -> (r: bool)
    ensures
        r == has_deceptive_family(classification_views(cs@)),
{
    let ghost v = classification_views(cs@);
    let mut i: usize = 0;
    while i < cs.len()
        invariant
            i <= cs.len(),
            v == classification_views(cs@),
            forall|k: int| 0 <= k < i ==> !(#[trigger] v[k]).families.contains(InterpretationFamily::SecondaryDominantDeceptive),
        decreases cs.len() - i,
    {
        let fs = &cs[i].families;
        let mut j: usize = 0;
        assert(v[i as int] == cs@[i as int]@);
        while j < fs.len()
            invariant
                i < cs.len(),
                v == classification_views(cs@),
                v.len() == cs.len(),
                j <= fs.len(),
                fs@ == v[i as int].families,
                forall|m: int| 0 <= m < j ==> fs@[m] != InterpretationFamily::SecondaryDominantDeceptive,
            decreases fs.len() - j,
        {
            if fs[j] == InterpretationFamily::SecondaryDominantDeceptive {
                assert(v[i as int].families[j as int] == InterpretationFamily::SecondaryDominantDeceptive);
                assert(v[i as int].families.contains(InterpretationFamily::SecondaryDominantDeceptive));
                assert(has_deceptive_family(v));
                return true;
            }
            j = j + 1;
        }
        i = i + 1;
    }
    false
}

fn is_selected_deceptive_arrival(keyed: &KeyedPathSelection, goal: &PendingResolution) -> (r: bool)
    ensures
        r == (same_tonic_as(keyed.local_key, goal.target_key) && has_deceptive_family(
            classification_views(keyed.selection.harmonic_classifications@),
        )),
{
    same_tonic(keyed.local_key, goal.target_key) && deceptive_selected(&keyed.selection.harmonic_classifications)
}

/// The relation of the first dominant-role classification that has one.
pub open spec fn first_dominant_relation(cs: Seq<ClassificationView>) -> Option<DominantRelation>
    decreases cs.len(),
{
    if cs.len() == 0 {
        None
    } else if cs[0].role == Some(HarmonicRole::Dominant) && cs[0].dominant_relation is Some {
        cs[0].dominant_relation
    } else {
        first_dominant_relation(cs.drop_first())
    }
}

fn selected_dominant_relation(cs: &Vec<HarmonicClassification>) -> (r: Option<DominantRelation>)
    ensures
        r == first_dominant_relation(classification_views(cs@)),
{
    let ghost v = classification_views(cs@);
    let mut i: usize = 0;
    assert(v.skip(0) =~= v);
    while i < cs.len()
        invariant
            i <= cs.len(),
            v == classification_views(cs@),
            first_dominant_relation(v) == first_dominant_relation(v.skip(i as int)),
        decreases cs.len() - i,
    {
        assert(v.skip(i as int).drop_first() =~= v.skip(i + 1));
        assert(v.skip(i as int)[0] == v[i as int]);
        assert(v[i as int] == cs@[i as int]@);
        if matches!(cs[i].role, Some(HarmonicRole::Dominant)) && cs[i].dominant_relation.is_some() {
            return cs[i].dominant_relation;
        }
        i = i + 1;
    }
    assert(v.skip(i as int) =~= Seq::<ClassificationView>::empty());
    None
}

/// The target a selection opens as a dominant: its local key when it was
/// selected as a dominant, else the fourth above a dominant-quality root.
pub open spec fn dominant_target_of(role: Option<HarmonicRole>, local_key: TonalKey, chord: ParsedChord) -> Option<TonalKey> {
    if role == Some(HarmonicRole::Dominant) {
        Some(local_key)
    } else if memory_dominant(chord) {
        Some(dominant_target(chord))
    } else {
        None
    }
}

/// The goal a selection opens: a target other than its own root, with the
/// selected relation, else the one its distance shows, else fifth-related
/// for a dominant-quality chord.
pub open spec fn dominant_goal_of(keyed: KeyedPathSelection, chord: ParsedChord) -> Option<(TonalKey, DominantRelation)> {
    match dominant_target_of(keyed.role, keyed.local_key, chord) {
        None => None,
        Some(t) => if pc(chord.root) == pc(t.tonic) {
            None
        } else {
            match first_dominant_relation(classification_views(keyed.selection.harmonic_classifications@)) {
                Some(r) => Some((t, r)),
                None => match relation_to(chord, t) {
                    Some(r) => Some((t, r)),
                    None => if memory_dominant(chord) {
                        Some((t, DominantRelation::FifthRelated))
                    } else {
                        None
                    },
                },
            }
        },
    }
}

fn dominant_goal(keyed: &KeyedPathSelection, chord: &ParsedChord) -> (r: Option<(TonalKey, DominantRelation)>)
    ensures
        r == dominant_goal_of(*keyed, *chord),
{
    let target_key = if matches!(keyed.role, Some(HarmonicRole::Dominant)) {
        keyed.local_key
    } else if is_dominant_quality(chord) {
        target_of_dominant(chord)
    } else {
        return None;
    };
    if chord.root.pitch_class().value() == target_key.tonic.pitch_class().value() {
        return None;
    }
    match selected_dominant_relation(&keyed.selection.harmonic_classifications) {
        Some(r) => Some((target_key, r)),
        None => match infer_relation(chord, target_key) {
            Some(r) => Some((target_key, r)),
            None => if is_dominant_quality(chord) {
                Some((target_key, DominantRelation::FifthRelated))
            } else {
                None
            },
        },
    }
}

pub open spec fn resolution_kind_of(chord: ParsedChord, deceptive: bool) -> HarmonicResolutionKind {
    if deceptive {
        HarmonicResolutionKind::DeceptiveArrival
    } else if tonic_mode_of(chord) is Some {
        HarmonicResolutionKind::TonicArrival
    } else if memory_dominant(chord) {
        HarmonicResolutionKind::DominantChainLink
    } else {
        HarmonicResolutionKind::RootArrival
    }
}

/// The goal's key, its open mode filled in by a stable arriving chord.
pub open spec fn resolved_target(goal: PendingResolution, chord: ParsedChord) -> TonalKey {
    match tonic_mode_of(chord) {
        Some(m) => if goal.target_key.mode == TonalMode::Unknown {
            TonalKey { mode: m, ..goal.target_key }
        } else {
            goal.target_key
        },
        None => goal.target_key,
    }
}

pub open spec fn delayed_resolution_points(intervening: int) -> int {
    65 - (if intervening > 1 { intervening - 1 } else { 0 }) * 12
}

/// Evidence of a resolution: a delayed one gains `0.65` less `0.12` per
/// intervening chord past the first; a nested one gains `0.18`.
pub open spec fn resolution_evidence(goal: PendingResolution, target: TonalKey) -> Seq<EvidenceView> {
    let delayed = if goal.intervening_chords > 0 {
        seq![EvidenceView {
            rule_id: RULE_DELAYED_RESOLUTION@,
            contribution: delayed_resolution_points(goal.intervening_chords as int),
            explanation: "The target "@ + key_text(target) + " opened at event "@ + decimal_text(
                goal.source_event_index as nat,
            ) + " resolves after "@ + decimal_text(goal.intervening_chords as nat) + " intervening chord(s)"@,
        }]
    } else {
        Seq::empty()
    };
    let nested = if goal.depth > 1 {
        seq![EvidenceView {
            rule_id: RULE_NESTED_RESOLUTION@,
            contribution: 18,
            explanation: "A depth-"@ + decimal_text(goal.depth as nat)
                + " tonicization goal resolves without discarding its outer context"@,
        }]
    } else {
        Seq::empty()
    };
    delayed + nested
}

pub const RULE_DELAYED_RESOLUTION: &'static str = "builtin.memory.delayed_dominant_resolution";
pub const RULE_NESTED_RESOLUTION: &'static str = "builtin.memory.nested_tonicization_resolution";
pub const RULE_DELAYED_PREDOMINANT: &'static str = "builtin.memory.delayed_predominant_to_dominant";
pub const RULE_BOUNDARY: &'static str = "builtin.memory.boundary_clears_pending";
pub const RULE_STACK_LIMIT: &'static str = "builtin.memory.stack_limit";
pub const RULE_EXPIRED: &'static str = "builtin.memory.expired_dominant_target";

pub open spec fn evidence_sum(e: Seq<EvidenceView>) -> int
    decreases e.len(),
{
    if e.len() == 0 {
        0
    } else {
        evidence_sum(e.drop_last()) + e.last().contribution
    }
}

pub open spec fn evidence_views(e: Seq<ScoreEvidence>) -> Seq<EvidenceView> {
    e.map_values(|x: ScoreEvidence| x@)
}

fn resolved_resolution(goal: PendingResolution, chord: &ParsedChord, resolution_event_index: usize, deceptive: bool) -> (r:
    HarmonicResolution)
    requires
        goal.intervening_chords <= MAX_INTERVENING_CHORDS,
    ensures
        r.source_event_index == goal.source_event_index,
        r.resolution_event_index == resolution_event_index,
        r.target_key == resolved_target(goal, *chord),
        r.relation == goal.relation,
        r.kind == resolution_kind_of(*chord, deceptive),
        r.intervening_chords == goal.intervening_chords,
        r.depth == goal.depth,
        r.predominant_event_index == goal.predominant_event_index,
        r.predominant_intervening_chords == goal.predominant_intervening_chords,
        evidence_views(r.evidence@) == resolution_evidence(goal, resolved_target(goal, *chord)),
        r.score == evidence_sum(evidence_views(r.evidence@)),
{
    let tonic_mode = stable_tonic_mode(chord);
    let kind = if deceptive {
        HarmonicResolutionKind::DeceptiveArrival
    } else if tonic_mode.is_some() {
        HarmonicResolutionKind::TonicArrival
    } else if is_dominant_quality(chord) {
        HarmonicResolutionKind::DominantChainLink
    } else {
        HarmonicResolutionKind::RootArrival
    };
    let mut target_key = goal.target_key;
    if let Some(mode) = tonic_mode {
        if matches!(goal.target_key.mode, TonalMode::Unknown) {
            target_key = TonalKey { mode, ..goal.target_key };
        }
    }
    let mut score: i64 = 0;
    let mut evidence: Vec<ScoreEvidence> = Vec::new();
    if goal.intervening_chords > 0 {
        let extra: i64 = if goal.intervening_chords > 1 { (goal.intervening_chords - 1) as i64 } else { 0 };
        let contribution: i64 = 65 - extra * 12;
        score = score + contribution;
        let mut why = String::from_str("The target ");
        why.append(&target_key.to_string());
        why.append(" opened at event ");
        why.append(&decimal_string(goal.source_event_index));
        why.append(" resolves after ");
        why.append(&decimal_string(goal.intervening_chords));
        why.append(" intervening chord(s)");
        evidence.push(ScoreEvidence::new(RULE_DELAYED_RESOLUTION, contribution, why.as_str()));
    }
    if goal.depth > 1 {
        score = score + 18;
        let mut why = String::from_str("A depth-");
        why.append(&decimal_string(goal.depth));
        why.append(" tonicization goal resolves without discarding its outer context");
        evidence.push(ScoreEvidence::new(RULE_NESTED_RESOLUTION, 18, why.as_str()));
    }
    proof {
        let e = evidence_views(evidence@);
        assert(e =~= resolution_evidence(goal, target_key));
        reveal_with_fuel(evidence_sum, 3);
        if e.len() == 2 {
            assert(e.drop_last().drop_last() =~= Seq::<EvidenceView>::empty());
        } else if e.len() == 1 {
            assert(e.drop_last() =~= Seq::<EvidenceView>::empty());
        }
    }
    HarmonicResolution {
        source_event_index: goal.source_event_index,
        resolution_event_index,
        target_key,
        relation: goal.relation,
        kind,
        intervening_chords: goal.intervening_chords,
        depth: goal.depth,
        predominant_event_index: goal.predominant_event_index,
        predominant_intervening_chords: goal.predominant_intervening_chords,
        score,
        evidence,
    }
}

/// Abstract form of a resolved obligation.
pub struct ResolutionView {
    pub source_event_index: usize,
    pub resolution_event_index: usize,
    pub target_key: TonalKey,
    pub relation: DominantRelation,
    pub kind: HarmonicResolutionKind,
    pub intervening_chords: usize,
    pub depth: usize,
    pub predominant_event_index: Option<usize>,
    pub predominant_intervening_chords: Option<usize>,
    pub score: int,
    pub evidence: Seq<EvidenceView>,
}

impl View for HarmonicResolution {
    type V = ResolutionView;

    open spec fn view(&self) -> ResolutionView {
        ResolutionView {
            source_event_index: self.source_event_index,
            resolution_event_index: self.resolution_event_index,
            target_key: self.target_key,
            relation: self.relation,
            kind: self.kind,
            intervening_chords: self.intervening_chords,
            depth: self.depth,
            predominant_event_index: self.predominant_event_index,
            predominant_intervening_chords: self.predominant_intervening_chords,
            score: self.score as int,
            evidence: evidence_views(self.evidence@),
        }
    }
}

/// Abstract form of a cadential span.
pub struct SpanView {
    pub predominant_event_index: usize,
    pub dominant_event_index: usize,
    pub resolution_event_index: usize,
    pub target_key: TonalKey,
    pub dominant_relation: DominantRelation,
    pub resolution_kind: HarmonicResolutionKind,
    pub intervening_before_dominant: usize,
    pub intervening_before_resolution: usize,
    pub score: int,
    pub evidence: Seq<EvidenceView>,
}

impl View for CadentialSpan {
    type V = SpanView;

    open spec fn view(&self) -> SpanView {
        SpanView {
            predominant_event_index: self.predominant_event_index,
            dominant_event_index: self.dominant_event_index,
            resolution_event_index: self.resolution_event_index,
            target_key: self.target_key,
            dominant_relation: self.dominant_relation,
            resolution_kind: self.resolution_kind,
            intervening_before_dominant: self.intervening_before_dominant,
            intervening_before_resolution: self.intervening_before_resolution,
            score: self.score as int,
            evidence: evidence_views(self.evidence@),
        }
    }
}

impl HarmonicResolution {
    /// A copy of the same record.
    pub fn duplicate(&self) -> (r: Self)
        ensures
            r@ == self@,
    {
        let evidence = crate::analysis::evidence::duplicate_evidence(&self.evidence);
        assert(evidence_views(evidence@) =~= evidence_views(self.evidence@));
        HarmonicResolution { evidence, ..*self }
    }
}

impl CadentialSpan {
    /// A copy of the same record.
    pub fn duplicate(&self) -> (r: Self)
        ensures
            r@ == self@,
    {
        let evidence = crate::analysis::evidence::duplicate_evidence(&self.evidence);
        assert(evidence_views(evidence@) =~= evidence_views(self.evidence@));
        CadentialSpan { evidence, ..*self }
    }
}

/// The resolution of `goal` on `chord` at event `idx`.
pub open spec fn resolution_of(goal: PendingResolution, chord: ParsedChord, idx: usize, deceptive: bool) -> ResolutionView {
    let t = resolved_target(goal, chord);
    let e = resolution_evidence(goal, t);
    ResolutionView {
        source_event_index: goal.source_event_index,
        resolution_event_index: idx,
        target_key: t,
        relation: goal.relation,
        kind: resolution_kind_of(chord, deceptive),
        intervening_chords: goal.intervening_chords,
        depth: goal.depth,
        predominant_event_index: goal.predominant_event_index,
        predominant_intervening_chords: goal.predominant_intervening_chords,
        score: evidence_sum(e),
        evidence: e,
    }
}

/// A preparation that reaches its dominant after intervening chords gains
/// `0.35` less `0.08` per intervening chord past the first.
pub open spec fn span_evidence(p: usize, n: usize) -> Seq<EvidenceView> {
    if n > 0 {
        seq![EvidenceView {
            rule_id: RULE_DELAYED_PREDOMINANT@,
            contribution: 35 - (if n > 1 { n - 1 } else { 0 }) * 8,
            explanation: "The predominant at event "@ + decimal_text(p as nat) + " reaches its dominant after "@
                + decimal_text(n as nat) + " intervening chord(s)"@,
        }]
    } else {
        Seq::empty()
    }
}

/// The complete cadence of a resolution whose dominant was prepared.
pub open spec fn span_of(r: ResolutionView) -> Option<SpanView> {
    match (r.predominant_event_index, r.predominant_intervening_chords) {
        (Some(p), Some(n)) => {
            let e = span_evidence(p, n);
            Some(
                SpanView {
                    predominant_event_index: p,
                    dominant_event_index: r.source_event_index,
                    resolution_event_index: r.resolution_event_index,
                    target_key: r.target_key,
                    dominant_relation: r.relation,
                    resolution_kind: r.kind,
                    intervening_before_dominant: n,
                    intervening_before_resolution: r.intervening_chords,
                    score: evidence_sum(e),
                    evidence: e,
                },
            )
        },
        _ => None,
    }
}

fn cadential_span(resolution: &HarmonicResolution) -> (r: Option<CadentialSpan>)
    requires
        resolution.predominant_intervening_chords matches Some(n) ==> n <= MAX_INTERVENING_CHORDS,
    ensures
        match r {
            Some(s) => span_of(resolution@) == Some(s@),
            None => span_of(resolution@) is None,
        },
{
    let predominant_event_index = match resolution.predominant_event_index {
        Some(p) => p,
        None => {
            return None;
        },
    };
    let intervening_before_dominant = match resolution.predominant_intervening_chords {
        Some(n) => n,
        None => {
            return None;
        },
    };
    let mut score: i64 = 0;
    let mut evidence: Vec<ScoreEvidence> = Vec::new();
    if intervening_before_dominant > 0 {
        let extra: i64 = if intervening_before_dominant > 1 { (intervening_before_dominant - 1) as i64 } else { 0 };
        let contribution: i64 = 35 - extra * 8;
        score = contribution;
        let mut why = String::from_str("The predominant at event ");
        why.append(&decimal_string(predominant_event_index));
        why.append(" reaches its dominant after ");
        why.append(&decimal_string(intervening_before_dominant));
        why.append(" intervening chord(s)");
        evidence.push(ScoreEvidence::new(RULE_DELAYED_PREDOMINANT, contribution, why.as_str()));
    }
    proof {
        let e = evidence_views(evidence@);
        assert(e =~= span_evidence(predominant_event_index, intervening_before_dominant));
        reveal_with_fuel(evidence_sum, 2);
        if e.len() == 1 {
            assert(e.drop_last() =~= Seq::<EvidenceView>::empty());
        }
    }
    Some(
        CadentialSpan {
            predominant_event_index,
            dominant_event_index: resolution.source_event_index,
            resolution_event_index: resolution.resolution_event_index,
            target_key: resolution.target_key,
            dominant_relation: resolution.relation,
            resolution_kind: resolution.kind,
            intervening_before_dominant,
            intervening_before_resolution: resolution.intervening_chords,
            score,
            evidence,
        },
    )
}

/// A boundary, or a no-chord event that breaks context, lies strictly
/// between the two events.
pub open spec fn boundary_between(items: Seq<ProgressionItem>, previous: usize, idx: usize, policy: NoChordPolicy) -> bool {
    exists|k: int|
        previous < k < idx && match (#[trigger] items[k]).symbol {
            ParsedSymbol::Boundary { .. } => true,
            ParsedSymbol::NoChord { .. } => policy == NoChordPolicy::Break,
            ParsedSymbol::Chord(_) => false,
        }
}

fn has_memory_boundary(progression: &[ProgressionItem], previous: usize, idx: usize, policy: NoChordPolicy) -> (r: bool)
    requires
        previous < idx <= progression@.len(),
    ensures
        r == boundary_between(progression@, previous, idx, policy),
{
    let mut k: usize = previous + 1;
    while k < idx
        invariant
            previous < k <= idx <= progression@.len(),
            forall|j: int|
                previous < j < k ==> !match (#[trigger] progression@[j]).symbol {
                    ParsedSymbol::Boundary { .. } => true,
                    ParsedSymbol::NoChord { .. } => policy == NoChordPolicy::Break,
                    ParsedSymbol::Chord(_) => false,
                },
        decreases idx - k,
    {
        let hit = match &progression[k].symbol {
            ParsedSymbol::Boundary { .. } => true,
            ParsedSymbol::NoChord { .. } => matches!(policy, NoChordPolicy::Break),
            ParsedSymbol::Chord(_) => false,
        };
        if hit {
            return true;
        }
        k = k + 1;
    }
    false
}

/// What the memory knows after some events of a path.
pub struct MemoryState {
    pub pending: Seq<PendingResolution>,
    pub predominant: Option<PendingPredominant>,
    pub resolutions: Seq<ResolutionView>,
    pub spans: Seq<SpanView>,
    pub evidence: Seq<EvidenceView>,
    pub score: int,
    pub previous_event: Option<usize>,
    pub previous_active: Option<TonalKey>,
    pub age: int,
}

/// The snapshot an event receives.
pub struct EventMemory {
    pub age: int,
    pub is_chord: bool,
    pub pending: Seq<PendingResolution>,
    pub resolved_sources: Seq<usize>,
    pub predominant: Option<PendingPredominant>,
    pub cadence_sources: Seq<usize>,
}

pub open spec fn empty_memory() -> MemoryState {
    MemoryState {
        pending: Seq::empty(),
        predominant: None,
        resolutions: Seq::empty(),
        spans: Seq::empty(),
        evidence: Seq::empty(),
        score: 0,
        previous_event: None,
        previous_active: None,
        age: 0,
    }
}

pub open spec fn boundary_note(st: MemoryState) -> Seq<EvidenceView> {
    if st.pending.len() > 0 || st.predominant is Some {
        seq![EvidenceView {
            rule_id: RULE_BOUNDARY@,
            contribution: 0,
            explanation: "A context boundary clears "@ + decimal_text(st.pending.len()) + " dominant target(s) and "@
                + decimal_text(if st.predominant is Some { 1 } else { 0 }) + " cadential preparation(s)"@,
        }]
    } else {
        Seq::empty()
    }
}

/// A boundary since the previous event clears every unresolved goal and
/// preparation; the active key is kept.
pub open spec fn after_boundary(st: MemoryState, items: Seq<ProgressionItem>, idx: usize, policy: NoChordPolicy) -> MemoryState {
    if st.previous_event matches Some(p) && boundary_between(items, p, idx, policy) {
        MemoryState { pending: Seq::empty(), predominant: None, evidence: st.evidence + boundary_note(st), ..st }
    } else {
        st
    }
}

pub open spec fn deceptive_arrival(sel: KeyedPathSelection, goal: PendingResolution) -> bool {
    same_tonic_as(sel.local_key, goal.target_key) && has_deceptive_family(
        classification_views(sel.selection.harmonic_classifications@),
    )
}

/// Only the most recently opened goal may resolve: on its tonic's pitch
/// class, or deceptively.
pub open spec fn after_resolution(st: MemoryState, sel: KeyedPathSelection, chord: ParsedChord, idx: usize) -> (
    MemoryState,
    Seq<usize>,
    Seq<usize>,
) {
    if st.pending.len() > 0 && (pc(chord.root) == pc(st.pending.last().target_key.tonic) || deceptive_arrival(
        sel,
        st.pending.last(),
    )) {
        let goal = st.pending.last();
        let res = resolution_of(goal, chord, idx, deceptive_arrival(sel, goal));
        let base = MemoryState {
            pending: st.pending.drop_last(),
            resolutions: st.resolutions.push(res),
            score: st.score + res.score,
            evidence: st.evidence + res.evidence,
            ..st
        };
        match span_of(res) {
            Some(sp) => (
                MemoryState { spans: st.spans.push(sp), score: base.score + sp.score, evidence: base.evidence + sp.evidence, ..base },
                seq![goal.source_event_index],
                seq![sp.predominant_event_index],
            ),
            None => (base, seq![goal.source_event_index], Seq::empty()),
        }
    } else {
        (st, Seq::empty(), Seq::empty())
    }
}

/// Index of the most recent pending goal aimed at `t`'s tonic.
pub open spec fn last_same_tonic(pending: Seq<PendingResolution>, t: TonalKey) -> Option<int>
    decreases pending.len(),
{
    if pending.len() == 0 {
        None
    } else if same_tonic_as(pending.last().target_key, t) {
        Some(pending.len() - 1)
    } else {
        last_same_tonic(pending.drop_last(), t)
    }
}

/// A repeated dominant of an open goal: a new preparation enriches it if it
/// had none, and its count of intervening chords restarts.
pub open spec fn enriched(g: PendingResolution, prep: Option<PendingPredominant>) -> PendingResolution {
    let g2 = match prep {
        Some(p) => if g.predominant_event_index is None {
            PendingResolution {
                predominant_event_index: Some(p.source_event_index),
                predominant_intervening_chords: Some(p.intervening_chords),
                target_key: if g.target_key.mode == TonalMode::Unknown {
                    TonalKey { mode: p.target_key.mode, ..g.target_key }
                } else {
                    g.target_key
                },
                ..g
            }
        } else {
            g
        },
        None => g,
    };
    PendingResolution { intervening_chords: 0, ..g2 }
}

pub open spec fn stack_note(g: PendingResolution) -> EvidenceView {
    EvidenceView {
        rule_id: RULE_STACK_LIMIT@,
        contribution: 0,
        explanation: "The bounded tonicization stack drops the older "@ + key_text(g.target_key) + " target opened at event "@
            + decimal_text(g.source_event_index as nat),
    }
}

/// A dominant opens (or renews) its goal after any resolution; a waiting
/// preparation of the same tonic is consumed.
pub open spec fn after_goal(st: MemoryState, sel: KeyedPathSelection, chord: ParsedChord, idx: usize) -> (MemoryState, Option<usize>) {
    match dominant_goal_of(sel, chord) {
        None => (st, None),
        Some((t, rel)) => {
            let prep = if st.predominant matches Some(p) && same_tonic_as(p.target_key, t) {
                st.predominant
            } else {
                None
            };
            let left = if prep is Some {
                None
            } else {
                st.predominant
            };
            match last_same_tonic(st.pending, t) {
                Some(j) => (
                    MemoryState { pending: st.pending.update(j, enriched(st.pending[j], prep)), predominant: left, ..st },
                    Some(st.pending[j].source_event_index),
                ),
                None => {
                    let full = st.pending.len() == MAX_PENDING_DEPTH;
                    let kept = if full {
                        st.pending.drop_first()
                    } else {
                        st.pending
                    };
                    let note = if full {
                        seq![stack_note(st.pending[0])]
                    } else {
                        Seq::empty()
                    };
                    let goal = PendingResolution {
                        source_event_index: idx,
                        target_key: if t.mode == TonalMode::Unknown {
                            match prep {
                                Some(p) => p.target_key,
                                None => t,
                            }
                        } else {
                            t
                        },
                        relation: rel,
                        intervening_chords: 0,
                        depth: (kept.len() + 1) as usize,
                        predominant_event_index: match prep {
                            Some(p) => Some(p.source_event_index),
                            None => None,
                        },
                        predominant_intervening_chords: match prep {
                            Some(p) => Some(p.intervening_chords),
                            None => None,
                        },
                    };
                    (MemoryState { pending: kept.push(goal), predominant: left, evidence: st.evidence + note, ..st }, Some(idx))
                },
            }
        },
    }
}

/// A predominant opens the next cadential preparation.
pub open spec fn after_predominant(st: MemoryState, sel: KeyedPathSelection, chord: ParsedChord, idx: usize) -> (MemoryState, Option<usize>) {
    match predominant_target(sel.role, sel.local_key, chord) {
        Some(t) => (
            MemoryState {
                predominant: Some(PendingPredominant { source_event_index: idx, target_key: t, intervening_chords: 0 }),
                ..st
            },
            Some(idx),
        ),
        None => (st, None),
    }
}

pub open spec fn aged_goal(g: PendingResolution, opened: Option<usize>) -> PendingResolution {
    if Some(g.source_event_index) != opened {
        PendingResolution { intervening_chords: (g.intervening_chords + 1) as usize, ..g }
    } else {
        g
    }
}

pub open spec fn aged_goals(s: Seq<PendingResolution>, opened: Option<usize>) -> Seq<PendingResolution> {
    s.map_values(|g: PendingResolution| aged_goal(g, opened))
}

/// Every goal and preparation not opened by this chord hears one more
/// intervening chord.
pub open spec fn after_aging(st: MemoryState, opened: Option<usize>, opened_pre: Option<usize>) -> MemoryState {
    MemoryState {
        pending: aged_goals(st.pending, opened),
        predominant: match st.predominant {
            Some(p) => if Some(p.source_event_index) != opened_pre {
                Some(PendingPredominant { intervening_chords: (p.intervening_chords + 1) as usize, ..p })
            } else {
                Some(p)
            },
            None => None,
        },
        ..st
    }
}

pub open spec fn kept_goals(s: Seq<PendingResolution>) -> Seq<PendingResolution>
    decreases s.len(),
{
    if s.len() == 0 {
        s
    } else if s.last().intervening_chords <= MAX_INTERVENING_CHORDS {
        kept_goals(s.drop_last()).push(s.last())
    } else {
        kept_goals(s.drop_last())
    }
}

pub open spec fn expired_note(g: PendingResolution) -> EvidenceView {
    EvidenceView {
        rule_id: RULE_EXPIRED@,
        contribution: -12,
        explanation: "The "@ + key_text(g.target_key) + " target opened at event "@ + decimal_text(
            g.source_event_index as nat,
        ) + " did not arrive within the memory window"@,
    }
}

pub open spec fn expired_notes(s: Seq<PendingResolution>) -> Seq<EvidenceView>
    decreases s.len(),
{
    if s.len() == 0 {
        Seq::empty()
    } else if s.last().intervening_chords <= MAX_INTERVENING_CHORDS {
        expired_notes(s.drop_last())
    } else {
        expired_notes(s.drop_last()).push(expired_note(s.last()))
    }
}

/// Goals and preparations that waited past the window expire; each expired
/// goal costs `0.12`.
pub open spec fn after_expiry(st: MemoryState) -> MemoryState {
    let notes = expired_notes(st.pending);
    MemoryState {
        pending: kept_goals(st.pending),
        predominant: if st.predominant matches Some(p) && p.intervening_chords > MAX_INTERVENING_CHORDS {
            None
        } else {
            st.predominant
        },
        score: st.score - 12 * notes.len(),
        evidence: st.evidence + notes,
        ..st
    }
}

/// What a chord event does to the memory: resolve, open a goal, open a
/// preparation, then age and expire.
#[verifier::opaque]
pub open spec fn chord_memory(st: MemoryState, sel: KeyedPathSelection, chord: ParsedChord, idx: usize) -> (
    MemoryState,
    Seq<usize>,
    Seq<usize>,
) {
    let (s3, resolved, cadences) = after_resolution(st, sel, chord, idx);
    let (s4, opened) = after_goal(s3, sel, chord, idx);
    let (s5, opened_pre) = after_predominant(s4, sel, chord, idx);
    (after_expiry(after_aging(s5, opened, opened_pre)), resolved, cadences)
}

/// One event of the path.
#[verifier::opaque]
pub open spec fn memory_step(st: MemoryState, sel: KeyedPathSelection, items: Seq<ProgressionItem>, policy: NoChordPolicy) -> (
    MemoryState,
    EventMemory,
) {
    let idx = sel.selection.event_index;
    let s1 = after_boundary(st, items, idx, policy);
    let age = if s1.previous_active matches Some(k) && same_key_as(k, sel.active_key) {
        s1.age + 1
    } else {
        1
    };
    let s2 = MemoryState { age, ..s1 };
    match items[idx as int].symbol {
        ParsedSymbol::Chord(chord) => {
            let (s6, resolved, cadences) = chord_memory(s2, sel, chord, idx);
            (
                MemoryState { previous_event: Some(idx), previous_active: Some(sel.active_key), ..s6 },
                EventMemory {
                    age,
                    is_chord: true,
                    pending: s6.pending,
                    resolved_sources: resolved,
                    predominant: s6.predominant,
                    cadence_sources: cadences,
                },
            )
        },
        _ => (
            MemoryState { previous_event: Some(idx), previous_active: Some(sel.active_key), ..s2 },
            EventMemory {
                age,
                is_chord: false,
                pending: Seq::empty(),
                resolved_sources: Seq::empty(),
                predominant: None,
                cadence_sources: Seq::empty(),
            },
        ),
    }
}

/// The memory after every event of `sels`, and each event's snapshot.
pub open spec fn memory_run(items: Seq<ProgressionItem>, sels: Seq<KeyedPathSelection>, policy: NoChordPolicy) -> (
    MemoryState,
    Seq<EventMemory>,
)
    decreases sels.len(),
{
    if sels.len() == 0 {
        (empty_memory(), Seq::empty())
    } else {
        let (st, ms) = memory_run(items, sels.drop_last(), policy);
        let (st2, m) = memory_step(st, sels.last(), items, policy);
        (st2, ms.push(m))
    }
}

/// `new` is `old` with its memory snapshot filled in: the region age always,
/// the goals and resolutions for a chord event.
pub open spec fn remembered(new: KeyedPathSelection, old: KeyedPathSelection, m: EventMemory) -> bool {
    &&& new.selection == old.selection
    &&& new.active_key == old.active_key
    &&& new.local_key == old.local_key
    &&& new.scope == old.scope
    &&& new.local_degree == old.local_degree
    &&& new.role == old.role
    &&& new.is_pivot == old.is_pivot
    &&& new.is_modulation_confirmation == old.is_modulation_confirmation
    &&& new.key_region_age_chords == m.age
    &&& if m.is_chord {
        &&& new.pending_resolutions@ == m.pending
        &&& new.resolved_resolution_sources@ == m.resolved_sources
        &&& new.pending_predominant == m.predominant
        &&& new.resolved_cadence_predominant_sources@ == m.cadence_sources
    } else {
        &&& new.pending_resolutions == old.pending_resolutions
        &&& new.resolved_resolution_sources == old.resolved_resolution_sources
        &&& new.pending_predominant == old.pending_predominant
        &&& new.resolved_cadence_predominant_sources == old.resolved_cadence_predominant_sources
    }
}

/// The path's events are chord-symbol positions in increasing order.
pub open spec fn events_in_order(items: Seq<ProgressionItem>, sels: Seq<KeyedPathSelection>) -> bool {
    &&& forall|k: int| 0 <= k < sels.len() ==> (#[trigger] sels[k]).selection.event_index < items.len()
    &&& forall|j: int, k: int|
        0 <= j < k < sels.len() ==> (#[trigger] sels[j]).selection.event_index < (#[trigger] sels[k]).selection.event_index
}

/// The running memory of one pass over a path.
struct MemoryRun {
    pending: Vec<PendingResolution>,
    predominant: Option<PendingPredominant>,
    resolutions: Vec<HarmonicResolution>,
    spans: Vec<CadentialSpan>,
    evidence: Vec<ScoreEvidence>,
    score: i128,
    previous_event: Option<usize>,
    previous_active: Option<TonalKey>,
    age: usize,
}

impl View for MemoryRun {
    type V = MemoryState;

    closed spec fn view(&self) -> MemoryState {
        MemoryState {
            pending: self.pending@,
            predominant: self.predominant,
            resolutions: self.resolutions@.map_values(|r: HarmonicResolution| r@),
            spans: self.spans@.map_values(|c: CadentialSpan| c@),
            evidence: evidence_views(self.evidence@),
            score: self.score as int,
            previous_event: self.previous_event,
            previous_active: self.previous_active,
            age: self.age as int,
        }
    }
}

/// Bounded stack, live goals and preparations inside the window, and a
/// score and region age bounded by the number of events seen.
pub open spec fn goals_ok(p: Seq<PendingResolution>) -> bool {
    &&& p.len() <= MAX_PENDING_DEPTH
    &&& forall|k: int|
        0 <= k < p.len() ==> (#[trigger] p[k]).intervening_chords <= MAX_INTERVENING_CHORDS && (
        p[k].predominant_intervening_chords matches Some(n) ==> n <= MAX_INTERVENING_CHORDS)
}

pub open spec fn prep_ok(p: Option<PendingPredominant>) -> bool {
    p matches Some(q) ==> q.intervening_chords <= MAX_INTERVENING_CHORDS
}

pub open spec fn memory_wf(st: MemoryState, seen: int) -> bool {
    &&& goals_ok(st.pending)
    &&& prep_ok(st.predominant)
    &&& -200 * seen <= st.score <= 200 * seen
    &&& 0 <= st.age <= seen
}

fn append_copies(target: &mut Vec<ScoreEvidence>, source: &Vec<ScoreEvidence>)
    ensures
        evidence_views(final(target)@) == evidence_views(old(target)@) + evidence_views(source@),
{
    let mut copy = duplicate_evidence(source);
    let ghost before = target@;
    target.append(&mut copy);
    assert(evidence_views(target@) =~= evidence_views(before) + evidence_views(source@));
}

fn apply_boundary(run: &mut MemoryRun, progression: &[ProgressionItem], idx: usize, policy: NoChordPolicy)
    requires
        old(run).previous_event matches Some(p) ==> p < idx,
        idx <= progression@.len(),
    ensures
        final(run)@ == after_boundary(old(run)@, progression@, idx, policy),
{
    if let Some(p) = run.previous_event {
        if has_memory_boundary(progression, p, idx, policy) {
            if run.pending.len() > 0 || run.predominant.is_some() {
                let mut why = String::from_str("A context boundary clears ");
                why.append(&decimal_string(run.pending.len()));
                why.append(" dominant target(s) and ");
                why.append(&decimal_string(if run.predominant.is_some() { 1 } else { 0 }));
                why.append(" cadential preparation(s)");
                let ghost before = evidence_views(run.evidence@);
                run.evidence.push(ScoreEvidence::new(RULE_BOUNDARY, 0, why.as_str()));
                assert(evidence_views(run.evidence@) =~= before + boundary_note(old(run)@));
            } else {
                assert(evidence_views(run.evidence@) =~= evidence_views(run.evidence@) + boundary_note(old(run)@));
            }
            run.pending = Vec::new();
            run.predominant = None;
            assert(run@.pending =~= Seq::<PendingResolution>::empty());
        }
    }
}

fn apply_resolution(run: &mut MemoryRun, sel: &KeyedPathSelection, chord: &ParsedChord, idx: usize) -> (r: (
    Vec<usize>,
    Vec<usize>,
))
    requires
        forall|k: int|
            0 <= k < old(run).pending@.len() ==> (#[trigger] old(run).pending@[k]).intervening_chords
                <= MAX_INTERVENING_CHORDS && (old(run).pending@[k].predominant_intervening_chords matches Some(n) ==> n
                <= MAX_INTERVENING_CHORDS),
        -1_000_000_000_000_000_000_000_000_000 <= old(run).score <= 1_000_000_000_000_000_000_000_000_000,
    ensures
        (final(run)@, r.0@, r.1@) == after_resolution(old(run)@, *sel, *chord, idx),
{
    let n = run.pending.len();
    if n > 0 {
        let goal = run.pending[n - 1];
        let deceptive = is_selected_deceptive_arrival(sel, &goal);
        if chord.root.pitch_class().value() == goal.target_key.tonic.pitch_class().value() || deceptive {
            let ghost st = run@;
            let _ = run.pending.pop();
            assert(run.pending@ =~= st.pending.drop_last());
            let resolution = resolved_resolution(goal, chord, idx, deceptive);
            assert(resolution@ == resolution_of(goal, *chord, idx, deceptive));
            proof {
                lemma_resolution_score_bound(goal, resolved_target(goal, *chord));
            }
            assert(resolution.score == evidence_sum(resolution_evidence(goal, resolved_target(goal, *chord))));
            assert(run.score == old(run).score);
            run.score = run.score + resolution.score as i128;
            append_copies(&mut run.evidence, &resolution.evidence);
            let mut resolved: Vec<usize> = Vec::new();
            resolved.push(goal.source_event_index);
            let mut cadences: Vec<usize> = Vec::new();
            match cadential_span(&resolution) {
                Some(span) => {
                    proof {
                        lemma_span_score_bound(span.predominant_event_index, span.intervening_before_dominant);
                    }
                    assert(span@ == span_of(resolution@).unwrap());
                    assert(span.score == evidence_sum(span_evidence(span.predominant_event_index, span.intervening_before_dominant)));
                    run.score = run.score + span.score as i128;
                    append_copies(&mut run.evidence, &span.evidence);
                    cadences.push(span.predominant_event_index);
                    let ghost spans = run.spans@;
                    run.spans.push(span);
                    assert(run.spans@.map_values(|c: CadentialSpan| c@) =~= spans.map_values(|c: CadentialSpan| c@).push(
                        span_of(resolution@).unwrap(),
                    ));
                },
                None => {},
            }
            let ghost rs = run.resolutions@;
            run.resolutions.push(resolution);
            assert(run.resolutions@.map_values(|x: HarmonicResolution| x@) =~= rs.map_values(
                |x: HarmonicResolution| x@,
            ).push(resolution_of(goal, *chord, idx, deceptive)));
            assert(resolved@ =~= seq![goal.source_event_index]);
            return (resolved, cadences);
        }
    }
    let resolved: Vec<usize> = Vec::new();
    let cadences: Vec<usize> = Vec::new();
    assert(resolved@ =~= Seq::<usize>::empty());
    assert(cadences@ =~= Seq::<usize>::empty());
    (resolved, cadences)
}

proof fn lemma_resolution_score_bound(goal: PendingResolution, t: TonalKey)
    requires
        goal.intervening_chords <= MAX_INTERVENING_CHORDS,
    ensures
        0 <= evidence_sum(resolution_evidence(goal, t)) <= 83,
{
    let e = resolution_evidence(goal, t);
    reveal_with_fuel(evidence_sum, 3);
    if e.len() == 2 {
        assert(e.drop_last().drop_last() =~= Seq::<EvidenceView>::empty());
    } else if e.len() == 1 {
        assert(e.drop_last() =~= Seq::<EvidenceView>::empty());
    }
}

proof fn lemma_span_score_bound(p: usize, n: usize)
    requires
        n <= MAX_INTERVENING_CHORDS,
    ensures
        0 <= evidence_sum(span_evidence(p, n)) <= 35,
{
    reveal_with_fuel(evidence_sum, 2);
    let e = span_evidence(p, n);
    if e.len() == 1 {
        assert(e.drop_last() =~= Seq::<EvidenceView>::empty());
    }
}

fn apply_goal(run: &mut MemoryRun, sel: &KeyedPathSelection, chord: &ParsedChord, idx: usize) -> (opened: Option<usize>)
    requires
        old(run).pending@.len() <= MAX_PENDING_DEPTH,
    ensures
        (final(run)@, opened) == after_goal(old(run)@, *sel, *chord, idx),
{
    let (t, rel) = match dominant_goal(sel, chord) {
        Some(g) => g,
        None => {
            return None;
        },
    };
    let ghost st = run@;
    let prep = match run.predominant {
        Some(p) => if same_tonic(p.target_key, t) {
            run.predominant = None;
            Some(p)
        } else {
            None
        },
        None => None,
    };
    let n = run.pending.len();
    let found: Option<usize> = if n >= 2 && same_tonic(run.pending[1].target_key, t) {
        Some(1)
    } else if n >= 1 && same_tonic(run.pending[0].target_key, t) {
        Some(0)
    } else {
        None
    };
    proof {
        reveal_with_fuel(last_same_tonic, 3);
        if n == 2 {
            assert(st.pending.drop_last().drop_last() =~= Seq::<PendingResolution>::empty());
            assert(st.pending.drop_last().last() == st.pending[0]);
        } else if n == 1 {
            assert(st.pending.drop_last() =~= Seq::<PendingResolution>::empty());
        }
        assert(last_same_tonic(st.pending, t) == match found {
            Some(j) => Some(j as int),
            None => None::<int>,
        });
    }
    match found {
        Some(j) => {
            let g = run.pending[j];
            let mut g2 = g;
            if let Some(p) = prep {
                if g.predominant_event_index.is_none() {
                    g2.predominant_event_index = Some(p.source_event_index);
                    g2.predominant_intervening_chords = Some(p.intervening_chords);
                    if matches!(g.target_key.mode, TonalMode::Unknown) {
                        g2.target_key = TonalKey { mode: p.target_key.mode, ..g.target_key };
                    }
                }
            }
            g2.intervening_chords = 0;
            assert(g2 == enriched(g, prep));
            run.pending.set(j, g2);
            Some(g.source_event_index)
        },
        None => {
            let ghost before = evidence_views(run.evidence@);
            if run.pending.len() == MAX_PENDING_DEPTH {
                let forgotten = run.pending.remove(0);
                let mut why = String::from_str("The bounded tonicization stack drops the older ");
                why.append(&forgotten.target_key.to_string());
                why.append(" target opened at event ");
                why.append(&decimal_string(forgotten.source_event_index));
                run.evidence.push(ScoreEvidence::new(RULE_STACK_LIMIT, 0, why.as_str()));
                assert(run.pending@ =~= st.pending.drop_first());
                assert(evidence_views(run.evidence@) =~= before + seq![stack_note(st.pending[0])]);
            } else {
                assert(evidence_views(run.evidence@) =~= before + Seq::<EvidenceView>::empty());
            }
            let depth = run.pending.len() + 1;
            let target_key = if matches!(t.mode, TonalMode::Unknown) {
                match prep {
                    Some(p) => p.target_key,
                    None => t,
                }
            } else {
                t
            };
            run.pending.push(
                PendingResolution {
                    source_event_index: idx,
                    target_key,
                    relation: rel,
                    intervening_chords: 0,
                    depth,
                    predominant_event_index: match prep {
                        Some(p) => Some(p.source_event_index),
                        None => None,
                    },
                    predominant_intervening_chords: match prep {
                        Some(p) => Some(p.intervening_chords),
                        None => None,
                    },
                },
            );
            Some(idx)
        },
    }
}

fn age_and_expire(run: &mut MemoryRun, opened: Option<usize>, opened_pre: Option<usize>)
    requires
        old(run).pending@.len() <= MAX_PENDING_DEPTH,
        forall|k: int| 0 <= k < old(run).pending@.len() ==> (#[trigger] old(run).pending@[k]).intervening_chords <= MAX_INTERVENING_CHORDS,
        old(run).predominant matches Some(p) ==> p.intervening_chords <= MAX_INTERVENING_CHORDS,
        -1_000_000_000_000_000_000_000_000_000 <= old(run).score <= 1_000_000_000_000_000_000_000_000_000,
    ensures
        final(run)@ == after_expiry(after_aging(old(run)@, opened, opened_pre)),
        old(run).score - 24 <= final(run).score <= old(run).score,
{
    let ghost aged = aged_goals(old(run).pending@, opened);
    let n = run.pending.len();
    let mut kept: Vec<PendingResolution> = Vec::new();
    let ghost before = evidence_views(run.evidence@);
    let mut i: usize = 0;
    while i < n
        invariant
            i <= n == old(run).pending@.len() <= MAX_PENDING_DEPTH,
            run.pending@ == old(run).pending@,
            aged == aged_goals(old(run).pending@, opened),
            forall|k: int| 0 <= k < n ==> (#[trigger] old(run).pending@[k]).intervening_chords <= MAX_INTERVENING_CHORDS,
            kept@ == kept_goals(aged.take(i as int)),
            evidence_views(run.evidence@) == before + expired_notes(aged.take(i as int)),
            run.score == old(run).score - 12 * expired_notes(aged.take(i as int)).len(),
            -1_000_000_000_000_000_000_000_000_000 <= old(run).score <= 1_000_000_000_000_000_000_000_000_000,
            expired_notes(aged.take(i as int)).len() <= i,
            run.predominant == old(run).predominant,
            run.resolutions == old(run).resolutions,
            run.spans == old(run).spans,
            run.previous_event == old(run).previous_event,
            run.previous_active == old(run).previous_active,
            run.age == old(run).age,
        decreases n - i,
    {
        let mut g = run.pending[i];
        if Some(g.source_event_index) != opened {
            g.intervening_chords = g.intervening_chords + 1;
        }
        assert(g == aged[i as int]);
        assert(aged.take(i + 1).drop_last() =~= aged.take(i as int));
        assert(aged.take(i + 1).last() == g);
        if g.intervening_chords > MAX_INTERVENING_CHORDS {
            let mut why = String::from_str("The ");
            why.append(&g.target_key.to_string());
            why.append(" target opened at event ");
            why.append(&decimal_string(g.source_event_index));
            why.append(" did not arrive within the memory window");
            let ghost ev = evidence_views(run.evidence@);
            run.evidence.push(ScoreEvidence::new(RULE_EXPIRED, -12, why.as_str()));
            assert(evidence_views(run.evidence@) =~= ev.push(expired_note(g)));
            run.score = run.score - 12;
        } else {
            kept.push(g);
        }
        i = i + 1;
    }
    assert(aged.take(n as int) =~= aged);
    run.pending = kept;
    if let Some(p) = run.predominant {
        let mut q = p;
        if Some(p.source_event_index) != opened_pre {
            q.intervening_chords = p.intervening_chords + 1;
        }
        if q.intervening_chords > MAX_INTERVENING_CHORDS {
            run.predominant = None;
        } else {
            run.predominant = Some(q);
        }
    }
}

#[verifier::rlimit(60)]
fn chord_step(run: &mut MemoryRun, sel: &KeyedPathSelection, chord: &ParsedChord, idx: usize) -> (r: (Vec<usize>, Vec<usize>))
    requires
        goals_ok(old(run)@.pending),
        prep_ok(old(run)@.predominant),
        -1_000_000_000_000_000_000_000_000 <= old(run).score <= 1_000_000_000_000_000_000_000_000,
    ensures
        (final(run)@, r.0@, r.1@) == chord_memory(old(run)@, *sel, *chord, idx),
        goals_ok(final(run)@.pending),
        prep_ok(final(run)@.predominant),
        old(run).score - 24 <= final(run).score <= old(run).score + 118,
        final(run).age == old(run).age,
        final(run).previous_event == old(run).previous_event,
        final(run).previous_active == old(run).previous_active,
{
    proof {
        reveal(chord_memory);
    }
    let ghost s2 = run@;
    let (resolved, cadences) = apply_resolution(run, sel, chord, idx);
            let ghost s3 = run@;
            assert(goals_ok(s3.pending) && prep_ok(s3.predominant)) by {
                if s3.pending.len() < s2.pending.len() {
                    assert forall|k: int| 0 <= k < s3.pending.len() implies #[trigger] s3.pending[k] == s2.pending[k] by {}
                }
            }
            assert(s2.score <= s3.score <= s2.score + 118) by {
                if s3.pending.len() < s2.pending.len() {
                    let goal = s2.pending.last();
                    lemma_resolution_score_bound(goal, resolved_target(goal, *chord));
                    let res = resolution_of(goal, *chord, idx, deceptive_arrival(*sel, goal));
                    if let Some(sp) = span_of(res) {
                        lemma_span_score_bound(sp.predominant_event_index, sp.intervening_before_dominant);
                    }
                }
            }
            let opened = apply_goal(run, sel, chord, idx);
            let ghost s4 = run@;
            assert(goals_ok(s4.pending) && prep_ok(s4.predominant)) by {
                reveal_with_fuel(last_same_tonic, 3);
                if let Some((t, rel)) = dominant_goal_of(*sel, *chord) {
                    if s3.pending.len() == 2 {
                        assert(s3.pending.drop_last().drop_last() =~= Seq::<PendingResolution>::empty());
                    } else if s3.pending.len() == 1 {
                        assert(s3.pending.drop_last() =~= Seq::<PendingResolution>::empty());
                    }
                    assert forall|k: int| 0 <= k < s4.pending.len() implies (#[trigger] s4.pending[k]).intervening_chords
                        <= MAX_INTERVENING_CHORDS && (s4.pending[k].predominant_intervening_chords matches Some(n) ==> n
                        <= MAX_INTERVENING_CHORDS) by {
                        match last_same_tonic(s3.pending, t) {
                            Some(j) => {
                                if k != j {
                                    assert(s4.pending[k] == s3.pending[k]);
                                }
                            },
                            None => {
                                if s3.pending.len() == MAX_PENDING_DEPTH {
                                    if k == 0 {
                                        assert(s4.pending[0] == s3.pending[1]);
                                    }
                                } else if k < s3.pending.len() {
                                    assert(s4.pending[k] == s3.pending[k]);
                                }
                            },
                        }
                    }
                }
            }
            let opened_pre = match predominant_goal(sel, chord) {
                Some(t) => {
                    run.predominant = Some(
                        PendingPredominant { source_event_index: idx, target_key: t, intervening_chords: 0 },
                    );
                    Some(idx)
                },
                None => None,
            };
            let ghost s5 = run@;
            age_and_expire(run, opened, opened_pre);
    proof {
        lemma_kept_goals_ok(aged_goals(s5.pending, opened), s5.pending, opened);
    }
    (resolved, cadences)
}

fn remember_event(
    run: &mut MemoryRun,
    sel: KeyedPathSelection,
    progression: &[ProgressionItem],
    policy: NoChordPolicy,
    seen: usize,
) -> (r: KeyedPathSelection)
    requires
        memory_wf(old(run)@, seen as int),
        seen < usize::MAX,
        sel.selection.event_index < progression@.len(),
        old(run).previous_event matches Some(p) ==> p < sel.selection.event_index,
    ensures
        (final(run)@, memory_step(old(run)@, sel, progression@, policy).1) == memory_step(old(run)@, sel, progression@, policy),
        remembered(r, sel, memory_step(old(run)@, sel, progression@, policy).1),
        memory_wf(final(run)@, seen + 1),
        final(run).previous_event == Some(sel.selection.event_index),
        memory_step(old(run)@, sel, progression@, policy).1.is_chord ==> goals_ok(r.pending_resolutions@),
{
    let ghost st = run@;
    let mut sel = sel;
    let ghost original = sel;
    proof {
        reveal(memory_step);
    }
    let idx = sel.selection.event_index;
    apply_boundary(run, progression, idx, policy);
    let ghost s1 = run@;
    assert(goals_ok(s1.pending) && prep_ok(s1.predominant)) by {
        if s1.pending.len() == 0 {
        } else {
            assert(s1.pending == st.pending);
        }
    }
    assert(run.age == old(run).age);
    let age: usize = match run.previous_active {
        Some(k) => if same_key(k, sel.active_key) {
            run.age + 1
        } else {
            1
        },
        None => 1,
    };
    run.age = age;
    let ghost s2 = run@;
    assert(s1 == after_boundary(st, progression@, idx, policy));
    assert(s2 == MemoryState { age: age as int, ..s1 });
    assert(age as int == if s1.previous_active matches Some(k) && same_key_as(k, original.active_key) {
        s1.age + 1
    } else {
        1
    });
    match &progression[idx].symbol {
        ParsedSymbol::Chord(chord) => {
            let (resolved, cadences) = chord_step(run, &sel, chord, idx);
            assert((run@, resolved@, cadences@) == chord_memory(s2, original, *chord, idx));
            sel.pending_resolutions = copy_goals(&run.pending);
            sel.resolved_resolution_sources = resolved;
            sel.pending_predominant = run.predominant;
            sel.resolved_cadence_predominant_sources = cadences;
        },
        _ => {},
    }
    sel.key_region_age_chords = age;
    run.previous_event = Some(idx);
    run.previous_active = Some(sel.active_key);
    sel
}

proof fn lemma_kept_goals_ok(aged: Seq<PendingResolution>, before: Seq<PendingResolution>, opened: Option<usize>)
    requires
        goals_ok(before),
        aged == aged_goals(before, opened),
    ensures
        goals_ok(kept_goals(aged)),
{
    lemma_kept_members(aged);
    assert forall|k: int| 0 <= k < aged.len() implies (#[trigger] aged[k]).predominant_intervening_chords matches Some(n)
        ==> n <= MAX_INTERVENING_CHORDS by {
        assert(aged[k] == aged_goal(before[k], opened));
    }
}

proof fn lemma_kept_members(s: Seq<PendingResolution>)
    ensures
        kept_goals(s).len() <= s.len(),
        forall|k: int|
            0 <= k < kept_goals(s).len() ==> (#[trigger] kept_goals(s)[k]).intervening_chords <= MAX_INTERVENING_CHORDS
                && exists|j: int| 0 <= j < s.len() && s[j] == kept_goals(s)[k],
    decreases s.len(),
{
    if s.len() > 0 {
        lemma_kept_members(s.drop_last());
        let d = kept_goals(s.drop_last());
        assert forall|k: int| 0 <= k < kept_goals(s).len() implies (#[trigger] kept_goals(s)[k]).intervening_chords
            <= MAX_INTERVENING_CHORDS && exists|j: int| 0 <= j < s.len() && s[j] == kept_goals(s)[k] by {
            if k < d.len() {
                assert(kept_goals(s)[k] == d[k]);
                let j = choose|j: int| 0 <= j < s.drop_last().len() && s.drop_last()[j] == d[k];
                assert(s[j] == d[k]);
            } else {
                assert(kept_goals(s)[k] == s.last());
                assert(s[s.len() - 1] == s.last());
            }
        }
    }
}

/// Fill in every event's memory snapshot and rescore the complete path.
///
/// Along the path's events in order: a boundary clears unresolved goals;
/// the most recent goal resolves on its tonic (or deceptively); a dominant
/// opens or renews a goal, consuming a waiting preparation of the same
/// tonic and dropping the oldest goal from a full stack; a predominant
/// opens a preparation; goals and preparations then age and expire past
/// the memory window. The memory's score is added to the path's total and
/// its evidence appended to the path's. After every chord event at most two
/// goals remain pending, each heard within the window.
pub fn apply_harmonic_memory(progression: &[ProgressionItem], path: &mut KeyedAnalysisPath, no_chord_policy: NoChordPolicy)
    requires
        events_in_order(progression@, old(path).selections@),
        -1_000_000_000_000_000_000_000_000_000 <= old(path).total_score <= 1_000_000_000_000_000_000_000_000_000,
    ensures
        ({
            let (st, ms) = memory_run(progression@, old(path).selections@, no_chord_policy);
            &&& final(path).selections@.len() == old(path).selections@.len()
            &&& forall|k: int|
                0 <= k < old(path).selections@.len() ==> remembered(
                    #[trigger] final(path).selections@[k],
                    old(path).selections@[k],
                    ms[k],
                )
            &&& final(path).memory_score == st.score
            &&& final(path).harmonic_resolutions@.map_values(|r: HarmonicResolution| r@) == st.resolutions
            &&& final(path).cadential_spans@.map_values(|c: CadentialSpan| c@) == st.spans
            &&& final(path).total_score == old(path).total_score + st.score
            &&& evidence_views(final(path).evidence@) == evidence_views(old(path).evidence@) + st.evidence
            &&& forall|k: int|
                0 <= k < old(path).selections@.len() && ms[k].is_chord ==> goals_ok(
                    (#[trigger] final(path).selections@[k]).pending_resolutions@,
                )
        }),
        final(path).global_key == old(path).global_key,
        final(path).modulations == old(path).modulations,
        final(path).function_score == old(path).function_score,
        final(path).key_score == old(path).key_score,
        final(path).modulation_score == old(path).modulation_score,
{
    let mut run = MemoryRun {
        pending: Vec::new(),
        predominant: None,
        resolutions: Vec::new(),
        spans: Vec::new(),
        evidence: Vec::new(),
        score: 0,
        previous_event: None,
        previous_active: None,
        age: 0,
    };
    let mut rest: Vec<KeyedPathSelection> = Vec::new();
    std::mem::swap(&mut rest, &mut path.selections);
    let ghost sels = rest@;
    let ghost items = progression@;
    let total = rest.len();
    let mut out: Vec<KeyedPathSelection> = Vec::new();
    let mut i: usize = 0;
    assert(run@ == empty_memory()) by {
        assert(run@.pending =~= Seq::<PendingResolution>::empty());
        assert(run@.resolutions =~= Seq::<ResolutionView>::empty());
        assert(run@.spans =~= Seq::<SpanView>::empty());
        assert(run@.evidence =~= Seq::<EvidenceView>::empty());
    }
    assert(sels.take(0) =~= Seq::<KeyedPathSelection>::empty());
    assert(rest@ =~= sels.skip(0));
    while i < total
        invariant
            total == sels.len(),
            i <= total,
            items == progression@,
            events_in_order(items, sels),
            rest@ == sels.skip(i as int),
            out@.len() == i,
            run@ == memory_run(items, sels.take(i as int), no_chord_policy).0,
            memory_run(items, sels.take(i as int), no_chord_policy).1.len() == i,
            memory_wf(run@, i as int),
            i > 0 ==> run.previous_event == Some(sels[i - 1].selection.event_index),
            i == 0 ==> run.previous_event is None,
            -1_000_000_000_000_000_000_000_000_000 <= path.total_score <= 1_000_000_000_000_000_000_000_000_000,
            path.total_score == old(path).total_score,
            path.evidence == old(path).evidence,
            path.global_key == old(path).global_key,
            path.modulations == old(path).modulations,
            path.function_score == old(path).function_score,
            path.key_score == old(path).key_score,
            path.modulation_score == old(path).modulation_score,
            forall|k: int|
                0 <= k < i ==> remembered(
                    #[trigger] out@[k],
                    sels[k],
                    memory_run(items, sels.take(i as int), no_chord_policy).1[k],
                ),
            forall|k: int|
                0 <= k < i && memory_run(items, sels.take(i as int), no_chord_policy).1[k].is_chord ==> goals_ok(
                    (#[trigger] out@[k]).pending_resolutions@,
                ),
        decreases total - i,
    {
        let ghost st = run@;
        let ghost prefix = sels.take(i as int);
        assert(sels.take(i + 1).drop_last() =~= prefix);
        assert(sels.take(i + 1).last() == sels[i as int]);
        let sel = rest.remove(0);
        assert(sel == sels[i as int]);
        assert(rest@ =~= sels.skip(i + 1));
        proof {
            if i > 0 {
                assert(sels[i - 1].selection.event_index < sels[i as int].selection.event_index);
            }
            assert(sels[i as int].selection.event_index < items.len());
        }
        let ghost ms0 = memory_run(items, prefix, no_chord_policy).1;
        let ghost step = memory_step(st, sels[i as int], items, no_chord_policy);
        let sel = remember_event(&mut run, sel, progression, no_chord_policy, i);
        let ghost outs = out@;
        out.push(sel);
        proof {
            assert(memory_run(items, sels.take(i + 1), no_chord_policy) == (step.0, ms0.push(step.1)));
            assert forall|k: int| 0 <= k < i + 1 implies remembered(
                #[trigger] out@[k],
                sels[k],
                memory_run(items, sels.take(i + 1), no_chord_policy).1[k],
            ) by {
                if k < i {
                    assert(out@[k] == outs[k]);
                    assert(ms0.push(step.1)[k] == ms0[k]);
                }
            }
            assert forall|k: int|
                0 <= k < i + 1 && memory_run(items, sels.take(i + 1), no_chord_policy).1[k].is_chord implies goals_ok(
                (#[trigger] out@[k]).pending_resolutions@,
            ) by {
                if k < i {
                    assert(out@[k] == outs[k]);
                    assert(ms0.push(step.1)[k] == ms0[k]);
                }
            }
        }
        i = i + 1;
    }
    assert(sels.take(total as int) =~= sels);
    path.selections = out;
    path.memory_score = run.score;
    path.total_score = path.total_score + run.score;
    path.harmonic_resolutions = run.resolutions;
    path.cadential_spans = run.spans;
    let mut extra = run.evidence;
    let ghost before = path.evidence@;
    path.evidence.append(&mut extra);
    assert(evidence_views(path.evidence@) =~= evidence_views(before) + evidence_views(run.evidence@));
}

pub(crate) fn copy_goals(v: &Vec<PendingResolution>) -> (r: Vec<PendingResolution>)
    ensures
        r@ == v@,
{
    let mut r: Vec<PendingResolution> = Vec::new();
    let mut i: usize = 0;
    while i < v.len()
        invariant
            i <= v.len(),
            r@ == v@.take(i as int),
        decreases v.len() - i,
    {
        r.push(v[i]);
        assert(v@.take(i + 1) =~= v@.take(i as int).push(v@[i as int]));
        i = i + 1;
    }
    assert(v@.take(v.len() as int) =~= v@);
    r
}

} // verus!
