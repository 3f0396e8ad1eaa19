//! Selected modulations along a keyed path.
//!
//! A modulation span records where the active key changed, how the change
//! was prepared (pivot, dominant bridge, sequence or direct dominant), which
//! cadence confirmed the new key and how long the new key lasted.

use vstd::prelude::*;
use crate::analysis::blackadder::{dist, pc};
use crate::analysis::evidence::{duplicate_evidence, EvidenceView, ScoreEvidence};
use crate::analysis::harmony::{
    ClassificationView, HarmonicClassification, HarmonicRole, InterpretationFamily, TonalMode, TonalScope,
};
use crate::analysis::key::{
    chord_at, chord_of, diatonic_class, dominant_seventh_chord, ev, ev_views, evidence_total, expected_seventh,
    expected_sevenths, indexes_chords, infer_role, is_dominant_quality, key_text, role_in_key, scale_degree_for_distance,
    scale_degree_of, KeyedAnalysisPath, KeyedPathSelection, TonalKey, same_path, chord_segments, deep_view, segments_of,
    total_len, lemma_segments_len, lemma_segments_index_chords, lemma_total_len_step,
};
use crate::profile::NoChordPolicy;
use crate::analysis::memory::{CadentialSpan, HarmonicResolution};
use crate::speller::{degree_from_spelling, semitone_distance};
use crate::text::decimal_string;
use crate::domain::chord::{ParsedChord, ProgressionItem};
use crate::domain::note::note_text;
use crate::domain::degree::{degree_text, Degree};
use crate::domain::quality::QualityClass;
use crate::speller::spelled_degree;
use crate::text::decimal_text;

verus! {

#[derive(Clone, Copy, Debug, Eq, Hash, PartialEq, Structural)]
/// How the new key is entered.
pub enum ModulationMechanism {
    DiatonicPivot,
    ChromaticPivot,
    DominantBridge,
    DominantSequence,
    DirectDominant,
}

#[derive(Clone, Copy, Debug, Eq, Hash, PartialEq, Structural)]
/// What the pivot chord is in the old and in the new key.
pub enum PivotKind {
    DiatonicCommonChord,
    SecondaryCommonChord,
    BorrowedCommonChord,
    NeapolitanCommonChord,
    AugmentedSixthCommonChord,
}

#[derive(Clone, Copy, Debug, Eq, Hash, PartialEq, Structural)]
/// The cadence that confirms the new key.
pub enum ModulationCadence {
    Authentic,
    PredominantAuthentic,
}

#[derive(Clone, Debug, PartialEq)]
/// A chord heard in both the old and the new key.
pub struct PivotChord {
    pub event_index: usize,
    pub chord_symbol: String,
    pub kind: PivotKind,
    pub old_key: TonalKey,
    pub new_key: TonalKey,
    pub old_degree: Degree,
    pub new_degree: Degree,
    pub old_role: Option<HarmonicRole>,
    pub new_role: Option<HarmonicRole>,
}

#[derive(Clone, Debug, PartialEq)]
/// One selected change of the active key.
pub struct ModulationSpan {
    pub from_key: TonalKey,
    pub to_key: TonalKey,
    pub start_event_index: usize,
    pub dominant_event_index: usize,
    pub confirmation_event_index: usize,
    pub end_event_index: usize,
    pub duration_chords: usize,
    pub mechanism: ModulationMechanism,
    pub cadence: ModulationCadence,
    pub pivot: Option<PivotChord>,
    /// Score in hundredths of a point.
    pub score: i64,
    pub evidence: Vec<ScoreEvidence>,
}

/// Abstract form of a pivot chord.
pub struct PivotView {
    pub event_index: usize,
    pub chord_symbol: Seq<char>,
    pub kind: PivotKind,
    pub old_key: TonalKey,
    pub new_key: TonalKey,
    pub old_degree: Degree,
    pub new_degree: Degree,
    pub old_role: Option<HarmonicRole>,
    pub new_role: Option<HarmonicRole>,
}

impl View for PivotChord {
    type V = PivotView;

    open spec fn view(&self) -> PivotView {
        PivotView {
            event_index: self.event_index,
            chord_symbol: self.chord_symbol@,
            kind: self.kind,
            old_key: self.old_key,
            new_key: self.new_key,
            old_degree: self.old_degree,
            new_degree: self.new_degree,
            old_role: self.old_role,
            new_role: self.new_role,
        }
    }
}

/// Abstract form of a modulation span.
pub struct SpanView {
    pub from_key: TonalKey,
    pub to_key: TonalKey,
    pub start_event_index: usize,
    pub dominant_event_index: usize,
    pub confirmation_event_index: usize,
    pub end_event_index: usize,
    pub duration_chords: usize,
    pub mechanism: ModulationMechanism,
    pub cadence: ModulationCadence,
    pub pivot: Option<PivotView>,
    pub score: int,
    pub evidence: Seq<EvidenceView>,
}

pub open spec fn pivot_view(p: Option<PivotChord>) -> Option<PivotView> {
    match p {
        Some(q) => Some(q@),
        None => None,
    }
}

impl View for ModulationSpan {
    type V = SpanView;

    open spec fn view(&self) -> SpanView {
        SpanView {
            from_key: self.from_key,
            to_key: self.to_key,
            start_event_index: self.start_event_index,
            dominant_event_index: self.dominant_event_index,
            confirmation_event_index: self.confirmation_event_index,
            end_event_index: self.end_event_index,
            duration_chords: self.duration_chords,
            mechanism: self.mechanism,
            cadence: self.cadence,
            pivot: pivot_view(self.pivot),
            score: self.score as int,
            evidence: ev_views(self.evidence@),
        }
    }
}

/// A proposed span and the segment position where it starts.
pub struct SpanCandidate {
    pub span: ModulationSpan,
    pub start_index: usize,
}

pub struct CandidateView {
    pub span: SpanView,
    pub start_index: int,
}

impl View for SpanCandidate {
    type V = CandidateView;

    open spec fn view(&self) -> CandidateView {
        CandidateView { span: self.span@, start_index: self.start_index as int }
    }
}

/// The `i`-th chord of a segment of chord events.
pub open spec fn seg_chord(items: Seq<ProgressionItem>, seg: Seq<usize>, i: int) -> ParsedChord {
    chord_of(items[seg[i] as int]).unwrap()
}

/// Mode of a stable major or minor chord that is not a dominant seventh.
pub open spec fn cadence_mode(chord: ParsedChord) -> Option<TonalMode> {
    if dominant_seventh_chord(chord) {
        None
    } else if chord.quality_parsed.class == QualityClass::Major {
        Some(TonalMode::Major)
    } else if chord.quality_parsed.class == QualityClass::Minor {
        Some(TonalMode::Minor)
    } else {
        None
    }
}

pub open spec fn same_key_as(a: TonalKey, b: TonalKey) -> bool {
    pc(a.tonic) == pc(b.tonic) && a.mode == b.mode
}

/// A diatonic chord of `key`: its root on a scale degree, its triad the
/// degree's, and a written seventh one the degree allows.
pub open spec fn diatonic_in(chord: ParsedChord, key: TonalKey) -> bool {
    match scale_degree_of(dist(chord.root, key.tonic), key.mode) {
        Some(d) => diatonic_class(d, key.mode, chord.quality_parsed.class) && match chord.quality_parsed.seventh {
            Some(s) => expected_sevenths(d, key.mode, chord.quality_parsed.class).contains(s),
            None => true,
        },
        None => false,
    }
}

/// A ii or IV/iv of `key`.
pub open spec fn predominant_in(chord: ParsedChord, key: TonalKey) -> bool {
    let d = dist(chord.root, key.tonic);
    let c = chord.quality_parsed.class;
    (d == 2 && (c == QualityClass::Minor || c == QualityClass::Diminished || c == QualityClass::HalfDiminished)) || (d
        == 5 && (c == QualityClass::Major || c == QualityClass::Minor))
}

/// V7 -> I/i of `key` on the pair of chords.
pub open spec fn authentic_in(dominant: ParsedChord, tonic: ParsedChord, key: TonalKey) -> bool {
    dist(dominant.root, key.tonic) == 7 && dominant_seventh_chord(dominant) && dist(tonic.root, key.tonic) == 0
        && cadence_mode(tonic) == Some(key.mode)
}

/// The first position from `index` on where a V7-I/i of another key
/// completes; the candidate stops two chords before it.
pub open spec fn scoring_end_from(items: Seq<ProgressionItem>, seg: Seq<usize>, target: TonalKey, cadence_index: int, index: int) -> int
    decreases seg.len() - index,
{
    if index >= seg.len() {
        seg.len() - 1
    } else {
        let dominant = seg_chord(items, seg, index - 1);
        let tonic = seg_chord(items, seg, index);
        match cadence_mode(tonic) {
            Some(m) => {
                let k = TonalKey { tonic: tonic.root, mode: m };
                if dominant_seventh_chord(dominant) && dist(dominant.root, k.tonic) == 7 && !same_key_as(k, target) {
                    if index - 2 > cadence_index { index - 2 } else { cadence_index }
                } else {
                    scoring_end_from(items, seg, target, cadence_index, index + 1)
                }
            },
            None => scoring_end_from(items, seg, target, cadence_index, index + 1),
        }
    }
}

/// Start of the chain of fifth-related dominant sevenths ending at `start`.
pub open spec fn dominant_chain_start(items: Seq<ProgressionItem>, seg: Seq<usize>, start: int, lower_bound: int) -> int
    decreases start,
{
    if start <= lower_bound || start <= 0 {
        start
    } else {
        let previous = seg_chord(items, seg, start - 1);
        let current = seg_chord(items, seg, start);
        if !dominant_seventh_chord(previous) || dist(current.root, previous.root) != 5 {
            start
        } else {
            dominant_chain_start(items, seg, start - 1, lower_bound)
        }
    }
}

/// Chords at positions `[lo, hi)` diatonic in `key`.
pub open spec fn diatonic_count(items: Seq<ProgressionItem>, seg: Seq<usize>, key: TonalKey, lo: int, hi: int) -> int
    decreases hi - lo,
{
    if hi <= lo {
        0
    } else {
        diatonic_count(items, seg, key, lo, hi - 1) + if diatonic_in(seg_chord(items, seg, hi - 1), key) {
            1int
        } else {
            0int
        }
    }
}

/// V7-I/i pairs of `key` whose both chords lie in `[lo, hi)`.
pub open spec fn cadence_count(items: Seq<ProgressionItem>, seg: Seq<usize>, key: TonalKey, lo: int, hi: int) -> int
    decreases hi - lo,
{
    if hi - lo < 2 {
        0
    } else {
        cadence_count(items, seg, key, lo, hi - 1) + if authentic_in(
            seg_chord(items, seg, hi - 2),
            seg_chord(items, seg, hi - 1),
            key,
        ) {
            1int
        } else {
            0int
        }
    }
}

pub open spec fn family_step(result: Option<PivotKind>, f: InterpretationFamily) -> Option<PivotKind> {
    match f {
        InterpretationFamily::Neapolitan => Some(PivotKind::NeapolitanCommonChord),
        InterpretationFamily::AugmentedSixth => Some(PivotKind::AugmentedSixthCommonChord),
        InterpretationFamily::ModalInterchange | InterpretationFamily::SubdominantMinor => if result is Some {
            result
        } else {
            Some(PivotKind::BorrowedCommonChord)
        },
        InterpretationFamily::AppliedCadence | InterpretationFamily::AppliedLeadingTone
        | InterpretationFamily::RootlessDominantNinth => if result is Some {
            result
        } else {
            Some(PivotKind::SecondaryCommonChord)
        },
        _ => result,
    }
}

pub open spec fn families_fold(result: Option<PivotKind>, fs: Seq<InterpretationFamily>) -> Option<PivotKind>
    decreases fs.len(),
{
    if fs.len() == 0 {
        result
    } else {
        family_step(families_fold(result, fs.drop_last()), fs.last())
    }
}

pub open spec fn classifications_fold(cs: Seq<ClassificationView>) -> Option<PivotKind>
    decreases cs.len(),
{
    if cs.len() == 0 {
        None
    } else {
        families_fold(classifications_fold(cs.drop_last()), cs.last().families)
    }
}

/// The first selection of event `e`.
pub open spec fn selection_at(sels: Seq<KeyedPathSelection>, e: usize) -> Option<KeyedPathSelection>
    decreases sels.len(),
{
    if sels.len() == 0 {
        None
    } else if sels[0].selection.event_index == e {
        Some(sels[0])
    } else {
        selection_at(sels.drop_first(), e)
    }
}

/// Pivot kind named by the families the path selected at event `e`, the
/// later family overriding only where it is more specific.
pub open spec fn selected_pivot_kind(sels: Seq<KeyedPathSelection>, e: usize) -> Option<PivotKind> {
    match selection_at(sels, e) {
        Some(s) => classifications_fold(s.selection.harmonic_classifications@.map_values(|c: HarmonicClassification| c@)),
        None => None,
    }
}

/// Pivot kind read from the chord itself: Neapolitan major on the raised
/// tonic, borrowed from the parallel mode, or applied dominant/diminished.
pub open spec fn inferred_pivot_kind(chord: ParsedChord, from: TonalKey) -> Option<PivotKind> {
    if dist(chord.root, from.tonic) == 1 && chord.quality_parsed.class == QualityClass::Major {
        Some(PivotKind::NeapolitanCommonChord)
    } else if from.mode == TonalMode::Unknown {
        None
    } else if diatonic_in(
        chord,
        TonalKey { mode: if from.mode == TonalMode::Major { TonalMode::Minor } else { TonalMode::Major }, ..from },
    ) {
        Some(PivotKind::BorrowedCommonChord)
    } else if dominant_seventh_chord(chord) || chord.quality_parsed.class == QualityClass::Diminished
        || chord.quality_parsed.class == QualityClass::HalfDiminished {
        Some(PivotKind::SecondaryCommonChord)
    } else {
        None
    }
}

pub open spec fn pivot_kind_at(
    items: Seq<ProgressionItem>,
    seg: Seq<usize>,
    sels: Seq<KeyedPathSelection>,
    global: TonalKey,
    from: TonalKey,
    target: TonalKey,
    index: int,
) -> Option<PivotKind> {
    let c = seg_chord(items, seg, index);
    if diatonic_in(c, from) && diatonic_in(c, target) {
        Some(PivotKind::DiatonicCommonChord)
    } else if diatonic_in(c, target) {
        let selected = if same_key_as(from, global) {
            selected_pivot_kind(sels, seg[index])
        } else {
            None
        };
        if selected is Some {
            selected
        } else {
            inferred_pivot_kind(c, from)
        }
    } else {
        None
    }
}

/// Search for the pivot downward from `index` to `lower_bound`; a chord
/// after the candidate that is neither diatonic in the target nor a
/// dominant seventh ends the search.
pub open spec fn pivot_search(
    items: Seq<ProgressionItem>,
    seg: Seq<usize>,
    sels: Seq<KeyedPathSelection>,
    global: TonalKey,
    dominant_index: int,
    from: TonalKey,
    target: TonalKey,
    lower_bound: int,
    index: int,
) -> Option<(int, PivotKind)>
    decreases index + 1,
{
    if index < lower_bound || index < 0 {
        None
    } else if index + 1 < dominant_index && !diatonic_in(seg_chord(items, seg, index + 1), target)
        && !dominant_seventh_chord(seg_chord(items, seg, index + 1)) {
        None
    } else {
        match pivot_kind_at(items, seg, sels, global, from, target, index) {
            Some(k) => Some((index, k)),
            None => pivot_search(items, seg, sels, global, dominant_index, from, target, lower_bound, index - 1),
        }
    }
}

pub open spec fn pivot_of(items: Seq<ProgressionItem>, seg: Seq<usize>, index: int, kind: PivotKind, from: TonalKey, target: TonalKey) -> PivotView {
    let c = seg_chord(items, seg, index);
    PivotView {
        event_index: seg[index],
        chord_symbol: c.original_symbol@,
        kind,
        old_key: from,
        new_key: target,
        old_degree: spelled_degree(c.root, from.tonic),
        new_degree: spelled_degree(c.root, target.tonic),
        old_role: role_in_key(c, from),
        new_role: role_in_key(c, target),
    }
}

/// The item is a stable tonic chord of `from`.
pub open spec fn states_tonic(item: ProgressionItem, from: TonalKey) -> bool {
    match chord_of(item) {
        Some(c) => dist(c.root, from.tonic) == 0 && cadence_mode(c) == Some(from.mode),
        None => false,
    }
}

/// A stable tonic of `from` is stated at some event up to `last`.
pub open spec fn tonic_stated(items: Seq<ProgressionItem>, from: TonalKey, last: int) -> bool {
    exists|k: int| 0 <= k <= last && k < items.len() && #[trigger] states_tonic(items[k], from)
}

pub open spec fn max_int(a: int, b: int) -> int {
    if a >= b { a } else { b }
}

/// Opening evidence of a key change: its cost and its confirming cadence,
/// with a predominant that prepares the cadence.
pub open spec fn opening_evidence(
    items: Seq<ProgressionItem>,
    seg: Seq<usize>,
    global: TonalKey,
    from: TonalKey,
    target: TonalKey,
    cadence_index: int,
    cadence: ModulationCadence,
) -> Seq<EvidenceView> {
    let kt = key_text(target);
    let dominant = seg_chord(items, seg, cadence_index - 1);
    let tonic = seg_chord(items, seg, cadence_index);
    seq![
        ev("builtin.modulation.key_change_complexity"@, if same_key_as(target, global) { -180 } else { -240 },
            "Changing active key from "@ + key_text(from) + " to "@ + kt + " pays a complexity cost"@),
        ev("builtin.modulation.authentic_confirmation"@, 170, dominant.original_symbol@ + " -> "@
            + tonic.original_symbol@ + " confirms V7-I/i in "@ + kt),
    ] + if cadence == ModulationCadence::PredominantAuthentic {
        seq![ev("builtin.modulation.predominant_prefix"@, 105, "A target-key predominant precedes V7-I/i in "@ + kt)]
    } else {
        Seq::empty()
    }
}

/// Evidence of how the key change happens: the pivot and its roles, or a
/// dominant bridge, sequence or bare dominant.
pub open spec fn mechanism_evidence(mechanism: ModulationMechanism, pivot: Option<PivotView>) -> Seq<EvidenceView> {
    match pivot {
        Some(p) => seq![ev("builtin.modulation.pivot"@, if p.kind == PivotKind::DiatonicCommonChord { 90 } else { 65 },
            p.chord_symbol + " is reinterpreted from "@ + degree_text(p.old_degree) + " in "@ + key_text(p.old_key)
            + " to "@ + degree_text(p.new_degree) + " in "@ + key_text(p.new_key))] + if p.old_role == Some(
            HarmonicRole::Tonic,
        ) && (p.new_role == Some(HarmonicRole::Predominant) || p.new_role == Some(HarmonicRole::Subdominant)) {
            seq![ev("builtin.modulation.smooth_pivot_roles"@, 50,
                "The pivot changes from tonic-prolonging to predominant/subdominant function"@)]
        } else {
            Seq::empty()
        },
        None => match mechanism {
            ModulationMechanism::DominantBridge => seq![ev("builtin.modulation.dominant_bridge"@, 45,
                "An old-context dominant is followed by the new key's dominant"@)],
            ModulationMechanism::DominantSequence => seq![ev("builtin.modulation.dominant_sequence"@, 70,
                "A fifth-related dominant chain reaches the new key's V7-I/i"@)],
            ModulationMechanism::DirectDominant => seq![ev("builtin.modulation.short_direct_penalty"@, -60,
                "A bare target V7-I/i can still be only a tonicization"@)],
            _ => Seq::empty(),
        },
    }
}

/// Evidence from the chords around the cadence: support for the new key
/// (beyond two chords, at most four, `0.35` each), persistence after the
/// cadence, how established the old key was, whether its tonic was ever
/// stated, and later cadences in the new key (`0.65` each).
pub open spec fn support_evidence(
    from: TonalKey,
    target: TonalKey,
    target_support: int,
    persistence: int,
    prior: int,
    stated: bool,
    repeated: int,
) -> Seq<EvidenceView> {
    let kf = key_text(from);
    let kt = key_text(target);
    let contextual = if target_support - 2 > 4 { 4 } else if target_support - 2 > 0 { target_support - 2 } else { 0 };
    (if contextual > 0 {
        seq![ev("builtin.modulation.target_key_persistence"@, 35 * contextual, decimal_text(contextual as nat)
            + " additional chord(s) support "@ + kt + " around the cadence"@)]
    } else {
        Seq::empty()
    }) + (if persistence >= 2 {
        seq![ev("builtin.modulation.post_cadential_persistence"@, 60, "Harmony remains in "@ + kt
            + " after its confirming cadence"@)]
    } else {
        Seq::empty()
    }) + (if prior >= 2 {
        seq![ev("builtin.modulation.departure_from_established_key"@, 35, "The progression establishes "@ + kf
            + " before departing"@)]
    } else if prior == 0 {
        seq![ev("builtin.modulation.unestablished_departure"@, -75,
            "No earlier active-key context precedes the proposed modulation"@)]
    } else {
        Seq::empty()
    }) + (if !stated {
        seq![ev("builtin.modulation.unstated_departure_key"@, -150, "No stable tonic chord has stated "@ + kf
            + " before the proposed departure"@)]
    } else {
        Seq::empty()
    }) + (if repeated > 0 {
        seq![ev("builtin.modulation.repeated_confirmation"@, 65 * repeated, decimal_text(repeated as nat)
            + " later authentic cadence(s) reinforce "@ + kt)]
    } else {
        Seq::empty()
    })
}

pub open spec fn span_evidence(
    items: Seq<ProgressionItem>,
    seg: Seq<usize>,
    global: TonalKey,
    from: TonalKey,
    target: TonalKey,
    cadence_index: int,
    cadence: ModulationCadence,
    mechanism: ModulationMechanism,
    pivot: Option<PivotView>,
    target_support: int,
    persistence: int,
    prior: int,
    stated: bool,
    repeated: int,
) -> Seq<EvidenceView> {
    opening_evidence(items, seg, global, from, target, cadence_index, cadence) + mechanism_evidence(mechanism, pivot)
        + support_evidence(from, target, target_support, persistence, prior, stated, repeated)
}

/// What a proposed span rests on.
pub struct FactsView {
    pub cadence: ModulationCadence,
    pub mechanism: ModulationMechanism,
    pub pivot: Option<PivotView>,
    pub start: int,
    pub target_support: int,
    pub persistence: int,
    pub prior: int,
    pub stated: bool,
    pub repeated: int,
}

/// Where a span into `target` confirmed at `cadence_index` starts (a
/// dominant bridge or sequence, a pivot at most five chords back, or the
/// dominant itself), how it is confirmed, and how much the chords around it
/// support either key.
pub open spec fn span_facts(
    items: Seq<ProgressionItem>,
    seg: Seq<usize>,
    sels: Seq<KeyedPathSelection>,
    global: TonalKey,
    from: TonalKey,
    target: TonalKey,
    cadence_index: int,
    earliest: int,
) -> FactsView {
    let di = cadence_index - 1;
    let end = scoring_end_from(items, seg, target, cadence_index, cadence_index + 2);
    let cadence = if di > 0 && predominant_in(seg_chord(items, seg, di - 1), target) {
        ModulationCadence::PredominantAuthentic
    } else {
        ModulationCadence::Authentic
    };
    let chain = dominant_chain_start(items, seg, di, earliest);
    let bridge = di > earliest && dominant_seventh_chord(seg_chord(items, seg, di - 1));
    let found = pivot_search(items, seg, sels, global, di, from, target, max_int(di - 5, earliest), di - 1);
    let mechanism = if bridge {
        if chain < di {
            ModulationMechanism::DominantSequence
        } else {
            ModulationMechanism::DominantBridge
        }
    } else {
        match found {
            Some((_, k)) => if k == PivotKind::DiatonicCommonChord {
                ModulationMechanism::DiatonicPivot
            } else {
                ModulationMechanism::ChromaticPivot
            },
            None => ModulationMechanism::DirectDominant,
        }
    };
    let pivot = if bridge {
        None
    } else {
        match found {
            Some((i, k)) => Some(pivot_of(items, seg, i, k, from, target)),
            None => None,
        }
    };
    let start = if bridge {
        di - 1
    } else {
        match found {
            Some((i, _)) => i,
            None => di,
        }
    };
    FactsView {
        cadence,
        mechanism,
        pivot,
        start,
        target_support: diatonic_count(items, seg, target, start, end + 1),
        persistence: if cadence_index < end { diatonic_count(items, seg, target, cadence_index + 1, end + 1) } else { 0 },
        prior: diatonic_count(items, seg, from, max_int(earliest, start - 4), start),
        stated: tonic_stated(items, from, seg[start] as int),
        repeated: if cadence_index < end { cadence_count(items, seg, target, cadence_index + 1, end + 1) } else { 0 },
    }
}

/// The span a cadence proposes from `from` into `target`, with the facts of
/// `span_facts` and their evidence. The span ends provisionally at the
/// segment's last chord.
pub open spec fn span_candidate(
    items: Seq<ProgressionItem>,
    seg: Seq<usize>,
    sels: Seq<KeyedPathSelection>,
    global: TonalKey,
    from: TonalKey,
    target: TonalKey,
    cadence_index: int,
    earliest: int,
) -> CandidateView {
    let f = span_facts(items, seg, sels, global, from, target, cadence_index, earliest);
    let e = span_evidence(items, seg, global, from, target, cadence_index, f.cadence, f.mechanism, f.pivot,
        f.target_support, f.persistence, f.prior, f.stated, f.repeated);
    CandidateView {
        span: SpanView {
            from_key: from,
            to_key: target,
            start_event_index: seg[f.start],
            dominant_event_index: seg[cadence_index - 1],
            confirmation_event_index: seg[cadence_index],
            end_event_index: seg[seg.len() - 1],
            duration_chords: 0,
            mechanism: f.mechanism,
            cadence: f.cadence,
            pivot: f.pivot,
            score: evidence_total(e),
            evidence: e,
        },
        start_index: f.start,
    }
}

fn stable_tonic_mode(chord: &ParsedChord) -> (r: Option<TonalMode>)
    ensures
        r == cadence_mode(*chord),
{
    if is_dominant_quality(chord) {
        return None;
    }
    match chord.quality_parsed.class {
        QualityClass::Major => Some(TonalMode::Major),
        QualityClass::Minor => Some(TonalMode::Minor),
        _ => None,
    }
}

fn same_key(left: TonalKey, right: TonalKey) -> (r: bool)
    ensures
        r == same_key_as(left, right),
{
    left.tonic.pitch_class().value() == right.tonic.pitch_class().value() && left.mode == right.mode
}

fn is_diatonic_class(degree: usize, mode: TonalMode, class: QualityClass) -> (r: bool)
    ensures
        r == diatonic_class(degree as int, mode, class),
{
    let major = matches!(class, QualityClass::Major);
    let minor = matches!(class, QualityClass::Minor);
    let diminished = matches!(class, QualityClass::Diminished | QualityClass::HalfDiminished);
    match mode {
        TonalMode::Major => if degree == 0 || degree == 3 || degree == 4 {
            major
        } else if degree == 1 || degree == 2 || degree == 5 {
            minor
        } else if degree == 6 {
            diminished
        } else {
            false
        },
        TonalMode::Minor => if degree == 0 || degree == 3 {
            minor
        } else if degree == 1 {
            diminished
        } else if degree == 2 || degree == 5 || degree == 6 {
            major
        } else if degree == 4 {
            major || minor
        } else {
            false
        },
        TonalMode::Unknown => false,
    }
}

fn is_diatonic_chord(chord: &ParsedChord, key: TonalKey) -> (r: bool)
    ensures
        r == diatonic_in(*chord, key),
{
    let distance = semitone_distance(chord.root, key.tonic);
    let degree = match scale_degree_for_distance(distance, key.mode) {
        Some(d) => d,
        None => {
            return false;
        },
    };
    if !is_diatonic_class(degree, key.mode, chord.quality_parsed.class) {
        return false;
    }
    match chord.quality_parsed.seventh {
        None => true,
        Some(s) => {
            let allowed = expected_seventh(degree, key.mode, chord.quality_parsed.class);
            let mut i: usize = 0;
            while i < allowed.len()
                invariant
                    i <= allowed.len(),
                    allowed@ == expected_sevenths(degree as int, key.mode, chord.quality_parsed.class),
                    chord.quality_parsed.seventh == Some(s),
                    scale_degree_of(dist(chord.root, key.tonic), key.mode) == Some(degree as int),
                    diatonic_class(degree as int, key.mode, chord.quality_parsed.class),
                    forall|k: int| 0 <= k < i ==> allowed@[k] != s,
                decreases allowed.len() - i,
            {
                if allowed[i] == s {
                    assert(allowed@[i as int] == s);
                    return true;
                }
                i = i + 1;
            }
            false
        },
    }
}

fn is_predominant_for(chord: &ParsedChord, key: TonalKey) -> (r: bool)
    ensures
        r == predominant_in(*chord, key),
{
    let d = semitone_distance(chord.root, key.tonic);
    if d == 2 {
        matches!(chord.quality_parsed.class, QualityClass::Minor | QualityClass::Diminished | QualityClass::HalfDiminished)
    } else if d == 5 {
        matches!(chord.quality_parsed.class, QualityClass::Major | QualityClass::Minor)
    } else {
        false
    }
}

fn scoring_end_before_foreign_cadence(
    progression: &[ProgressionItem],
    seg: &Vec<usize>,
    cadence_index: usize,
    target_key: TonalKey,
) -> (r: usize)
    requires
        indexes_chords(progression@, seg@),
        0 < cadence_index < seg@.len() <= 0x7fff_ffff,
    ensures
        r == scoring_end_from(progression@, seg@, target_key, cadence_index as int, cadence_index + 2),
        cadence_index <= r < seg@.len(),
{
    let n = seg.len();
    let mut index: usize = cadence_index + 2;
    while index < n
        invariant
            indexes_chords(progression@, seg@),
            0 < cadence_index < n == seg@.len() <= 0x7fff_ffff,
            cadence_index + 2 <= index,
            scoring_end_from(progression@, seg@, target_key, cadence_index as int, cadence_index + 2)
                == scoring_end_from(progression@, seg@, target_key, cadence_index as int, index as int),
        decreases n - index,
    {
        let dominant = chord_at(progression, seg[index - 1]);
        let tonic = chord_at(progression, seg[index]);
        if let Some(mode) = stable_tonic_mode(tonic) {
            let cadence_key = TonalKey { tonic: tonic.root, mode };
            if is_dominant_quality(dominant) && semitone_distance(dominant.root, cadence_key.tonic) == 7 && !same_key(
                cadence_key,
                target_key,
            ) {
                return index - 2;
            }
        }
        index = index + 1;
    }
    n - 1
}

fn dominant_sequence_start(progression: &[ProgressionItem], seg: &Vec<usize>, dominant_index: usize, lower_bound: usize) -> (r:
    usize)
    requires
        indexes_chords(progression@, seg@),
        dominant_index < seg@.len(),
    ensures
        r == dominant_chain_start(progression@, seg@, dominant_index as int, lower_bound as int),
        r <= dominant_index,
{
    let mut start = dominant_index;
    while start > lower_bound
        invariant
            indexes_chords(progression@, seg@),
            start <= dominant_index < seg@.len(),
            dominant_chain_start(progression@, seg@, dominant_index as int, lower_bound as int) == dominant_chain_start(
                progression@,
                seg@,
                start as int,
                lower_bound as int,
            ),
        decreases start,
    {
        let previous = chord_at(progression, seg[start - 1]);
        let current = chord_at(progression, seg[start]);
        if !is_dominant_quality(previous) || semitone_distance(current.root, previous.root) != 5 {
            return start;
        }
        start = start - 1;
    }
    start
}

fn count_diatonic(progression: &[ProgressionItem], seg: &Vec<usize>, key: TonalKey, lo: usize, hi: usize) -> (r: usize)
    requires
        indexes_chords(progression@, seg@),
        lo <= hi <= seg@.len(),
    ensures
        r == diatonic_count(progression@, seg@, key, lo as int, hi as int),
        r <= hi - lo,
{
    let mut count: usize = 0;
    let mut i: usize = lo;
    while i < hi
        invariant
            indexes_chords(progression@, seg@),
            lo <= i <= hi <= seg@.len(),
            count == diatonic_count(progression@, seg@, key, lo as int, i as int),
            count <= i - lo,
        decreases hi - i,
    {
        if is_diatonic_chord(chord_at(progression, seg[i]), key) {
            count = count + 1;
        }
        i = i + 1;
    }
    count
}

fn count_authentic_cadences(progression: &[ProgressionItem], seg: &Vec<usize>, key: TonalKey, lo: usize, hi: usize) -> (r:
    usize)
    requires
        indexes_chords(progression@, seg@),
        lo <= hi <= seg@.len(),
    ensures
        r == cadence_count(progression@, seg@, key, lo as int, hi as int),
        r <= hi - lo,
{
    if hi - lo < 2 {
        return 0;
    }
    let mut count: usize = 0;
    let mut i: usize = lo;
    while i + 1 < hi
        invariant
            indexes_chords(progression@, seg@),
            lo <= i < hi <= seg@.len(),
            hi - lo >= 2,
            count == cadence_count(progression@, seg@, key, lo as int, i + 1),
            count <= i - lo,
        decreases hi - i,
    {
        let dominant = chord_at(progression, seg[i]);
        let tonic = chord_at(progression, seg[i + 1]);
        if semitone_distance(dominant.root, key.tonic) == 7 && is_dominant_quality(dominant) && semitone_distance(
            tonic.root,
            key.tonic,
        ) == 0 && stable_tonic_mode(tonic) == Some(key.mode) {
            count = count + 1;
        }
        i = i + 1;
    }
    count
}

fn fold_families(result: Option<PivotKind>, fs: &Vec<InterpretationFamily>) -> (r: Option<PivotKind>)
    ensures
        r == families_fold(result, fs@),
{
    let mut r = result;
    let mut i: usize = 0;
    assert(fs@.take(0) =~= Seq::<InterpretationFamily>::empty());
    while i < fs.len()
        invariant
            i <= fs.len(),
            r == families_fold(result, fs@.take(i as int)),
        decreases fs.len() - i,
    {
        assert(fs@.take(i + 1).drop_last() =~= fs@.take(i as int));
        r = match fs[i] {
            InterpretationFamily::Neapolitan => Some(PivotKind::NeapolitanCommonChord),
            InterpretationFamily::AugmentedSixth => Some(PivotKind::AugmentedSixthCommonChord),
            InterpretationFamily::ModalInterchange | InterpretationFamily::SubdominantMinor => if r.is_some() {
                r
            } else {
                Some(PivotKind::BorrowedCommonChord)
            },
            InterpretationFamily::AppliedCadence | InterpretationFamily::AppliedLeadingTone
            | InterpretationFamily::RootlessDominantNinth => if r.is_some() {
                r
            } else {
                Some(PivotKind::SecondaryCommonChord)
            },
            _ => r,
        };
        i = i + 1;
    }
    assert(fs@.take(fs.len() as int) =~= fs@);
    r
}

fn selection_pivot_kind(sel: &KeyedPathSelection) -> (r: Option<PivotKind>)
    ensures
        r == classifications_fold(sel.selection.harmonic_classifications@.map_values(|c: HarmonicClassification| c@)),
{
    let cs = &sel.selection.harmonic_classifications;
    let ghost views = cs@.map_values(|c: HarmonicClassification| c@);
    let mut r: Option<PivotKind> = None;
    let mut i: usize = 0;
    assert(views.take(0) =~= Seq::<ClassificationView>::empty());
    while i < cs.len()
        invariant
            i <= cs.len(),
            views == cs@.map_values(|c: HarmonicClassification| c@),
            r == classifications_fold(views.take(i as int)),
        decreases cs.len() - i,
    {
        assert(views.take(i + 1).drop_last() =~= views.take(i as int));
        assert(views.take(i + 1).last().families == cs@[i as int].families@);
        r = fold_families(r, &cs[i].families);
        i = i + 1;
    }
    assert(views.take(cs.len() as int) =~= views);
    r
}

fn chromatic_pivot_kind(path: &KeyedAnalysisPath, event_index: usize) -> (r: Option<PivotKind>)
    ensures
        r == selected_pivot_kind(path.selections@, event_index),
{
    let ghost sels = path.selections@;
    let mut j: usize = 0;
    assert(sels.skip(0) =~= sels);
    while j < path.selections.len()
        invariant
            j <= sels.len(),
            sels == path.selections@,
            selection_at(sels, event_index) == selection_at(sels.skip(j as int), event_index),
        decreases path.selections.len() - j,
    {
        assert(sels.skip(j as int).drop_first() =~= sels.skip(j + 1));
        assert(sels.skip(j as int)[0] == sels[j as int]);
        if path.selections[j].selection.event_index == event_index {
            return selection_pivot_kind(&path.selections[j]);
        }
        j = j + 1;
    }
    assert(sels.skip(j as int) =~= Seq::<KeyedPathSelection>::empty());
    None
}

fn infer_chromatic_pivot_kind(chord: &ParsedChord, from_key: TonalKey) -> (r: Option<PivotKind>)
    ensures
        r == inferred_pivot_kind(*chord, from_key),
{
    if semitone_distance(chord.root, from_key.tonic) == 1 && matches!(chord.quality_parsed.class, QualityClass::Major) {
        return Some(PivotKind::NeapolitanCommonChord);
    }
    let parallel = match from_key.mode {
        TonalMode::Major => TonalMode::Minor,
        TonalMode::Minor => TonalMode::Major,
        TonalMode::Unknown => {
            return None;
        },
    };
    if is_diatonic_chord(chord, TonalKey { mode: parallel, ..from_key }) {
        return Some(PivotKind::BorrowedCommonChord);
    }
    if is_dominant_quality(chord) || matches!(
        chord.quality_parsed.class,
        QualityClass::Diminished | QualityClass::HalfDiminished
    ) {
        return Some(PivotKind::SecondaryCommonChord);
    }
    None
}

fn find_pivot(
    progression: &[ProgressionItem],
    seg: &Vec<usize>,
    dominant_index: usize,
    path: &KeyedAnalysisPath,
    from_key: TonalKey,
    target_key: TonalKey,
    earliest_pivot: usize,
) -> (r: Option<(usize, PivotKind)>)
    requires
        indexes_chords(progression@, seg@),
        dominant_index < seg@.len(),
    ensures
        match pivot_search(
            progression@,
            seg@,
            path.selections@,
            path.global_key,
            dominant_index as int,
            from_key,
            target_key,
            max_int(dominant_index - 5, earliest_pivot as int),
            dominant_index - 1,
        ) {
            Some((i, k)) => r == Some((i as usize, k)) && earliest_pivot <= i < dominant_index,
            None => r is None,
        },
{
    let ghost lb = max_int(dominant_index - 5, earliest_pivot as int);
    let lower: usize = if dominant_index >= 5 && dominant_index - 5 > earliest_pivot {
        dominant_index - 5
    } else {
        earliest_pivot
    };
    assert(lower as int == lb);
    let mut index: usize = dominant_index;
    // `index` is one past the position examined next.
    while index > lower
        invariant
            indexes_chords(progression@, seg@),
            dominant_index < seg@.len(),
            lower as int == lb,
            lb == max_int(dominant_index - 5, earliest_pivot as int),
            lb >= earliest_pivot,
            index <= dominant_index,
            pivot_search(progression@, seg@, path.selections@, path.global_key, dominant_index as int, from_key,
                target_key, lb, dominant_index - 1) == pivot_search(progression@, seg@, path.selections@,
                path.global_key, dominant_index as int, from_key, target_key, lb, index - 1),
        decreases index,
    {
        let i = index - 1;
        if i + 1 < dominant_index {
            let next = chord_at(progression, seg[i + 1]);
            if !is_diatonic_chord(next, target_key) && !is_dominant_quality(next) {
                assert(pivot_search(progression@, seg@, path.selections@, path.global_key, dominant_index as int,
                    from_key, target_key, lb, i as int) is None);
                return None;
            }
        }
        let chord = chord_at(progression, seg[i]);
        let old_diatonic = is_diatonic_chord(chord, from_key);
        let new_diatonic = is_diatonic_chord(chord, target_key);
        let kind = if old_diatonic && new_diatonic {
            Some(PivotKind::DiatonicCommonChord)
        } else if new_diatonic {
            let selected = if same_key(from_key, path.global_key) {
                chromatic_pivot_kind(path, seg[i])
            } else {
                None
            };
            if selected.is_some() {
                selected
            } else {
                infer_chromatic_pivot_kind(chord, from_key)
            }
        } else {
            None
        };
        assert(kind == pivot_kind_at(progression@, seg@, path.selections@, path.global_key, from_key, target_key,
            i as int));
        if let Some(k) = kind {
            assert(pivot_search(progression@, seg@, path.selections@, path.global_key, dominant_index as int,
                from_key, target_key, lb, i as int) == Some((i as int, k)));
            assert(pivot_search(progression@, seg@, path.selections@, path.global_key, dominant_index as int,
                from_key, target_key, max_int(dominant_index - 5, earliest_pivot as int), dominant_index - 1) == Some((i as int, k)));
            assert(earliest_pivot <= i < dominant_index);
            return Some((i, k));
        }
        index = i;
    }
    None
}

fn from_key_tonic_stated(progression: &[ProgressionItem], from_key: TonalKey, last: usize) -> (r: bool)
    ensures
        r == tonic_stated(progression@, from_key, last as int),
{
    let mut k: usize = 0;
    while k < progression.len() && k <= last
        invariant
            k <= progression@.len(),
            k <= last + 1,
            forall|j: int| 0 <= j < k ==> !#[trigger] states_tonic(progression@[j], from_key),
        decreases progression.len() - k,
    {
        if let Some(chord) = progression[k].chord() {
            if semitone_distance(chord.root, from_key.tonic) == 0 && stable_tonic_mode(chord) == Some(from_key.mode) {
                assert(states_tonic(progression@[k as int], from_key));
                return true;
            }
        }
        assert(!states_tonic(progression@[k as int], from_key));
        k = k + 1;
    }
    false
}

fn add_score(score: &mut i64, evidence: &mut Vec<ScoreEvidence>, rule_id: &str, contribution: i64, explanation: String)
    requires
        *old(score) == evidence_total(ev_views(old(evidence)@)),
        -1_000_000_000_000_000 <= *old(score) <= 1_000_000_000_000_000,
        -1_000_000_000_000 <= contribution <= 1_000_000_000_000,
    ensures
        ev_views(final(evidence)@) == ev_views(old(evidence)@).push(ev(rule_id@, contribution as int, explanation@)),
        *final(score) == *old(score) + contribution,
        *final(score) == evidence_total(ev_views(final(evidence)@)),
{
    let ghost before = ev_views(evidence@);
    evidence.push(ScoreEvidence { rule_id: String::from_str(rule_id), contribution, explanation });
    *score = *score + contribution;
    assert(ev_views(evidence@) =~= before.push(ev(rule_id@, contribution as int, explanation@)));
    assert(ev_views(evidence@).drop_last() =~= before);
}

fn joined(a: &str, b: &str) -> (r: String)
    ensures
        r@ == a@ + b@,
{
    let mut r = String::from_str(a);
    r.append(b);
    r
}

struct SpanFacts {
    cadence: ModulationCadence,
    mechanism: ModulationMechanism,
    pivot: Option<PivotChord>,
    start_index: usize,
    target_support: usize,
    persistence: usize,
    prior: usize,
    stated: bool,
    repeated: usize,
}

#[verifier::rlimit(60)]
fn span_facts_of(
    seg: &Vec<usize>,
    cadence_index: usize,
    progression: &[ProgressionItem],
    path: &KeyedAnalysisPath,
    from_key: TonalKey,
    target_key: TonalKey,
    earliest_pivot: usize,
) -> (r: SpanFacts)
    requires
        indexes_chords(progression@, seg@),
        0 < cadence_index < seg@.len() <= 0x7fff_ffff,
        earliest_pivot < cadence_index,
    ensures
        ({
            let f = span_facts(progression@, seg@, path.selections@, path.global_key, from_key, target_key,
                cadence_index as int, earliest_pivot as int);
            &&& f.cadence == r.cadence
            &&& f.mechanism == r.mechanism
            &&& f.pivot == pivot_view(r.pivot)
            &&& f.start == r.start_index
            &&& f.target_support == r.target_support
            &&& f.persistence == r.persistence
            &&& f.prior == r.prior
            &&& f.stated == r.stated
            &&& f.repeated == r.repeated
        }),
        r.start_index <= cadence_index - 1,
        earliest_pivot <= r.start_index,
        r.repeated <= seg@.len(),
        r.target_support <= seg@.len(),
{
    let dominant_index = cadence_index - 1;
    let end = scoring_end_before_foreign_cadence(progression, seg, cadence_index, target_key);
    let cadence = if dominant_index > 0 && is_predominant_for(chord_at(progression, seg[dominant_index - 1]), target_key) {
        ModulationCadence::PredominantAuthentic
    } else {
        ModulationCadence::Authentic
    };
    let chain = dominant_sequence_start(progression, seg, dominant_index, earliest_pivot);
    let bridge = dominant_index > earliest_pivot && is_dominant_quality(chord_at(progression, seg[dominant_index - 1]));
    let found = if bridge {
        None
    } else {
        find_pivot(progression, seg, dominant_index, path, from_key, target_key, earliest_pivot)
    };
    let ghost spec_found = pivot_search(progression@, seg@, path.selections@, path.global_key, dominant_index as int,
        from_key, target_key, max_int(dominant_index - 5, earliest_pivot as int), dominant_index - 1);
    let (mechanism, pivot, start_index) = if bridge {
        let mechanism = if chain < dominant_index {
            ModulationMechanism::DominantSequence
        } else {
            ModulationMechanism::DominantBridge
        };
        (mechanism, None, dominant_index - 1)
    } else {
        match found {
            Some((pivot_index, kind)) => {
                let chord = chord_at(progression, seg[pivot_index]);
                let mechanism = if kind == PivotKind::DiatonicCommonChord {
                    ModulationMechanism::DiatonicPivot
                } else {
                    ModulationMechanism::ChromaticPivot
                };
                let pivot = PivotChord {
                    event_index: seg[pivot_index],
                    chord_symbol: chord.original_symbol.clone(),
                    kind,
                    old_key: from_key,
                    new_key: target_key,
                    old_degree: degree_from_spelling(chord.root, from_key.tonic),
                    new_degree: degree_from_spelling(chord.root, target_key.tonic),
                    old_role: infer_role(Some(chord), from_key),
                    new_role: infer_role(Some(chord), target_key),
                };
                (mechanism, Some(pivot), pivot_index)
            },
            None => (ModulationMechanism::DirectDominant, None, dominant_index),
        }
    };
    let ghost spec_pivot = pivot_view(pivot);
    proof {
        if !bridge {
            if let Some((pi, k)) = spec_found {
                assert(spec_pivot == Some(pivot_of(progression@, seg@, pi, k, from_key, target_key)));
            }
        }
    }
    let target_support = count_diatonic(progression, seg, target_key, start_index, end + 1);
    let persistence = if cadence_index < end {
        count_diatonic(progression, seg, target_key, cadence_index + 1, end + 1)
    } else {
        0
    };
    let prior_low = if start_index >= 4 && start_index - 4 > earliest_pivot {
        start_index - 4
    } else {
        earliest_pivot
    };
    let prior = count_diatonic(progression, seg, from_key, prior_low, start_index);
    let repeated = if cadence_index < end {
        count_authentic_cadences(progression, seg, target_key, cadence_index + 1, end + 1)
    } else {
        0
    };
    let stated = from_key_tonic_stated(progression, from_key, seg[start_index]);

    SpanFacts { cadence, mechanism, pivot, start_index, target_support, persistence, prior, stated, repeated }
}

fn add_opening_evidence(
    score: &mut i64,
    evidence: &mut Vec<ScoreEvidence>,
    seg: &Vec<usize>,
    progression: &[ProgressionItem],
    global_key: TonalKey,
    from_key: TonalKey,
    target_key: TonalKey,
    cadence_index: usize,
    cadence: ModulationCadence,
)
    requires
        indexes_chords(progression@, seg@),
        0 < cadence_index < seg@.len(),
        *old(score) == evidence_total(ev_views(old(evidence)@)),
        -1_000_000_000_000 <= *old(score) <= 1_000_000_000_000,
    ensures
        ev_views(final(evidence)@) == ev_views(old(evidence)@) + opening_evidence(progression@, seg@, global_key, from_key,
            target_key, cadence_index as int, cadence),
        *final(score) == evidence_total(ev_views(final(evidence)@)),
        *old(score) - 1000 <= *final(score) <= *old(score) + 1000,
{
    let ghost before = ev_views(evidence@);
    let dominant = chord_at(progression, seg[cadence_index - 1]);
    let tonic = chord_at(progression, seg[cadence_index]);
    let kt = target_key.to_string();
    let mut why = joined("Changing active key from ", from_key.to_string().as_str());
    why.append(" to ");
    why.append(kt.as_str());
    why.append(" pays a complexity cost");
    add_score(score, evidence, "builtin.modulation.key_change_complexity", if same_key(target_key, global_key) {
        -180
    } else {
        -240
    }, why);
    let mut why = joined(dominant.original_symbol.as_str(), " -> ");
    why.append(tonic.original_symbol.as_str());
    why.append(" confirms V7-I/i in ");
    why.append(kt.as_str());
    add_score(score, evidence, "builtin.modulation.authentic_confirmation", 170, why);
    if cadence == ModulationCadence::PredominantAuthentic {
        let why = joined("A target-key predominant precedes V7-I/i in ", kt.as_str());
        add_score(score, evidence, "builtin.modulation.predominant_prefix", 105, why);
    }
    assert(ev_views(evidence@) =~= before + opening_evidence(progression@, seg@, global_key, from_key, target_key,
        cadence_index as int, cadence));
}

fn add_mechanism_evidence(
    score: &mut i64,
    evidence: &mut Vec<ScoreEvidence>,
    mechanism: ModulationMechanism,
    pivot: &Option<PivotChord>,
)
    requires
        *old(score) == evidence_total(ev_views(old(evidence)@)),
        -1_000_000_000_000 <= *old(score) <= 1_000_000_000_000,
    ensures
        ev_views(final(evidence)@) == ev_views(old(evidence)@) + mechanism_evidence(mechanism, pivot_view(*pivot)),
        *final(score) == evidence_total(ev_views(final(evidence)@)),
        *old(score) - 1000 <= *final(score) <= *old(score) + 1000,
{
    let ghost before = ev_views(evidence@);
    match pivot {
        Some(p) => {
            let mut why = p.chord_symbol.clone();
            why.append(" is reinterpreted from ");
            why.append(p.old_degree.to_string().as_str());
            why.append(" in ");
            why.append(p.old_key.to_string().as_str());
            why.append(" to ");
            why.append(p.new_degree.to_string().as_str());
            why.append(" in ");
            why.append(p.new_key.to_string().as_str());
            add_score(score, evidence, "builtin.modulation.pivot", if p.kind == PivotKind::DiatonicCommonChord {
                90
            } else {
                65
            }, why);
            if p.old_role == Some(HarmonicRole::Tonic) && (p.new_role == Some(HarmonicRole::Predominant) || p.new_role
                == Some(HarmonicRole::Subdominant)) {
                add_score(score, evidence, "builtin.modulation.smooth_pivot_roles", 50, String::from_str(
                    "The pivot changes from tonic-prolonging to predominant/subdominant function",
                ));
            }
        },
        None => match mechanism {
            ModulationMechanism::DominantBridge => add_score(score, evidence, "builtin.modulation.dominant_bridge", 45,
                String::from_str("An old-context dominant is followed by the new key's dominant")),
            ModulationMechanism::DominantSequence => add_score(score, evidence, "builtin.modulation.dominant_sequence",
                70, String::from_str("A fifth-related dominant chain reaches the new key's V7-I/i")),
            ModulationMechanism::DirectDominant => add_score(score, evidence,
                "builtin.modulation.short_direct_penalty", -60, String::from_str(
                "A bare target V7-I/i can still be only a tonicization",
            )),
            _ => {},
        },
    }
    assert(ev_views(evidence@) =~= before + mechanism_evidence(mechanism, pivot_view(*pivot)));
}

#[verifier::rlimit(80)]
fn add_support_evidence(
    score: &mut i64,
    evidence: &mut Vec<ScoreEvidence>,
    from_key: TonalKey,
    target_key: TonalKey,
    target_support: usize,
    persistence: usize,
    prior: usize,
    stated: bool,
    repeated: usize,
)
    requires
        *old(score) == evidence_total(ev_views(old(evidence)@)),
        -1_000_000_000_000 <= *old(score) <= 1_000_000_000_000,
        repeated <= 0x7fff_ffff,
    ensures
        ev_views(final(evidence)@) == ev_views(old(evidence)@) + support_evidence(from_key, target_key,
            target_support as int, persistence as int, prior as int, stated, repeated as int),
        *final(score) == evidence_total(ev_views(final(evidence)@)),
        *old(score) - 1000 <= *final(score) <= *old(score) + 1000 + 65 * repeated,
{
    let ghost before = ev_views(evidence@);
    let kt = target_key.to_string();
    let contextual: usize = if target_support >= 6 {
        4
    } else if target_support > 2 {
        target_support - 2
    } else {
        0
    };
    if contextual > 0 {
        let mut why = decimal_string(contextual);
        why.append(" additional chord(s) support ");
        why.append(kt.as_str());
        why.append(" around the cadence");
        add_score(score, evidence, "builtin.modulation.target_key_persistence", 35 * contextual as i64, why);
    }
    let ghost p1 = ev_views(evidence@);
    if persistence >= 2 {
        let mut why = joined("Harmony remains in ", kt.as_str());
        why.append(" after its confirming cadence");
        add_score(score, evidence, "builtin.modulation.post_cadential_persistence", 60, why);
    }
    let ghost p2 = ev_views(evidence@);
    if prior >= 2 {
        let mut why = joined("The progression establishes ", from_key.to_string().as_str());
        why.append(" before departing");
        add_score(score, evidence, "builtin.modulation.departure_from_established_key", 35, why);
    } else if prior == 0 {
        add_score(score, evidence, "builtin.modulation.unestablished_departure", -75, String::from_str(
            "No earlier active-key context precedes the proposed modulation",
        ));
    }
    let ghost p3 = ev_views(evidence@);
    if !stated {
        let mut why = joined("No stable tonic chord has stated ", from_key.to_string().as_str());
        why.append(" before the proposed departure");
        add_score(score, evidence, "builtin.modulation.unstated_departure_key", -150, why);
    }
    let ghost p4 = ev_views(evidence@);
    if repeated > 0 {
        let mut why = decimal_string(repeated);
        why.append(" later authentic cadence(s) reinforce ");
        why.append(kt.as_str());
        add_score(score, evidence, "builtin.modulation.repeated_confirmation", 65 * repeated as i64, why);
    }
    assert(ev_views(evidence@) =~= before + support_evidence(from_key, target_key, target_support as int,
        persistence as int, prior as int, stated, repeated as int));
}

/// The span a cadence at `cadence_index` proposes from `from_key` into
/// `target_key`, searching for a pivot no earlier than `earliest_pivot`.
pub fn build_span_candidate(
    seg: &Vec<usize>,
    cadence_index: usize,
    progression: &[ProgressionItem],
    path: &KeyedAnalysisPath,
    from_key: TonalKey,
    target_key: TonalKey,
    earliest_pivot: usize,
) -> (r: SpanCandidate)
    requires
        indexes_chords(progression@, seg@),
        0 < cadence_index < seg@.len() <= 0x7fff_ffff,
        earliest_pivot < cadence_index,
    ensures
        r@ == span_candidate(progression@, seg@, path.selections@, path.global_key, from_key, target_key,
            cadence_index as int, earliest_pivot as int),
        r.start_index <= cadence_index - 1,
        earliest_pivot <= r.start_index,
        -3000 <= r.span.score <= 3000 + 65 * seg@.len(),
{
    let f = span_facts_of(seg, cadence_index, progression, path, from_key, target_key, earliest_pivot);
    let mut score: i64 = 0;
    let mut evidence: Vec<ScoreEvidence> = Vec::new();
    assert(ev_views(evidence@) =~= Seq::<EvidenceView>::empty());
    add_opening_evidence(&mut score, &mut evidence, seg, progression, path.global_key, from_key, target_key,
        cadence_index, f.cadence);
    add_mechanism_evidence(&mut score, &mut evidence, f.mechanism, &f.pivot);
    add_support_evidence(&mut score, &mut evidence, from_key, target_key, f.target_support, f.persistence, f.prior,
        f.stated, f.repeated);
    assert(ev_views(evidence@) =~= span_evidence(progression@, seg@, path.global_key, from_key, target_key,
        cadence_index as int, f.cadence, f.mechanism, pivot_view(f.pivot), f.target_support as int,
        f.persistence as int, f.prior as int, f.stated, f.repeated as int));
    let start_index = f.start_index;
    SpanCandidate {
        start_index,
        span: ModulationSpan {
            from_key,
            to_key: target_key,
            start_event_index: seg[start_index],
            dominant_event_index: seg[cadence_index - 1],
            confirmation_event_index: seg[cadence_index],
            end_event_index: seg[seg.len() - 1],
            duration_chords: 0,
            mechanism: f.mechanism,
            cadence: f.cadence,
            pivot: f.pivot,
            score,
            evidence,
        },
    }
}

pub open spec fn mode_id(mode: TonalMode) -> Seq<char> {
    match mode {
        TonalMode::Major => "major"@,
        TonalMode::Minor => "minor"@,
        TonalMode::Unknown => "unknown"@,
    }
}

pub open spec fn mechanism_id(mechanism: ModulationMechanism) -> Seq<char> {
    match mechanism {
        ModulationMechanism::DiatonicPivot => "diatonic-pivot"@,
        ModulationMechanism::ChromaticPivot => "chromatic-pivot"@,
        ModulationMechanism::DominantBridge => "dominant-bridge"@,
        ModulationMechanism::DominantSequence => "dominant-sequence"@,
        ModulationMechanism::DirectDominant => "direct-dominant"@,
    }
}

fn mode_name(mode: TonalMode) -> (r: &'static str)
    ensures
        r@ == mode_id(mode),
{
    match mode {
        TonalMode::Major => "major",
        TonalMode::Minor => "minor",
        TonalMode::Unknown => "unknown",
    }
}

fn mechanism_name(mechanism: ModulationMechanism) -> (r: &'static str)
    ensures
        r@ == mechanism_id(mechanism),
{
    match mechanism {
        ModulationMechanism::DiatonicPivot => "diatonic-pivot",
        ModulationMechanism::ChromaticPivot => "chromatic-pivot",
        ModulationMechanism::DominantBridge => "dominant-bridge",
        ModulationMechanism::DominantSequence => "dominant-sequence",
        ModulationMechanism::DirectDominant => "direct-dominant",
    }
}

/// Suffix naming the tonal state a selection belongs to after a modulation,
/// so that otherwise identical function prefixes stay separate branches.
pub open spec fn state_suffix(span: SpanView) -> Seq<char> {
    "@mod:"@ + note_text(span.to_key.tonic) + ":"@ + mode_id(span.to_key.mode) + ":"@ + mechanism_id(span.mechanism)
}

/// A selection inside the span is heard again from the new key when it was
/// global, heard from the old tonic, or a tonicization of the new tonic.
pub open spec fn reprojected(old: KeyedPathSelection, span: SpanView) -> bool {
    old.scope == TonalScope::Global || pc(old.local_key.tonic) == pc(span.from_key.tonic) || (old.scope
        == TonalScope::Tonicization && pc(old.local_key.tonic) == pc(span.to_key.tonic))
}

pub open spec fn event_chord(items: Seq<ProgressionItem>, e: usize) -> Option<ParsedChord> {
    if e < items.len() {
        chord_of(items[e as int])
    } else {
        None
    }
}

/// `new` is `old` after the span is applied: inside the span the active key
/// is the new key, the pivot and confirmation are marked (and explained),
/// the local reading is reprojected where `reprojected` holds, and the
/// candidate id carries the state suffix; outside the span nothing changes.
pub open spec fn modulated(
    new: KeyedPathSelection,
    old: KeyedPathSelection,
    span: SpanView,
    items: Seq<ProgressionItem>,
    global: TonalKey,
) -> bool {
    let e = old.selection.event_index;
    if e < span.start_event_index || e > span.end_event_index {
        new@ == old@
    } else {
        let pivot = old.is_pivot || (span.pivot matches Some(p) && p.event_index == e);
        let confirm = old.is_modulation_confirmation || e == span.confirmation_event_index;
        let re = reprojected(old, span);
        let chord = event_chord(items, e);
        let kt = key_text(span.to_key);
        &&& new.active_key == span.to_key
        &&& new.is_pivot == pivot
        &&& new.is_modulation_confirmation == confirm
        &&& new.local_key == if re { span.to_key } else { old.local_key }
        &&& new.scope == if !re {
            old.scope
        } else if same_key_as(span.to_key, global) {
            TonalScope::Global
        } else {
            TonalScope::Modulation
        }
        &&& new.local_degree == if re && chord is Some {
            Some(spelled_degree(chord->0.root, span.to_key.tonic))
        } else {
            old.local_degree
        }
        &&& new.role == if re && chord is Some { role_in_key(chord->0, span.to_key) } else { old.role }
        &&& new.selection.candidate_id@ == old.selection.candidate_id@ + state_suffix(span)
        &&& ev_views(new.selection.evidence@) == ev_views(old.selection.evidence@) + (if pivot {
            seq![ev("builtin.modulation.pivot_event"@, 0, "This event is the pivot into "@ + kt)]
        } else {
            Seq::empty()
        }) + (if confirm {
            seq![ev("builtin.modulation.confirmation_event"@, 0, "This tonic arrival confirms "@ + kt)]
        } else {
            Seq::empty()
        })
        &&& new.selection.event_index == old.selection.event_index
        &&& new.selection.label == old.selection.label
        &&& new.selection.hybrid_kind == old.selection.hybrid_kind
        &&& new.selection.blackadder == old.selection.blackadder
        &&& new.selection.harmonic_classifications == old.selection.harmonic_classifications
        &&& new.selection.emission_score == old.selection.emission_score
        &&& new.selection.transition_score == old.selection.transition_score
        &&& new.selection.step_score == old.selection.step_score
        &&& new.selection.cumulative_score == old.selection.cumulative_score
        &&& new.key_region_age_chords == old.key_region_age_chords
        &&& new.pending_resolutions == old.pending_resolutions
        &&& new.resolved_resolution_sources == old.resolved_resolution_sources
        &&& new.pending_predominant == old.pending_predominant
        &&& new.resolved_cadence_predominant_sources == old.resolved_cadence_predominant_sources
    }
}

fn push_note(evidence: &mut Vec<ScoreEvidence>, rule_id: &str, explanation: String)
    ensures
        ev_views(final(evidence)@) == ev_views(old(evidence)@).push(ev(rule_id@, 0, explanation@)),
{
    let ghost before = ev_views(evidence@);
    evidence.push(ScoreEvidence { rule_id: String::from_str(rule_id), contribution: 0, explanation });
    assert(ev_views(evidence@) =~= before.push(ev(rule_id@, 0, explanation@)));
}

fn modulate_selection(
    sel: KeyedPathSelection,
    span: &ModulationSpan,
    progression: &[ProgressionItem],
    global_key: TonalKey,
) -> (r: KeyedPathSelection)
    ensures
        modulated(r, sel, span@, progression@, global_key),
{
    let ghost old_sel = sel;
    let mut sel = sel;
    let e = sel.selection.event_index;
    if e < span.start_event_index || e > span.end_event_index {
        return sel;
    }
    let to = span.to_key;
    sel.active_key = to;
    let at_pivot = match &span.pivot {
        Some(p) => p.event_index == e,
        None => false,
    };
    sel.is_pivot = sel.is_pivot || at_pivot;
    sel.is_modulation_confirmation = sel.is_modulation_confirmation || e == span.confirmation_event_index;
    let reproject = matches!(sel.scope, TonalScope::Global) || sel.local_key.tonic.pitch_class().value()
        == span.from_key.tonic.pitch_class().value() || (matches!(sel.scope, TonalScope::Tonicization)
        && sel.local_key.tonic.pitch_class().value() == to.tonic.pitch_class().value());
    if reproject {
        sel.local_key = to;
        sel.scope = if same_key(to, global_key) {
            TonalScope::Global
        } else {
            TonalScope::Modulation
        };
        if e < progression.len() {
            if let Some(chord) = progression[e].chord() {
                sel.local_degree = Some(degree_from_spelling(chord.root, to.tonic));
                sel.role = infer_role(Some(chord), to);
            }
        }
    }
    let mut suffix = joined("@mod:", to.tonic.to_string().as_str());
    suffix.append(":");
    suffix.append(mode_name(to.mode));
    suffix.append(":");
    suffix.append(mechanism_name(span.mechanism));
    sel.selection.candidate_id.append(suffix.as_str());
    let kt = to.to_string();
    let ghost start = ev_views(sel.selection.evidence@);
    if sel.is_pivot {
        push_note(&mut sel.selection.evidence, "builtin.modulation.pivot_event", joined("This event is the pivot into ",
            kt.as_str()));
    }
    let ghost mid = ev_views(sel.selection.evidence@);
    if sel.is_modulation_confirmation {
        push_note(&mut sel.selection.evidence, "builtin.modulation.confirmation_event", joined(
            "This tonic arrival confirms ",
            kt.as_str(),
        ));
    }
    assert(ev_views(sel.selection.evidence@) =~= start + (if sel.is_pivot {
        seq![ev("builtin.modulation.pivot_event"@, 0, "This event is the pivot into "@ + key_text(to))]
    } else {
        Seq::<EvidenceView>::empty()
    }) + (if sel.is_modulation_confirmation {
        seq![ev("builtin.modulation.confirmation_event"@, 0, "This tonic arrival confirms "@ + key_text(to))]
    } else {
        Seq::<EvidenceView>::empty()
    }));
    sel
}

pub open spec fn span_views(s: Seq<ModulationSpan>) -> Seq<SpanView> {
    s.map_values(|x: ModulationSpan| x@)
}

/// Apply a selected modulation span to a keyed path: every selection inside
/// the span moves to the new key (see `modulated`), and the span's score,
/// evidence and record join the path's.
pub fn apply_modulation_span(progression: &[ProgressionItem], path: &mut KeyedAnalysisPath, span: ModulationSpan)
    requires
        -1_000_000_000_000_000_000_000 <= old(path).total_score <= 1_000_000_000_000_000_000_000,
        -1_000_000_000_000_000_000_000 <= old(path).modulation_score <= 1_000_000_000_000_000_000_000,
    ensures
        final(path).selections@.len() == old(path).selections@.len(),
        forall|k: int|
            0 <= k < old(path).selections@.len() ==> modulated(
                #[trigger] final(path).selections@[k],
                old(path).selections@[k],
                span@,
                progression@,
                old(path).global_key,
            ),
        final(path).modulation_score == old(path).modulation_score + span.score,
        final(path).total_score == old(path).total_score + span.score,
        ev_views(final(path).evidence@) == ev_views(old(path).evidence@) + ev_views(span.evidence@),
        span_views(final(path).modulations@) == span_views(old(path).modulations@).push(span@),
        final(path).global_key == old(path).global_key,
        final(path).harmonic_resolutions == old(path).harmonic_resolutions,
        final(path).cadential_spans == old(path).cadential_spans,
        final(path).function_score == old(path).function_score,
        final(path).key_score == old(path).key_score,
        final(path).memory_score == old(path).memory_score,
{
    let mut rest: Vec<KeyedPathSelection> = Vec::new();
    std::mem::swap(&mut rest, &mut path.selections);
    let ghost sels = rest@;
    let total = rest.len();
    let mut out: Vec<KeyedPathSelection> = Vec::new();
    let mut i: usize = 0;
    assert(rest@ =~= sels.skip(0));
    while i < total
        invariant
            total == sels.len(),
            i <= total,
            rest@ == sels.skip(i as int),
            out@.len() == i,
            path.global_key == old(path).global_key,
            forall|k: int|
                0 <= k < i ==> modulated(#[trigger] out@[k], sels[k], span@, progression@, path.global_key),
            path.total_score == old(path).total_score,
            path.modulation_score == old(path).modulation_score,
            path.evidence == old(path).evidence,
            path.modulations == old(path).modulations,
            path.harmonic_resolutions == old(path).harmonic_resolutions,
            path.cadential_spans == old(path).cadential_spans,
            path.function_score == old(path).function_score,
            path.key_score == old(path).key_score,
            path.memory_score == old(path).memory_score,
        decreases total - i,
    {
        let sel = rest.remove(0);
        assert(sel == sels[i as int]);
        assert(rest@ =~= sels.skip(i + 1));
        let new_sel = modulate_selection(sel, &span, progression, path.global_key);
        out.push(new_sel);
        i = i + 1;
    }
    path.selections = out;
    path.modulation_score = path.modulation_score + span.score as i128;
    path.total_score = path.total_score + span.score as i128;
    let mut copies = duplicate_evidence(&span.evidence);
    let ghost before = path.evidence@;
    path.evidence.append(&mut copies);
    assert(ev_views(path.evidence@) =~= ev_views(before) + ev_views(span.evidence@));
    let ghost mods = path.modulations@;
    path.modulations.push(span);
    assert(span_views(path.modulations@) =~= span_views(mods).push(span@));
}

/// Cut the last selected span short before the event that starts the next
/// one, never before its own confirmation; a next span that starts a
/// segment leaves it as it is.
pub fn clip_previous_span(spans: &mut Vec<ModulationSpan>, seg: &Vec<usize>, next_start_index: usize)
    requires
        next_start_index <= seg@.len(),
    ensures
        final(spans)@.len() == old(spans)@.len(),
        old(spans)@.len() == 0 || next_start_index == 0 ==> final(spans)@ == old(spans)@,
        old(spans)@.len() > 0 && next_start_index > 0 ==> {
            let n = old(spans)@.len() - 1;
            let last = old(spans)@[n];
            let before = seg@[next_start_index - 1];
            &&& final(spans)@ == old(spans)@.update(n, ModulationSpan {
                end_event_index: if before >= last.confirmation_event_index {
                    before
                } else {
                    last.confirmation_event_index
                },
                ..last
            })
        },
{
    let n = spans.len();
    if n == 0 || next_start_index == 0 {
        return;
    }
    let before = seg[next_start_index - 1];
    let mut last = spans.pop().unwrap();
    last.end_event_index = if before >= last.confirmation_event_index {
        before
    } else {
        last.confirmation_event_index
    };
    spans.push(last);
    assert(spans@ =~= old(spans)@.update(n - 1, spans@[n - 1]));
}

/// Chord events among `items[lo..=hi]`.
pub open spec fn chord_count(items: Seq<ProgressionItem>, lo: int, hi: int) -> int
    decreases hi - lo + 1,
{
    if hi < lo {
        0
    } else {
        chord_count(items, lo, hi - 1) + if chord_of(items[hi]) is Some { 1int } else { 0int }
    }
}

/// Duration evidence: a one- or two-chord key region reads as a
/// tonicization (`-0.6`, `-0.35`), three chords are neutral, and each chord
/// beyond three adds `0.12`, at most three times.
pub open spec fn duration_points(duration: int) -> int {
    if duration <= 1 {
        -60
    } else if duration == 2 {
        -35
    } else if duration == 3 {
        0
    } else if duration - 3 > 3 {
        36
    } else {
        (duration - 3) * 12
    }
}

/// `span` with its duration measured and scored.
pub open spec fn with_duration(span: SpanView, items: Seq<ProgressionItem>) -> SpanView {
    let d = chord_count(items, span.start_event_index as int, span.end_event_index as int);
    let c = duration_points(d);
    SpanView {
        duration_chords: d as usize,
        score: span.score + c,
        evidence: span.evidence.push(ev("builtin.modulation.key_region_duration"@, c, key_text(span.to_key)
            + " remains active for "@ + decimal_text(d as nat) + " chord event(s)"@)),
        ..span
    }
}

pub open spec fn duration_total(spans: Seq<SpanView>, items: Seq<ProgressionItem>) -> int
    decreases spans.len(),
{
    if spans.len() == 0 {
        0
    } else {
        duration_total(spans.drop_last(), items) + duration_points(
            chord_count(items, spans.last().start_event_index as int, spans.last().end_event_index as int),
        )
    }
}

fn count_chords(progression: &[ProgressionItem], lo: usize, hi: usize) -> (r: usize)
    requires
        lo <= hi < progression@.len(),
    ensures
        r == chord_count(progression@, lo as int, hi as int),
        r <= hi - lo + 1,
{
    let mut count: usize = 0;
    let mut i: usize = lo;
    while i <= hi
        invariant
            lo <= i <= hi + 1,
            hi < progression@.len(),
            count == chord_count(progression@, lo as int, i - 1),
            count <= i - lo,
        decreases hi + 1 - i,
    {
        if progression[i].chord().is_some() {
            count = count + 1;
        }
        i = i + 1;
    }
    count
}

/// Measure and score how long each selected key region lasts; the returned
/// total is what the regions add to their path.
pub fn finalize_duration_scores(spans: &mut Vec<ModulationSpan>, progression: &[ProgressionItem]) -> (r: i64)
    requires
        forall|k: int|
            0 <= k < old(spans)@.len() ==> (#[trigger] old(spans)@[k]).end_event_index < progression@.len(),
        forall|k: int|
            0 <= k < old(spans)@.len() ==> -1_000_000_000_000 <= (#[trigger] old(spans)@[k]).score
                <= 1_000_000_000_000,
        old(spans)@.len() <= 0x7fff_ffff,
    ensures
        final(spans)@.len() == old(spans)@.len(),
        forall|k: int|
            0 <= k < old(spans)@.len() ==> (#[trigger] final(spans)@[k])@ == with_duration(old(spans)@[k]@, progression@),
        r == duration_total(span_views(old(spans)@), progression@),
{
    let ghost olds = old(spans)@;
    let n = spans.len();
    let mut out: Vec<ModulationSpan> = Vec::new();
    let mut rest: Vec<ModulationSpan> = Vec::new();
    std::mem::swap(&mut rest, spans);
    let mut total: i64 = 0;
    let mut i: usize = 0;
    assert(rest@ =~= olds.skip(0));
    assert(span_views(olds).take(0) =~= Seq::<SpanView>::empty());
    while i < n
        invariant
            n == olds.len() <= 0x7fff_ffff,
            i <= n,
            rest@ == olds.skip(i as int),
            out@.len() == i,
            forall|k: int| 0 <= k < olds.len() ==> (#[trigger] olds[k]).end_event_index < progression@.len(),
            forall|k: int| 0 <= k < olds.len() ==> -1_000_000_000_000 <= (#[trigger] olds[k]).score <= 1_000_000_000_000,
            forall|k: int| 0 <= k < i ==> (#[trigger] out@[k])@ == with_duration(olds[k]@, progression@),
            total == duration_total(span_views(olds).take(i as int), progression@),
            -60 * i <= total <= 36 * i,
        decreases n - i,
    {
        let mut span = rest.remove(0);
        assert(span == olds[i as int]);
        assert(rest@ =~= olds.skip(i + 1));
        let duration = if span.start_event_index <= span.end_event_index {
            count_chords(progression, span.start_event_index, span.end_event_index)
        } else {
            0
        };
        let contribution: i64 = if duration <= 1 {
            -60
        } else if duration == 2 {
            -35
        } else if duration == 3 {
            0
        } else if duration - 3 > 3 {
            36
        } else {
            (duration - 3) as i64 * 12
        };
        span.duration_chords = duration;
        let mut why = span.to_key.to_string();
        why.append(" remains active for ");
        why.append(&decimal_string(duration));
        why.append(" chord event(s)");
        let ghost before = ev_views(span.evidence@);
        span.evidence.push(ScoreEvidence { rule_id: String::from_str("builtin.modulation.key_region_duration"), contribution, explanation: why });
        assert(ev_views(span.evidence@) =~= before.push(ev("builtin.modulation.key_region_duration"@, contribution as int,
            key_text(span.to_key) + " remains active for "@ + decimal_text(duration as nat) + " chord event(s)"@)));
        span.score = span.score + contribution;
        proof {
            let v = span_views(olds);
            assert(v.take(i + 1).drop_last() =~= v.take(i as int));
            assert(v.take(i + 1).last() == olds[i as int]@);
        }
        total = total + contribution;
        out.push(span);
        i = i + 1;
    }
    assert(span_views(olds).take(n as int) =~= span_views(olds));
    *spans = out;
    total
}

/// One partial route through the key states of a path: the active key, the
/// spans selected so far, their score, and the cadence in the current
/// segment that last confirmed the active key.
pub struct TonalStatePath {
    pub active_key: TonalKey,
    pub spans: Vec<ModulationSpan>,
    pub score: i128,
    pub last_confirmation_index: Option<usize>,
}

pub struct StateView {
    pub active_key: TonalKey,
    pub spans: Seq<SpanView>,
    pub score: int,
    pub last: Option<usize>,
}

impl View for TonalStatePath {
    type V = StateView;

    open spec fn view(&self) -> StateView {
        StateView {
            active_key: self.active_key,
            spans: span_views(self.spans@),
            score: self.score as int,
            last: self.last_confirmation_index,
        }
    }
}

pub open spec fn state_views(s: Seq<TonalStatePath>) -> Seq<StateView> {
    s.map_values(|x: TonalStatePath| x@)
}

/// The V7 -> I/i that completes at position `ci` of the segment, by its key.
pub open spec fn cadence_key_at(items: Seq<ProgressionItem>, seg: Seq<usize>, ci: int) -> Option<TonalKey> {
    let dominant = seg_chord(items, seg, ci - 1);
    let tonic = seg_chord(items, seg, ci);
    match cadence_mode(tonic) {
        Some(m) => if dominant_seventh_chord(dominant) && dist(dominant.root, tonic.root) == 7 {
            Some(TonalKey { tonic: tonic.root, mode: m })
        } else {
            None
        },
        None => None,
    }
}

/// `spans` with its last span ending just before position `next_start`
/// (never before that span's own confirmation).
pub open spec fn clip_spans(spans: Seq<SpanView>, seg: Seq<usize>, next_start: int) -> Seq<SpanView> {
    if spans.len() == 0 || next_start == 0 {
        spans
    } else {
        let last = spans.last();
        let before = seg[next_start - 1];
        spans.update(
            spans.len() - 1,
            SpanView {
                end_event_index: if before >= last.confirmation_event_index {
                    before
                } else {
                    last.confirmation_event_index
                },
                ..last
            },
        )
    }
}

pub open spec fn rapid_reversal_evidence() -> EvidenceView {
    ev("builtin.modulation.rapid_key_reversal"@, -160,
        "A second key change follows before the previous key has persisted"@)
}

/// `st` moved into `target` by the cadence at `ci`: the proposed span,
/// penalised when it follows the previous confirmation within two chords.
pub open spec fn transition(
    st: StateView,
    items: Seq<ProgressionItem>,
    seg: Seq<usize>,
    sels: Seq<KeyedPathSelection>,
    global: TonalKey,
    ci: int,
    target: TonalKey,
) -> StateView {
    let earliest = match st.last {
        Some(p) => p as int,
        None => 0,
    };
    let cand = span_candidate(items, seg, sels, global, st.active_key, target, ci, earliest);
    let rapid = st.last matches Some(p) && ci - p <= 2;
    let span = if rapid {
        SpanView {
            score: cand.span.score - 160,
            evidence: cand.span.evidence.push(rapid_reversal_evidence()),
            ..cand.span
        }
    } else {
        cand.span
    };
    StateView {
        active_key: target,
        spans: clip_spans(st.spans, seg, cand.start_index).push(span),
        score: st.score + span.score,
        last: Some(ci as usize),
    }
}

/// Ranking of states: higher score, then fewer spans, then lower tonic.
pub open spec fn state_before(a: StateView, b: StateView) -> bool {
    a.score > b.score || (a.score == b.score && (a.spans.len() < b.spans.len() || (a.spans.len() == b.spans.len()
        && pc(a.active_key.tonic) < pc(b.active_key.tonic))))
}

/// `x` inserted into the ranked `s` before the first state it ranks before.
pub open spec fn insert_state(s: Seq<StateView>, x: StateView) -> Seq<StateView>
    decreases s.len(),
{
    if s.len() == 0 {
        seq![x]
    } else if state_before(x, s[0]) {
        seq![x] + s
    } else {
        seq![s[0]] + insert_state(s.drop_first(), x)
    }
}

/// Stable ranking of `s` by `state_before`.
pub open spec fn sort_states(s: Seq<StateView>) -> Seq<StateView>
    decreases s.len(),
{
    if s.len() == 0 {
        s
    } else {
        insert_state(sort_states(s.drop_last()), s.last())
    }
}

/// The two routes reached the same key through the same transitions.
pub open spec fn same_history(a: StateView, b: StateView) -> bool {
    &&& same_key_as(a.active_key, b.active_key)
    &&& a.spans.len() == b.spans.len()
    &&& forall|i: int|
        0 <= i < a.spans.len() ==> same_key_as((#[trigger] a.spans[i]).from_key, b.spans[i].from_key)
            && same_key_as(a.spans[i].to_key, b.spans[i].to_key) && a.spans[i].start_event_index
            == b.spans[i].start_event_index && a.spans[i].confirmation_event_index
            == b.spans[i].confirmation_event_index && a.spans[i].mechanism == b.spans[i].mechanism
}

pub open spec fn seen_history(kept: Seq<StateView>, x: StateView) -> bool {
    exists|k: int| 0 <= k < kept.len() && same_history(#[trigger] kept[k], x)
}

/// The first state of each history, in ranked order, up to `beam` states.
pub open spec fn keep_distinct(kept: Seq<StateView>, rest: Seq<StateView>, beam: int) -> Seq<StateView>
    decreases rest.len(),
{
    if rest.len() == 0 || kept.len() >= beam {
        kept
    } else if seen_history(kept, rest[0]) {
        keep_distinct(kept, rest.drop_first(), beam)
    } else {
        keep_distinct(kept.push(rest[0]), rest.drop_first(), beam)
    }
}

pub open spec fn prune(states: Seq<StateView>, beam: int) -> Seq<StateView> {
    keep_distinct(Seq::empty(), sort_states(states), beam)
}

pub open spec fn mark_confirmed(states: Seq<StateView>, ci: int, target: TonalKey) -> Seq<StateView> {
    states.map_values(
        |s: StateView| if same_key_as(s.active_key, target) { StateView { last: Some(ci as usize), ..s } } else { s },
    )
}

pub open spec fn transitions(
    marked: Seq<StateView>,
    items: Seq<ProgressionItem>,
    seg: Seq<usize>,
    sels: Seq<KeyedPathSelection>,
    global: TonalKey,
    ci: int,
    target: TonalKey,
) -> Seq<StateView>
    decreases marked.len(),
{
    if marked.len() == 0 {
        Seq::empty()
    } else {
        transitions(marked.drop_last(), items, seg, sels, global, ci, target) + if same_key_as(
            marked.last().active_key,
            target,
        ) {
            Seq::empty()
        } else {
            seq![transition(marked.last(), items, seg, sels, global, ci, target)]
        }
    }
}

/// At a cadence every state may stay in its key or move into the cadence's
/// key; a state already in that key is confirmed there.
pub open spec fn cadence_step(
    states: Seq<StateView>,
    items: Seq<ProgressionItem>,
    seg: Seq<usize>,
    sels: Seq<KeyedPathSelection>,
    global: TonalKey,
    ci: int,
    target: TonalKey,
    beam: int,
) -> Seq<StateView> {
    let marked = mark_confirmed(states, ci, target);
    prune(marked + transitions(marked, items, seg, sels, global, ci, target), beam)
}

pub open spec fn cadences_upto(
    states: Seq<StateView>,
    items: Seq<ProgressionItem>,
    seg: Seq<usize>,
    sels: Seq<KeyedPathSelection>,
    global: TonalKey,
    beam: int,
    n: int,
) -> Seq<StateView>
    decreases n,
{
    if n <= 1 {
        states
    } else {
        let prev = cadences_upto(states, items, seg, sels, global, beam, n - 1);
        match cadence_key_at(items, seg, n - 1) {
            Some(t) => cadence_step(prev, items, seg, sels, global, n - 1, t, beam),
            None => prev,
        }
    }
}

/// A span whose key is still active reaches the end of the segment.
pub open spec fn extend_last(s: StateView, seg: Seq<usize>) -> StateView {
    if s.spans.len() > 0 && same_key_as(s.spans.last().to_key, s.active_key) {
        StateView {
            spans: s.spans.update(
                s.spans.len() - 1,
                SpanView { end_event_index: seg[seg.len() - 1], ..s.spans.last() },
            ),
            ..s
        }
    } else {
        s
    }
}

/// The states after one segment: confirmations are forgotten at its start,
/// every cadence is expanded in order, and surviving spans reach its end.
pub open spec fn expand_segment_states(
    states: Seq<StateView>,
    items: Seq<ProgressionItem>,
    seg: Seq<usize>,
    sels: Seq<KeyedPathSelection>,
    global: TonalKey,
    beam: int,
) -> Seq<StateView> {
    if seg.len() == 0 {
        states
    } else {
        let reset = states.map_values(|s: StateView| StateView { last: None, ..s });
        let after = cadences_upto(reset, items, seg, sels, global, beam, seg.len() as int);
        prune(after.map_values(|s: StateView| extend_last(s, seg)), beam)
    }
}

fn duplicate_span(s: &ModulationSpan) -> (r: ModulationSpan)
    ensures
        r@ == s@,
{
    let pivot = match &s.pivot {
        Some(p) => Some(
            PivotChord {
                event_index: p.event_index,
                chord_symbol: p.chord_symbol.clone(),
                kind: p.kind,
                old_key: p.old_key,
                new_key: p.new_key,
                old_degree: p.old_degree,
                new_degree: p.new_degree,
                old_role: p.old_role,
                new_role: p.new_role,
            },
        ),
        None => None,
    };
    ModulationSpan {
        from_key: s.from_key,
        to_key: s.to_key,
        start_event_index: s.start_event_index,
        dominant_event_index: s.dominant_event_index,
        confirmation_event_index: s.confirmation_event_index,
        end_event_index: s.end_event_index,
        duration_chords: s.duration_chords,
        mechanism: s.mechanism,
        cadence: s.cadence,
        pivot,
        score: s.score,
        evidence: duplicate_evidence(&s.evidence),
    }
}

pub(crate) fn duplicate_spans(v: &Vec<ModulationSpan>) -> (r: Vec<ModulationSpan>)
    ensures
        span_views(r@) == span_views(v@),
{
    let mut r: Vec<ModulationSpan> = Vec::new();
    let mut i: usize = 0;
    while i < v.len()
        invariant
            i <= v.len(),
            span_views(r@) == span_views(v@.take(i as int)),
        decreases v.len() - i,
    {
        r.push(duplicate_span(&v[i]));
        assert(span_views(v@.take(i + 1)) =~= span_views(v@.take(i as int)).push(v@[i as int]@));
        assert(span_views(r@) =~= span_views(v@.take(i + 1)));
        i = i + 1;
    }
    assert(v@.take(v.len() as int) =~= v@);
    r
}

fn duplicate_state(s: &TonalStatePath) -> (r: TonalStatePath)
    ensures
        r@ == s@,
{
    TonalStatePath {
        active_key: s.active_key,
        spans: duplicate_spans(&s.spans),
        score: s.score,
        last_confirmation_index: s.last_confirmation_index,
    }
}

fn state_ranks_before(a: &TonalStatePath, b: &TonalStatePath) -> (r: bool)
    ensures
        r == state_before(a@, b@),
{
    a.score > b.score || (a.score == b.score && (a.spans.len() < b.spans.len() || (a.spans.len() == b.spans.len()
        && a.active_key.tonic.pitch_class().value() < b.active_key.tonic.pitch_class().value())))
}

proof fn lemma_insert_at(s: Seq<StateView>, x: StateView, j: int)
    requires
        0 <= j <= s.len(),
        forall|k: int| 0 <= k < j ==> !state_before(x, #[trigger] s[k]),
        j < s.len() ==> state_before(x, s[j]),
    ensures
        insert_state(s, x) == s.take(j) + seq![x] + s.skip(j),
    decreases s.len(),
{
    if s.len() == 0 {
        assert(s.take(j) + seq![x] + s.skip(j) =~= seq![x]);
    } else if j == 0 {
        assert(s.take(0) + seq![x] + s.skip(0) =~= seq![x] + s);
    } else {
        assert(!state_before(x, s[0]));
        assert forall|k: int| 0 <= k < j - 1 implies !state_before(x, #[trigger] s.drop_first()[k]) by {
            assert(s.drop_first()[k] == s[k + 1]);
        }
        if j - 1 < s.drop_first().len() {
            assert(s.drop_first()[j - 1] == s[j]);
        }
        lemma_insert_at(s.drop_first(), x, j - 1);
        assert(seq![s[0]] + (s.drop_first().take(j - 1) + seq![x] + s.drop_first().skip(j - 1)) =~= s.take(j) + seq![x]
            + s.skip(j));
    }
}

fn insert_ranked(v: &mut Vec<TonalStatePath>, x: TonalStatePath)
    ensures
        state_views(final(v)@) == insert_state(state_views(old(v)@), x@),
{
    let ghost s = state_views(v@);
    let mut j: usize = 0;
    while j < v.len() && !state_ranks_before(&x, &v[j])
        invariant
            j <= v.len(),
            s == state_views(v@),
            forall|k: int| 0 <= k < j ==> !state_before(x@, #[trigger] s[k]),
        decreases v.len() - j,
    {
        j = j + 1;
    }
    proof {
        lemma_insert_at(s, x@, j as int);
    }
    let ghost xv = x@;
    v.insert(j, x);
    assert(state_views(v@) =~= s.take(j as int) + seq![xv] + s.skip(j as int));
}

/// Ranked states, stably.
fn sort_tonal_states(states: Vec<TonalStatePath>) -> (r: Vec<TonalStatePath>)
    ensures
        state_views(r@) == sort_states(state_views(states@)),
{
    let ghost all = state_views(states@);
    let n = states.len();
    let mut rest = states;
    let mut out: Vec<TonalStatePath> = Vec::new();
    let mut i: usize = 0;
    assert(all.take(0) =~= Seq::<StateView>::empty());
    while i < n
        invariant
            n == all.len(),
            i <= n,
            state_views(rest@) == all.skip(i as int),
            state_views(out@) == sort_states(all.take(i as int)),
        decreases n - i,
    {
        assert(rest@.len() > 0) by {
            assert(state_views(rest@).len() == n - i);
        }
        let ghost before = rest@;
        assert(state_views(before)[0] == all[i as int]);
        let x = rest.remove(0);
        assert(x@ == all[i as int]);
        assert(rest@ =~= before.skip(1));
        assert(state_views(before.skip(1)) =~= state_views(before).skip(1));
        assert(state_views(rest@) =~= all.skip(i + 1));
        insert_ranked(&mut out, x);
        assert(all.take(i + 1).drop_last() =~= all.take(i as int));
        i = i + 1;
    }
    assert(all.take(n as int) =~= all);
    out
}

fn same_state_history(a: &TonalStatePath, b: &TonalStatePath) -> (r: bool)
    ensures
        r == same_history(a@, b@),
{
    if !same_key(a.active_key, b.active_key) || a.spans.len() != b.spans.len() {
        return false;
    }
    let ghost av = span_views(a.spans@);
    let ghost bv = span_views(b.spans@);
    let mut i: usize = 0;
    while i < a.spans.len()
        invariant
            i <= a.spans.len() == b.spans.len(),
            av == span_views(a.spans@),
            bv == span_views(b.spans@),
            forall|k: int|
                0 <= k < i ==> same_key_as((#[trigger] av[k]).from_key, bv[k].from_key) && same_key_as(
                    av[k].to_key,
                    bv[k].to_key,
                ) && av[k].start_event_index == bv[k].start_event_index && av[k].confirmation_event_index
                    == bv[k].confirmation_event_index && av[k].mechanism == bv[k].mechanism,
        decreases a.spans.len() - i,
    {
        let x = &a.spans[i];
        let y = &b.spans[i];
        assert(av[i as int] == x@ && bv[i as int] == y@);
        if !(same_key(x.from_key, y.from_key) && same_key(x.to_key, y.to_key) && x.start_event_index
            == y.start_event_index && x.confirmation_event_index == y.confirmation_event_index && x.mechanism
            == y.mechanism) {
            return false;
        }
        i = i + 1;
    }
    true
}

fn history_seen(kept: &Vec<TonalStatePath>, x: &TonalStatePath) -> (r: bool)
    ensures
        r == seen_history(state_views(kept@), x@),
{
    let ghost kv = state_views(kept@);
    let mut k: usize = 0;
    while k < kept.len()
        invariant
            k <= kept.len(),
            kv == state_views(kept@),
            forall|j: int| 0 <= j < k ==> !same_history(#[trigger] kv[j], x@),
        decreases kept.len() - k,
    {
        if same_state_history(&kept[k], x) {
            assert(same_history(kv[k as int], x@));
            return true;
        }
        k = k + 1;
    }
    false
}

/// Ranked, the first state of each history, at most `beam` of them.
fn prune_states(states: Vec<TonalStatePath>, beam: usize) -> (r: Vec<TonalStatePath>)
    ensures
        state_views(r@) == prune(state_views(states@), beam as int),
{
    let sorted = sort_tonal_states(states);
    let ghost all = state_views(sorted@);
    let n = sorted.len();
    let mut rest = sorted;
    let mut kept: Vec<TonalStatePath> = Vec::new();
    let mut i: usize = 0;
    assert(state_views(kept@) =~= Seq::<StateView>::empty());
    assert(all.skip(0) =~= all);
    while i < n && kept.len() < beam
        invariant
            n == all.len(),
            i <= n,
            state_views(rest@) == all.skip(i as int),
            keep_distinct(Seq::empty(), all, beam as int) == keep_distinct(state_views(kept@), all.skip(i as int),
                beam as int),
        decreases n - i,
    {
        let ghost before = rest@;
        assert(state_views(before)[0] == all[i as int]);
        let x = rest.remove(0);
        assert(rest@ =~= before.skip(1));
        assert(state_views(before.skip(1)) =~= state_views(before).skip(1));
        assert(all.skip(i as int).drop_first() =~= all.skip(i + 1));
        if !history_seen(&kept, &x) {
            let ghost kv = state_views(kept@);
            kept.push(x);
            assert(state_views(kept@) =~= kv.push(all[i as int]));
        }
        i = i + 1;
    }
    proof {
        if i == n {
            assert(all.skip(i as int) =~= Seq::<StateView>::empty());
        }
    }
    kept
}

fn cadence_key(progression: &[ProgressionItem], seg: &Vec<usize>, ci: usize) -> (r: Option<TonalKey>)
    requires
        indexes_chords(progression@, seg@),
        0 < ci < seg@.len(),
    ensures
        r == cadence_key_at(progression@, seg@, ci as int),
{
    let dominant = chord_at(progression, seg[ci - 1]);
    let tonic = chord_at(progression, seg[ci]);
    match stable_tonic_mode(tonic) {
        Some(m) => if is_dominant_quality(dominant) && semitone_distance(dominant.root, tonic.root) == 7 {
            Some(TonalKey { tonic: tonic.root, mode: m })
        } else {
            None
        },
        None => None,
    }
}

/// States with no confirmation at or after `bound`, at most `t` spans, and
/// a score within `2^40` per span.
pub open spec fn state_ok(s: StateView, bound: int, t: int, n: int) -> bool {
    &&& s.last matches Some(p) ==> p < bound
    &&& s.spans.len() <= t
    &&& -0x100_0000_0000 * s.spans.len() <= s.score <= 0x100_0000_0000 * s.spans.len()
    &&& forall|i: int| 0 <= i < s.spans.len() ==> span_ok(#[trigger] s.spans[i], n)
    &&& route_consistent(s)
}

/// What the spans of a route add up to.
pub open spec fn span_score_sum(spans: Seq<SpanView>) -> int
    decreases spans.len(),
{
    if spans.len() == 0 {
        0
    } else {
        span_score_sum(spans.drop_last()) + spans.last().score
    }
}

/// A route's score is what its spans add up to, and a route that has left
/// its starting key is in the key its last span moved to.
pub open spec fn route_consistent(s: StateView) -> bool {
    &&& s.score == span_score_sum(s.spans)
    &&& s.spans.len() > 0 ==> s.active_key == s.spans.last().to_key
}

proof fn lemma_sum_update_last(s: Seq<SpanView>, x: SpanView)
    requires
        s.len() > 0,
        x.score == s.last().score,
    ensures
        span_score_sum(s.update(s.len() - 1, x)) == span_score_sum(s),
{
    assert(s.update(s.len() - 1, x).drop_last() =~= s.drop_last());
}

proof fn lemma_sum_push(s: Seq<SpanView>, x: SpanView)
    ensures
        span_score_sum(s.push(x)) == span_score_sum(s) + x.score,
{
    assert(s.push(x).drop_last() =~= s);
}

proof fn lemma_sum_durations(s: Seq<SpanView>, items: Seq<ProgressionItem>)
    ensures
        span_score_sum(s.map_values(|sp: SpanView| with_duration(sp, items))) == span_score_sum(s) + duration_total(
            s,
            items,
        ),
    decreases s.len(),
{
    if s.len() > 0 {
        lemma_sum_durations(s.drop_last(), items);
        assert(s.map_values(|sp: SpanView| with_duration(sp, items)).drop_last() =~= s.drop_last().map_values(
            |sp: SpanView| with_duration(sp, items),
        ));
    }
}

/// A span ends inside the progression and its score stays within what one
/// candidate can earn.
pub open spec fn span_ok(span: SpanView, n: int) -> bool {
    &&& span.end_event_index < n
    &&& span.confirmation_event_index < n
    &&& -3200 <= span.score <= 3000 + 65 * 0x7fff_ffff
}

pub open spec fn all_ok(states: Seq<StateView>, bound: int, t: int, n: int) -> bool {
    forall|k: int| 0 <= k < states.len() ==> state_ok(#[trigger] states[k], bound, t, n)
}

fn transition_state(
    st: TonalStatePath,
    progression: &[ProgressionItem],
    seg: &Vec<usize>,
    path: &KeyedAnalysisPath,
    ci: usize,
    target: TonalKey,
    t: Ghost<int>,
) -> (r: TonalStatePath)
    requires
        indexes_chords(progression@, seg@),
        0 < ci < seg@.len() <= 0x7fff_ffff,
        state_ok(st@, ci as int, t@, progression@.len() as int),
        0 <= t@ <= 0x4000_0000_0000_0000,
    ensures
        r@ == transition(st@, progression@, seg@, path.selections@, path.global_key, ci as int, target),
        state_ok(r@, ci + 1, t@ + 1, progression@.len() as int),
{
    let earliest = match st.last_confirmation_index {
        Some(p) => p,
        None => 0,
    };
    let mut candidate = build_span_candidate(seg, ci, progression, path, st.active_key, target, earliest);
    let rapid = match st.last_confirmation_index {
        Some(p) => ci - p <= 2,
        None => false,
    };
    if rapid {
        let ghost before = ev_views(candidate.span.evidence@);
        candidate.span.score = candidate.span.score - 160;
        candidate.span.evidence.push(ScoreEvidence {
            rule_id: String::from_str("builtin.modulation.rapid_key_reversal"),
            contribution: -160,
            explanation: String::from_str("A second key change follows before the previous key has persisted"),
        });
        assert(ev_views(candidate.span.evidence@) =~= before.push(rapid_reversal_evidence()));
    }
    let mut spans = st.spans;
    let ghost old_spans = span_views(spans@);
    clip_previous_span(&mut spans, seg, candidate.start_index);
    assert(span_views(spans@) =~= clip_spans(old_spans, seg@, candidate.start_index as int)) by {
        if old_spans.len() > 0 && candidate.start_index > 0 {
            assert(span_views(spans@)[old_spans.len() - 1] == clip_spans(old_spans, seg@,
                candidate.start_index as int)[old_spans.len() - 1]);
        }
    }
    let span_score = candidate.span.score;
    let ghost sv = candidate.span@;
    proof {
        let last = (seg@.len() - 1) as int;
        assert(seg@[last] < progression@.len());
        assert(seg@[ci as int] < progression@.len());
        assert(span_ok(sv, progression@.len() as int));
        if old_spans.len() > 0 && candidate.start_index > 0 {
            assert(seg@[candidate.start_index - 1] < progression@.len());
        }
        assert forall|i: int| 0 <= i < span_views(spans@).len() implies span_ok(
            #[trigger] span_views(spans@)[i],
            progression@.len() as int,
        ) by {
            if i < old_spans.len() - 1 || candidate.start_index == 0 {
                assert(span_views(spans@)[i] == old_spans[i]);
            }
            assert(span_ok(old_spans[i], progression@.len() as int));
        }
    }
    let ghost clipped = span_views(spans@);
    spans.push(candidate.span);
    assert(span_views(spans@) =~= clipped.push(sv));
    proof {
        if old_spans.len() > 0 && candidate.start_index > 0 {
            lemma_sum_update_last(old_spans, clipped[old_spans.len() - 1]);
            assert(clipped =~= old_spans.update(old_spans.len() - 1, clipped[old_spans.len() - 1]));
        } else {
            assert(clipped =~= old_spans);
        }
        lemma_sum_push(clipped, sv);
    }
    let r = TonalStatePath {
        active_key: target,
        spans,
        score: st.score + span_score as i128,
        last_confirmation_index: Some(ci),
    };
    assert(-0x100_0000_0000 * r@.spans.len() <= r@.score <= 0x100_0000_0000 * r@.spans.len()) by (nonlinear_arith)
        requires
            r@.spans.len() == st@.spans.len() + 1,
            -0x100_0000_0000 * st@.spans.len() <= st@.score <= 0x100_0000_0000 * st@.spans.len(),
            r@.score == st@.score + span_score,
            -3200 <= span_score <= 3000 + 65 * 0x7fff_ffff,
    ;
    r
}

proof fn lemma_insert_ok(s: Seq<StateView>, x: StateView, bound: int, t: int, n: int)
    requires
        all_ok(s, bound, t, n),
        state_ok(x, bound, t, n),
    ensures
        all_ok(insert_state(s, x), bound, t, n),
    decreases s.len(),
{
    if s.len() > 0 && !state_before(x, s[0]) {
        assert forall|k: int| 0 <= k < s.drop_first().len() implies state_ok(#[trigger] s.drop_first()[k], bound, t, n) by {
            assert(s.drop_first()[k] == s[k + 1]);
        }
        lemma_insert_ok(s.drop_first(), x, bound, t, n);
        let r = insert_state(s, x);
        assert forall|k: int| 0 <= k < r.len() implies state_ok(#[trigger] r[k], bound, t, n) by {
            if k > 0 {
                assert(r[k] == insert_state(s.drop_first(), x)[k - 1]);
            }
        }
    } else if s.len() > 0 {
        let r = insert_state(s, x);
        assert forall|k: int| 0 <= k < r.len() implies state_ok(#[trigger] r[k], bound, t, n) by {
            if k > 0 {
                assert(r[k] == s[k - 1]);
            }
        }
    }
}

proof fn lemma_sort_ok(s: Seq<StateView>, bound: int, t: int, n: int)
    requires
        all_ok(s, bound, t, n),
    ensures
        all_ok(sort_states(s), bound, t, n),
    decreases s.len(),
{
    if s.len() > 0 {
        assert forall|k: int| 0 <= k < s.drop_last().len() implies state_ok(#[trigger] s.drop_last()[k], bound, t, n) by {
            assert(s.drop_last()[k] == s[k]);
        }
        lemma_sort_ok(s.drop_last(), bound, t, n);
        lemma_insert_ok(sort_states(s.drop_last()), s.last(), bound, t, n);
    }
}

proof fn lemma_keep_ok(kept: Seq<StateView>, rest: Seq<StateView>, beam: int, bound: int, t: int, n: int)
    requires
        all_ok(kept, bound, t, n),
        all_ok(rest, bound, t, n),
    ensures
        all_ok(keep_distinct(kept, rest, beam), bound, t, n),
    decreases rest.len(),
{
    if rest.len() > 0 && kept.len() < beam {
        assert forall|k: int| 0 <= k < rest.drop_first().len() implies state_ok(#[trigger] rest.drop_first()[k], bound, t, n) by {
            assert(rest.drop_first()[k] == rest[k + 1]);
        }
        if !seen_history(kept, rest[0]) {
            assert forall|k: int| 0 <= k < kept.push(rest[0]).len() implies state_ok(#[trigger] kept.push(rest[0])[k], bound, t, n) by {
                if k < kept.len() {
                    assert(kept.push(rest[0])[k] == kept[k]);
                }
            }
            lemma_keep_ok(kept.push(rest[0]), rest.drop_first(), beam, bound, t, n);
        } else {
            lemma_keep_ok(kept, rest.drop_first(), beam, bound, t, n);
        }
    }
}

proof fn lemma_prune_ok(s: Seq<StateView>, beam: int, bound: int, t: int, n: int)
    requires
        all_ok(s, bound, t, n),
    ensures
        all_ok(prune(s, beam), bound, t, n),
{
    lemma_sort_ok(s, bound, t, n);
    lemma_keep_ok(Seq::empty(), sort_states(s), beam, bound, t, n);
}

fn expand_cadence(
    states: Vec<TonalStatePath>,
    progression: &[ProgressionItem],
    seg: &Vec<usize>,
    path: &KeyedAnalysisPath,
    ci: usize,
    target: TonalKey,
    beam: usize,
    t: Ghost<int>,
) -> (r: Vec<TonalStatePath>)
    requires
        indexes_chords(progression@, seg@),
        0 < ci < seg@.len() <= 0x7fff_ffff,
        all_ok(state_views(states@), ci as int, t@, progression@.len() as int),
        0 <= t@ <= 0x4000_0000_0000_0000,
    ensures
        state_views(r@) == cadence_step(state_views(states@), progression@, seg@, path.selections@, path.global_key,
            ci as int, target, beam as int),
        all_ok(state_views(r@), ci + 1, t@ + 1, progression@.len() as int),
{
    let ghost all = state_views(states@);
    let ghost mv = mark_confirmed(all, ci as int, target);
    let n = states.len();
    let mut rest = states;
    let mut marked: Vec<TonalStatePath> = Vec::new();
    let mut i: usize = 0;
    assert(all.skip(0) =~= all);
    while i < n
        invariant
            n == all.len() == mv.len(),
            mv == mark_confirmed(all, ci as int, target),
            i <= n,
            state_views(rest@) == all.skip(i as int),
            state_views(marked@) == mv.take(i as int),
        decreases n - i,
    {
        assert(rest@.len() > 0) by {
            assert(state_views(rest@).len() == n - i);
        }
        let ghost before = rest@;
        assert(state_views(before)[0] == all[i as int]);
        let mut st = rest.remove(0);
        assert(rest@ =~= before.skip(1));
        assert(state_views(before.skip(1)) =~= state_views(before).skip(1));
        if same_key(st.active_key, target) {
            st.last_confirmation_index = Some(ci);
        }
        let ghost mk = state_views(marked@);
        marked.push(st);
        assert(state_views(marked@) =~= mk.push(mv[i as int]));
        assert(mv.take(i + 1) =~= mv.take(i as int).push(mv[i as int]));
        i = i + 1;
    }
    assert(mv.take(n as int) =~= mv);
    assert forall|k: int| 0 <= k < mv.len() implies state_ok(#[trigger] mv[k], ci + 1, t@ + 1, progression@.len() as int) by {
        assert(state_ok(all[k], ci as int, t@, progression@.len() as int));
    }
    let mut expanded: Vec<TonalStatePath> = Vec::new();
    let mut k: usize = 0;
    while k < n
        invariant
            n == marked@.len() == mv.len(),
            state_views(marked@) == mv,
            k <= n,
            state_views(expanded@) == mv.take(k as int),
        decreases n - k,
    {
        let ghost ex = state_views(expanded@);
        expanded.push(duplicate_state(&marked[k]));
        assert(state_views(expanded@) =~= ex.push(mv[k as int]));
        assert(mv.take(k + 1) =~= mv.take(k as int).push(mv[k as int]));
        k = k + 1;
    }
    assert(mv.take(n as int) =~= mv);
    let mut j: usize = 0;
    assert(mv + transitions(mv.take(0), progression@, seg@, path.selections@, path.global_key, ci as int, target)
        =~= mv);
    while j < n
        invariant
            indexes_chords(progression@, seg@),
            0 < ci < seg@.len() <= 0x7fff_ffff,
            0 <= t@ <= 0x4000_0000_0000_0000,
            n == marked@.len() == mv.len() == all.len(),
            mv == mark_confirmed(all, ci as int, target),
            all_ok(all, ci as int, t@, progression@.len() as int),
            state_views(marked@) == mv,
            j <= n,
            state_views(expanded@) == mv + transitions(mv.take(j as int), progression@, seg@, path.selections@,
                path.global_key, ci as int, target),
            all_ok(state_views(expanded@), ci + 1, t@ + 1, progression@.len() as int),
        decreases n - j,
    {
        assert(mv.take(j + 1).drop_last() =~= mv.take(j as int));
        assert(mv.take(j + 1).last() == mv[j as int]);
        if !same_key(marked[j].active_key, target) {
            assert(state_ok(all[j as int], ci as int, t@, progression@.len() as int));
            assert(mv[j as int] == all[j as int]);
            let st = duplicate_state(&marked[j]);
            let moved = transition_state(st, progression, seg, path, ci, target, t);
            let ghost ex = state_views(expanded@);
            expanded.push(moved);
            assert(state_views(expanded@) =~= ex.push(moved@));
            assert forall|q: int| 0 <= q < state_views(expanded@).len() implies state_ok(
                #[trigger] state_views(expanded@)[q],
                ci + 1,
                t@ + 1,
                progression@.len() as int,
            ) by {
                if q < ex.len() {
                    assert(state_views(expanded@)[q] == ex[q]);
                }
            }
        }
        j = j + 1;
    }
    assert(mv.take(n as int) =~= mv);
    proof {
        lemma_prune_ok(state_views(expanded@), beam as int, ci + 1, t@ + 1, progression@.len() as int);
    }
    prune_states(expanded, beam)
}


/// `st` with its last span reaching the end of the segment when that span's
/// key is still the active one.
fn extend_state(st: TonalStatePath, seg: &Vec<usize>) -> (r: TonalStatePath)
    requires
        seg@.len() > 0,
    ensures
        r@ == extend_last(st@, seg@),
{
    let mut st = st;
    let n = st.spans.len();
    if n > 0 && same_key(st.spans[n - 1].to_key, st.active_key) {
        let ghost before = span_views(st.spans@);
        let mut last = st.spans.pop().unwrap();
        last.end_event_index = seg[seg.len() - 1];
        st.spans.push(last);
        assert(span_views(st.spans@) =~= before.update(
            n - 1,
            SpanView { end_event_index: seg@[seg@.len() - 1], ..before[n - 1] },
        ));
    }
    st
}

proof fn lemma_ok_weaken(states: Seq<StateView>, bound: int, t: int, bound2: int, t2: int, n: int)
    requires
        all_ok(states, bound, t, n),
        bound <= bound2,
        t <= t2,
    ensures
        all_ok(states, bound2, t2, n),
{
    assert forall|k: int| 0 <= k < states.len() implies state_ok(#[trigger] states[k], bound2, t2, n) by {
        assert(state_ok(states[k], bound, t, n));
    }
}

/// The states after one segment (see `expand_segment_states`).
fn expand_segment(
    states: Vec<TonalStatePath>,
    progression: &[ProgressionItem],
    seg: &Vec<usize>,
    path: &KeyedAnalysisPath,
    beam: usize,
    t: Ghost<int>,
) -> (r: Vec<TonalStatePath>)
    requires
        indexes_chords(progression@, seg@),
        seg@.len() <= 0x7fff_ffff,
        all_ok(state_views(states@), 0x8000_0000, t@, progression@.len() as int),
        0 <= t@,
        t@ + seg@.len() <= 0x4000_0000_0000_0000,
    ensures
        state_views(r@) == expand_segment_states(state_views(states@), progression@, seg@, path.selections@,
            path.global_key, beam as int),
        all_ok(state_views(r@), 0x8000_0000, t@ + seg@.len(), progression@.len() as int),
{
    let ghost nn = progression@.len() as int;
    let ghost all = state_views(states@);
    if seg.len() == 0 {
        return states;
    }
    let ghost reset = all.map_values(|s: StateView| StateView { last: None, ..s });
    let n = states.len();
    let mut rest = states;
    let mut cur: Vec<TonalStatePath> = Vec::new();
    let mut i: usize = 0;
    assert(all.skip(0) =~= all);
    while i < n
        invariant
            n == all.len() == reset.len(),
            reset == all.map_values(|s: StateView| StateView { last: None, ..s }),
            i <= n,
            state_views(rest@) == all.skip(i as int),
            state_views(cur@) == reset.take(i as int),
        decreases n - i,
    {
        assert(rest@.len() > 0) by {
            assert(state_views(rest@).len() == n - i);
        }
        let ghost before = rest@;
        assert(state_views(before)[0] == all[i as int]);
        let mut st = rest.remove(0);
        assert(rest@ =~= before.skip(1));
        assert(state_views(before.skip(1)) =~= state_views(before).skip(1));
        st.last_confirmation_index = None;
        let ghost cv = state_views(cur@);
        cur.push(st);
        assert(state_views(cur@) =~= cv.push(reset[i as int]));
        assert(reset.take(i + 1) =~= reset.take(i as int).push(reset[i as int]));
        i = i + 1;
    }
    assert(reset.take(n as int) =~= reset);
    assert forall|k: int| 0 <= k < reset.len() implies state_ok(#[trigger] reset[k], 1, t@, nn) by {
        assert(state_ok(all[k], 0x8000_0000, t@, nn));
    }
    let mut ci: usize = 1;
    while ci < seg.len()
        invariant
            indexes_chords(progression@, seg@),
            0 < seg@.len() <= 0x7fff_ffff,
            nn == progression@.len(),
            0 <= t@,
            t@ + seg@.len() <= 0x4000_0000_0000_0000,
            1 <= ci <= seg@.len(),
            state_views(cur@) == cadences_upto(reset, progression@, seg@, path.selections@, path.global_key,
                beam as int, ci as int),
            all_ok(state_views(cur@), ci as int, t@ + ci - 1, nn),
        decreases seg@.len() - ci,
    {
        match cadence_key(progression, seg, ci) {
            Some(target) => {
                cur = expand_cadence(cur, progression, seg, path, ci, target, beam, Ghost(t@ + ci - 1));
            },
            None => {
                proof {
                    lemma_ok_weaken(state_views(cur@), ci as int, t@ + ci - 1, ci + 1, t@ + ci, nn);
                }
            },
        }
        ci = ci + 1;
    }
    let ghost after = state_views(cur@);
    let ghost ext = after.map_values(|s: StateView| extend_last(s, seg@));
    let m = cur.len();
    let mut rest2 = cur;
    let mut out: Vec<TonalStatePath> = Vec::new();
    let mut j: usize = 0;
    assert(after.skip(0) =~= after);
    while j < m
        invariant
            0 < seg@.len(),
            m == after.len() == ext.len(),
            ext == after.map_values(|s: StateView| extend_last(s, seg@)),
            j <= m,
            state_views(rest2@) == after.skip(j as int),
            state_views(out@) == ext.take(j as int),
        decreases m - j,
    {
        assert(rest2@.len() > 0) by {
            assert(state_views(rest2@).len() == m - j);
        }
        let ghost before = rest2@;
        assert(state_views(before)[0] == after[j as int]);
        let st = rest2.remove(0);
        assert(rest2@ =~= before.skip(1));
        assert(state_views(before.skip(1)) =~= state_views(before).skip(1));
        let st2 = extend_state(st, seg);
        let ghost ov = state_views(out@);
        out.push(st2);
        assert(state_views(out@) =~= ov.push(ext[j as int]));
        assert(ext.take(j + 1) =~= ext.take(j as int).push(ext[j as int]));
        j = j + 1;
    }
    assert(ext.take(m as int) =~= ext);
    proof {
        let last = (seg@.len() - 1) as int;
        assert(seg@[last] < nn);
        assert forall|k: int| 0 <= k < ext.len() implies state_ok(
            #[trigger] ext[k],
            0x8000_0000,
            t@ + seg@.len(),
            nn,
        ) by {
            let s = after[k];
            assert(state_ok(s, seg@.len() as int, t@ + seg@.len() - 1, nn));
            if s.spans.len() > 0 && same_key_as(s.spans.last().to_key, s.active_key) {
                assert forall|q: int| 0 <= q < ext[k].spans.len() implies span_ok(#[trigger] ext[k].spans[q], nn) by {
                    assert(span_ok(s.spans[q], nn));
                }
                lemma_sum_update_last(s.spans, ext[k].spans.last());
            }
        }
        lemma_prune_ok(ext, beam as int, 0x8000_0000, t@ + seg@.len(), nn);
    }
    prune_states(out, beam)
}


/// The route every search starts from: the path's global key, no spans.
pub open spec fn initial_state(global: TonalKey) -> StateView {
    StateView { active_key: global, spans: Seq::empty(), score: 0, last: None }
}

/// The states after the first `n` segments.
pub open spec fn search_states(
    items: Seq<ProgressionItem>,
    segs: Seq<Seq<usize>>,
    sels: Seq<KeyedPathSelection>,
    global: TonalKey,
    beam: int,
    n: int,
) -> Seq<StateView>
    decreases n,
{
    if n <= 0 {
        seq![initial_state(global)]
    } else {
        expand_segment_states(search_states(items, segs, sels, global, beam, n - 1), items, segs[n - 1], sels,
            global, beam)
    }
}

/// A finished route: every span measured and scored by its duration.
pub open spec fn finalized(s: StateView, items: Seq<ProgressionItem>) -> StateView {
    StateView {
        spans: s.spans.map_values(|sp: SpanView| with_duration(sp, items)),
        score: s.score + duration_total(s.spans, items),
        ..s
    }
}

/// Few enough spans, each with a score of at most `2 * 10^11` either way.
pub open spec fn spans_bounded(spans: Seq<ModulationSpan>) -> bool {
    &&& spans.len() <= 0x7fff_ffff
    &&& forall|j: int| 0 <= j < spans.len() ==> -200_000_000_000 <= (#[trigger] spans[j]).score <= 200_000_000_000
}

/// The key routes a path can take through the progression: a beam search
/// over its context segments, each route finished by duration scoring.
pub open spec fn modulation_search(
    items: Seq<ProgressionItem>,
    sels: Seq<KeyedPathSelection>,
    global: TonalKey,
    policy: NoChordPolicy,
    beam: int,
) -> Seq<StateView> {
    let segs = segments_of(items, policy);
    search_states(items, segs, sels, global, beam, segs.len() as int).map_values(
        |s: StateView| finalized(s, items),
    )
}

fn finalize_state(st: TonalStatePath, progression: &[ProgressionItem], t: Ghost<int>) -> (r: TonalStatePath)
    requires
        state_ok(st@, 0x8000_0000, t@, progression@.len() as int),
        0 <= t@ <= 0x7fff_ffff,
    ensures
        r@ == finalized(st@, progression@),
        route_consistent(r@),
        r.spans@.len() <= 0x7fff_ffff,
        forall|j: int| 0 <= j < r.spans@.len() ==> -200_000_000_000 <= (#[trigger] r.spans@[j]).score <= 200_000_000_000,
{
    proof {
        lemma_sum_durations(st@.spans, progression@);
    }
    let mut st = st;
    let ghost before = span_views(st.spans@);
    proof {
        assert forall|k: int| 0 <= k < st.spans@.len() implies (#[trigger] st.spans@[k]).end_event_index
            < progression@.len() && -1_000_000_000_000 <= st.spans@[k].score <= 1_000_000_000_000 by {
            assert(span_ok(before[k], progression@.len() as int));
        }
    }
    let extra = finalize_duration_scores(&mut st.spans, progression);
    assert(span_views(st.spans@) =~= before.map_values(|sp: SpanView| with_duration(sp, progression@)));
    assert(-0x100_0000_0000 * 0x7fff_ffff <= st.score <= 0x100_0000_0000 * 0x7fff_ffff) by (nonlinear_arith)
        requires
            -0x100_0000_0000 * before.len() <= st.score <= 0x100_0000_0000 * before.len(),
            before.len() <= 0x7fff_ffff,
    ;
    st.score = st.score + extra as i128;
    proof {
        assert forall|j: int| 0 <= j < st.spans@.len() implies -200_000_000_000 <= (#[trigger] st.spans@[j]).score
            <= 200_000_000_000 by {
            assert(span_views(st.spans@)[j] == with_duration(before[j], progression@));
            assert(span_ok(before[j], progression@.len() as int));
        }
    }
    st
}

/// Every key route that survives the beam search over a keyed path, each
/// finished by duration scoring (see `modulation_search`).
pub fn modulation_states(
    progression: &[ProgressionItem],
    path: &KeyedAnalysisPath,
    no_chord_policy: NoChordPolicy,
    beam: usize,
) -> (r: Vec<TonalStatePath>)
    requires
        progression@.len() <= 0x7fff_ffff,
    ensures
        state_views(r@) == modulation_search(progression@, path.selections@, path.global_key, no_chord_policy,
            beam as int),
        forall|i: int| 0 <= i < r@.len() ==> route_consistent(#[trigger] r@[i]@),
        forall|i: int| 0 <= i < r@.len() ==> spans_bounded(#[trigger] r@[i].spans@),
{
    let ghost nn = progression@.len() as int;
    let segments = chord_segments(progression, no_chord_policy);
    let ghost segs = segments_of(progression@, no_chord_policy);
    proof {
        lemma_segments_index_chords(progression@, no_chord_policy);
    }
    let mut states: Vec<TonalStatePath> = Vec::new();
    let spans: Vec<ModulationSpan> = Vec::new();
    assert(span_views(spans@) =~= Seq::<SpanView>::empty());
    states.push(TonalStatePath {
        active_key: path.global_key,
        spans,
        score: 0,
        last_confirmation_index: None,
    });
    assert(state_views(states@) =~= seq![initial_state(path.global_key)]);
    assert(segs.take(0) =~= Seq::<Seq<usize>>::empty());
    assert(state_ok(initial_state(path.global_key), 0x8000_0000, 0, nn));
    let mut k: usize = 0;
    while k < segments.len()
        invariant
            k <= segments@.len(),
            deep_view(segments@) == segs,
            segs == segments_of(progression@, no_chord_policy),
            forall|j: int| 0 <= j < segs.len() ==> indexes_chords(progression@, #[trigger] segs[j]),
            nn == progression@.len() <= 0x7fff_ffff,
            state_views(states@) == search_states(progression@, segs, path.selections@, path.global_key,
                beam as int, k as int),
            all_ok(state_views(states@), 0x8000_0000, total_len(segs.take(k as int)), nn),
        decreases segments.len() - k,
    {
        assert(segments@[k as int]@ == segs[k as int]);
        proof {
            lemma_total_len_step(segs, k as int);
            lemma_segments_len(progression@, no_chord_policy, k + 1);
            lemma_segments_len(progression@, no_chord_policy, k as int);
        }
        states = expand_segment(states, progression, &segments[k], path, beam, Ghost(total_len(segs.take(k as int))));
        k = k + 1;
    }
    proof {
        lemma_segments_len(progression@, no_chord_policy, segs.len() as int);
        assert(segs.take(segs.len() as int) =~= segs);
    }
    let ghost t = total_len(segs);
    let ghost fin = state_views(states@);
    let n = states.len();
    let mut rest = states;
    let mut out: Vec<TonalStatePath> = Vec::new();
    let mut i: usize = 0;
    assert(fin.skip(0) =~= fin);
    while i < n
        invariant
            n == fin.len(),
            i <= n,
            nn == progression@.len(),
            0 <= t <= 0x7fff_ffff,
            all_ok(fin, 0x8000_0000, t, nn),
            state_views(rest@) == fin.skip(i as int),
            state_views(out@) == fin.map_values(|s: StateView| finalized(s, progression@)).take(i as int),
            forall|q: int| 0 <= q < out@.len() ==> route_consistent(#[trigger] out@[q]@),
            forall|q: int| 0 <= q < out@.len() ==> spans_bounded(#[trigger] out@[q].spans@),
        decreases n - i,
    {
        assert(rest@.len() > 0) by {
            assert(state_views(rest@).len() == n - i);
        }
        let ghost before = rest@;
        assert(state_views(before)[0] == fin[i as int]);
        let st = rest.remove(0);
        assert(rest@ =~= before.skip(1));
        assert(state_views(before.skip(1)) =~= state_views(before).skip(1));
        assert(state_ok(fin[i as int], 0x8000_0000, t, nn));
        let done = finalize_state(st, progression, Ghost(t));
        let ghost ov = state_views(out@);
        out.push(done);
        assert(state_views(out@) =~= ov.push(finalized(fin[i as int], progression@)));
        assert(fin.map_values(|s: StateView| finalized(s, progression@)).take(i + 1) =~= fin.map_values(
            |s: StateView| finalized(s, progression@),
        ).take(i as int).push(finalized(fin[i as int], progression@)));
        i = i + 1;
    }
    assert(fin.map_values(|s: StateView| finalized(s, progression@)).take(n as int) =~= fin.map_values(
        |s: StateView| finalized(s, progression@),
    ));
    out
}


/// `new` is `old` with `span` applied, as `apply_modulation_span` does it.
pub open spec fn span_applied(
    new: KeyedAnalysisPath,
    old: KeyedAnalysisPath,
    span: SpanView,
    items: Seq<ProgressionItem>,
) -> bool {
    &&& new.selections@.len() == old.selections@.len()
    &&& forall|k: int|
        0 <= k < old.selections@.len() ==> modulated(
            #[trigger] new.selections@[k],
            old.selections@[k],
            span,
            items,
            old.global_key,
        )
    &&& new.modulation_score == old.modulation_score + span.score
    &&& new.total_score == old.total_score + span.score
    &&& ev_views(new.evidence@) == ev_views(old.evidence@) + span.evidence
    &&& span_views(new.modulations@) == span_views(old.modulations@).push(span)
    &&& new.global_key == old.global_key
    &&& new.harmonic_resolutions@.map_values(|x: HarmonicResolution| x@) == old.harmonic_resolutions@.map_values(
        |x: HarmonicResolution| x@,
    )
    &&& new.cadential_spans@.map_values(|x: CadentialSpan| x@) == old.cadential_spans@.map_values(
        |x: CadentialSpan| x@,
    )
    &&& new.function_score == old.function_score
    &&& new.key_score == old.key_score
    &&& new.memory_score == old.memory_score
}

/// `mids` are the paths met while applying `spans` to `old` in order: the
/// first holds the same values as `old`, each next one has the next span
/// applied.
pub open spec fn applied_chain(
    mids: Seq<KeyedAnalysisPath>,
    old: KeyedAnalysisPath,
    spans: Seq<SpanView>,
    items: Seq<ProgressionItem>,
) -> bool {
    &&& mids.len() == spans.len() + 1
    &&& same_path(mids[0], old)
    &&& forall|j: int| 0 <= j < spans.len() ==> span_applied(#[trigger] mids[j + 1], mids[j], spans[j], items)
}

/// `new` is `old` with `spans` applied in order.
pub open spec fn spans_applied(
    new: KeyedAnalysisPath,
    old: KeyedAnalysisPath,
    spans: Seq<SpanView>,
    items: Seq<ProgressionItem>,
) -> bool {
    exists|mids: Seq<KeyedAnalysisPath>| #[trigger] applied_chain(mids, old, spans, items) && mids.last() == new
}

/// Apply selected spans to a path, in order.
pub fn apply_modulations(
    progression: &[ProgressionItem],
    path: KeyedAnalysisPath,
    spans: Vec<ModulationSpan>,
) -> (r: KeyedAnalysisPath)
    requires
        spans@.len() <= 0x7fff_ffff,
        forall|k: int| 0 <= k < spans@.len() ==> -200_000_000_000 <= (#[trigger] spans@[k]).score <= 200_000_000_000,
        -500_000_000_000_000_000_000 <= path.total_score <= 500_000_000_000_000_000_000,
        -500_000_000_000_000_000_000 <= path.modulation_score <= 500_000_000_000_000_000_000,
    ensures
        spans_applied(r, path, span_views(spans@), progression@),
{
    let ghost orig = path;
    let ghost sv = span_views(spans@);
    let n = spans.len();
    let mut cur = path;
    let mut rest = spans;
    let ghost all = rest@;
    let ghost mut mids: Seq<KeyedAnalysisPath> = seq![orig];
    let mut i: usize = 0;
    assert(all.skip(0) =~= all);
    while i < n
        invariant
            n == all.len() == sv.len(),
            sv == span_views(all),
            n <= 0x7fff_ffff,
            forall|k: int| 0 <= k < all.len() ==> -200_000_000_000 <= (#[trigger] all[k]).score <= 200_000_000_000,
            -500_000_000_000_000_000_000 <= orig.total_score <= 500_000_000_000_000_000_000,
            -500_000_000_000_000_000_000 <= orig.modulation_score <= 500_000_000_000_000_000_000,
            i <= n,
            rest@ == all.skip(i as int),
            mids.len() == i + 1,
            same_path(mids[0], orig),
            mids.last() == cur,
            forall|j: int| 0 <= j < i ==> span_applied(#[trigger] mids[j + 1], mids[j], sv[j], progression@),
            -200_000_000_000 * i <= cur.total_score - orig.total_score <= 200_000_000_000 * i,
            -200_000_000_000 * i <= cur.modulation_score - orig.modulation_score <= 200_000_000_000 * i,
        decreases n - i,
    {
        assert(rest@.len() > 0);
        let span = rest.remove(0);
        assert(span == all[i as int]);
        assert(rest@ =~= all.skip(i + 1));
        assert(200_000_000_000 * i <= 200_000_000_000 * 0x7fff_ffff) by (nonlinear_arith)
            requires
                i <= 0x7fff_ffff,
        ;
        let ghost before = mids;
        apply_modulation_span(progression, &mut cur, span);
        proof {
            mids = before.push(cur);
            assert forall|j: int| 0 <= j < i + 1 implies span_applied(#[trigger] mids[j + 1], mids[j], sv[j],
                progression@) by {
                if j < i {
                    assert(mids[j + 1] == before[j + 1]);
                    assert(mids[j] == before[j]);
                }
            }
        }
        i = i + 1;
    }
    assert(applied_chain(mids, orig, sv, progression@));
    cur
}


/// Ranking of alternatives: higher total, then fewer modulations.
pub open spec fn path_before(a: KeyedAnalysisPath, b: KeyedAnalysisPath) -> bool {
    a.total_score > b.total_score || (a.total_score == b.total_score && a.modulations@.len() < b.modulations@.len())
}

/// `x` inserted into the ranked `s` before the first path it ranks before.
pub open spec fn insert_path(s: Seq<KeyedAnalysisPath>, x: KeyedAnalysisPath) -> Seq<KeyedAnalysisPath>
    decreases s.len(),
{
    if s.len() == 0 {
        seq![x]
    } else if path_before(x, s[0]) {
        seq![x] + s
    } else {
        seq![s[0]] + insert_path(s.drop_first(), x)
    }
}

/// Stable ranking of `s` by `path_before`.
pub open spec fn sort_paths(s: Seq<KeyedAnalysisPath>) -> Seq<KeyedAnalysisPath>
    decreases s.len(),
{
    if s.len() == 0 {
        s
    } else {
        insert_path(sort_paths(s.drop_last()), s.last())
    }
}

proof fn lemma_sort_paths_len(s: Seq<KeyedAnalysisPath>)
    ensures
        sort_paths(s).len() == s.len(),
    decreases s.len(),
{
    if s.len() > 0 {
        lemma_sort_paths_len(s.drop_last());
        lemma_insert_path_len(sort_paths(s.drop_last()), s.last());
    }
}

proof fn lemma_insert_path_len(s: Seq<KeyedAnalysisPath>, x: KeyedAnalysisPath)
    ensures
        insert_path(s, x).len() == s.len() + 1,
    decreases s.len(),
{
    if s.len() > 0 && !path_before(x, s[0]) {
        lemma_insert_path_len(s.drop_first(), x);
    }
}

/// Totals do not increase along `s`.
pub open spec fn best_first(s: Seq<KeyedAnalysisPath>) -> bool {
    forall|i: int, j: int| 0 <= i < j < s.len() ==> (#[trigger] s[i]).total_score >= (#[trigger] s[j]).total_score
}

proof fn lemma_insert_path_bound(s: Seq<KeyedAnalysisPath>, x: KeyedAnalysisPath, b: int)
    requires
        x.total_score <= b,
        forall|m: int| 0 <= m < s.len() ==> (#[trigger] s[m]).total_score <= b,
    ensures
        forall|k: int| 0 <= k < insert_path(s, x).len() ==> (#[trigger] insert_path(s, x)[k]).total_score <= b,
    decreases s.len(),
{
    if s.len() > 0 && !path_before(x, s[0]) {
        assert forall|m: int| 0 <= m < s.drop_first().len() implies (#[trigger] s.drop_first()[m]).total_score <= b by {
            assert(s.drop_first()[m] == s[m + 1]);
        }
        lemma_insert_path_bound(s.drop_first(), x, b);
        let r = insert_path(s, x);
        assert forall|k: int| 0 <= k < r.len() implies (#[trigger] r[k]).total_score <= b by {
            if k > 0 {
                assert(r[k] == insert_path(s.drop_first(), x)[k - 1]);
            }
        }
    } else if s.len() > 0 {
        let r = insert_path(s, x);
        assert forall|k: int| 0 <= k < r.len() implies (#[trigger] r[k]).total_score <= b by {
            if k > 0 {
                assert(r[k] == s[k - 1]);
            }
        }
    }
}

proof fn lemma_insert_path_sorted(s: Seq<KeyedAnalysisPath>, x: KeyedAnalysisPath)
    requires
        best_first(s),
    ensures
        best_first(insert_path(s, x)),
    decreases s.len(),
{
    if s.len() > 0 {
        let r = insert_path(s, x);
        if path_before(x, s[0]) {
            assert forall|i: int, j: int| 0 <= i < j < r.len() implies (#[trigger] r[i]).total_score >= (
            #[trigger] r[j]).total_score by {
                assert(r[j] == s[j - 1]);
                if i > 0 {
                    assert(r[i] == s[i - 1]);
                } else if j > 1 {
                    assert(s[0].total_score >= s[j - 1].total_score);
                }
            }
        } else {
            let t = s.drop_first();
            assert forall|i: int, j: int| 0 <= i < j < t.len() implies (#[trigger] t[i]).total_score >= (
            #[trigger] t[j]).total_score by {
                assert(t[i] == s[i + 1]);
                assert(t[j] == s[j + 1]);
            }
            lemma_insert_path_sorted(t, x);
            assert forall|m: int| 0 <= m < t.len() implies (#[trigger] t[m]).total_score <= s[0].total_score by {
                assert(t[m] == s[m + 1]);
            }
            lemma_insert_path_bound(t, x, s[0].total_score as int);
            let u = insert_path(t, x);
            assert forall|i: int, j: int| 0 <= i < j < r.len() implies (#[trigger] r[i]).total_score >= (
            #[trigger] r[j]).total_score by {
                assert(r[j] == u[j - 1]);
                if i > 0 {
                    assert(r[i] == u[i - 1]);
                }
            }
        }
    }
}

proof fn lemma_sort_paths_sorted(s: Seq<KeyedAnalysisPath>)
    ensures
        best_first(sort_paths(s)),
    decreases s.len(),
{
    if s.len() > 0 {
        lemma_sort_paths_sorted(s.drop_last());
        lemma_insert_path_sorted(sort_paths(s.drop_last()), s.last());
    }
}

proof fn lemma_insert_path_at(s: Seq<KeyedAnalysisPath>, x: KeyedAnalysisPath, j: int)
    requires
        0 <= j <= s.len(),
        forall|k: int| 0 <= k < j ==> !path_before(x, #[trigger] s[k]),
        j < s.len() ==> path_before(x, s[j]),
    ensures
        insert_path(s, x) == s.take(j) + seq![x] + s.skip(j),
    decreases s.len(),
{
    if s.len() == 0 {
        assert(s.take(j) + seq![x] + s.skip(j) =~= seq![x]);
    } else if j == 0 {
        assert(s.take(0) + seq![x] + s.skip(0) =~= seq![x] + s);
    } else {
        assert(!path_before(x, s[0]));
        assert forall|k: int| 0 <= k < j - 1 implies !path_before(x, #[trigger] s.drop_first()[k]) by {
            assert(s.drop_first()[k] == s[k + 1]);
        }
        if j - 1 < s.drop_first().len() {
            assert(s.drop_first()[j - 1] == s[j]);
        }
        lemma_insert_path_at(s.drop_first(), x, j - 1);
        assert(seq![s[0]] + (s.drop_first().take(j - 1) + seq![x] + s.drop_first().skip(j - 1)) =~= s.take(j) + seq![x]
            + s.skip(j));
    }
}

fn insert_path_ranked(v: &mut Vec<KeyedAnalysisPath>, x: KeyedAnalysisPath)
    ensures
        final(v)@ == insert_path(old(v)@, x),
{
    let ghost s = v@;
    let mut j: usize = 0;
    while j < v.len() && !(x.total_score > v[j].total_score || (x.total_score == v[j].total_score
        && x.modulations.len() < v[j].modulations.len()))
        invariant
            j <= v.len(),
            s == v@,
            forall|k: int| 0 <= k < j ==> !path_before(x, #[trigger] s[k]),
        decreases v.len() - j,
    {
        j = j + 1;
    }
    proof {
        lemma_insert_path_at(s, x, j as int);
    }
    let ghost xv = x;
    v.insert(j, x);
    assert(v@ =~= s.take(j as int) + seq![xv] + s.skip(j as int));
}

fn sort_keyed_paths(paths: Vec<KeyedAnalysisPath>) -> (r: Vec<KeyedAnalysisPath>)
    ensures
        r@ == sort_paths(paths@),
{
    let ghost all = paths@;
    let n = paths.len();
    let mut rest = paths;
    let mut out: Vec<KeyedAnalysisPath> = Vec::new();
    let mut i: usize = 0;
    assert(all.take(0) =~= Seq::<KeyedAnalysisPath>::empty());
    assert(all.skip(0) =~= all);
    while i < n
        invariant
            n == all.len(),
            i <= n,
            rest@ == all.skip(i as int),
            out@ == sort_paths(all.take(i as int)),
        decreases n - i,
    {
        assert(rest@.len() > 0);
        let x = rest.remove(0);
        assert(x == all[i as int]);
        assert(rest@ =~= all.skip(i + 1));
        insert_path_ranked(&mut out, x);
        assert(all.take(i + 1).drop_last() =~= all.take(i as int));
        i = i + 1;
    }
    assert(all.take(n as int) =~= all);
    out
}

/// Each alternative is the path with the spans of the route at its place.
pub open spec fn alternatives_of(
    alts: Seq<KeyedAnalysisPath>,
    path: KeyedAnalysisPath,
    routes: Seq<StateView>,
    items: Seq<ProgressionItem>,
) -> bool {
    &&& alts.len() == routes.len()
    &&& forall|i: int| 0 <= i < alts.len() ==> spans_applied(#[trigger] alts[i], path, routes[i].spans, items)
}

/// The search width: the caller's `k`, but never under 32.
pub open spec fn beam_for(k: int) -> int {
    if k < 32 {
        32
    } else {
        k
    }
}

/// The ranked alternatives a keyed path can become: every key route that
/// survives the search (see `modulation_search`) applied to a copy of the
/// path, best total first, fewer modulations first among equal totals, at
/// most `k` of them.
pub fn expand_modulation_paths(
    progression: &[ProgressionItem],
    path: KeyedAnalysisPath,
    no_chord_policy: NoChordPolicy,
    k: usize,
) -> (r: Vec<KeyedAnalysisPath>)
    requires
        progression@.len() <= 0x7fff_ffff,
        -500_000_000_000_000_000_000 <= path.total_score <= 500_000_000_000_000_000_000,
        -500_000_000_000_000_000_000 <= path.modulation_score <= 500_000_000_000_000_000_000,
    ensures
        exists|alts: Seq<KeyedAnalysisPath>|
            #[trigger] alternatives_of(
                alts,
                path,
                modulation_search(progression@, path.selections@, path.global_key, no_chord_policy, beam_for(
                    k as int,
                )),
                progression@,
            ) && r@ == (if k < alts.len() {
                sort_paths(alts).take(k as int)
            } else {
                sort_paths(alts)
            }),
        best_first(r@),
        r@.len() <= k,
{
    let beam: usize = if k < 32 {
        32
    } else {
        k
    };
    let states = modulation_states(progression, &path, no_chord_policy, beam);
    let ghost routes = state_views(states@);
    let n = states.len();
    let mut rest = states;
    let ghost all = rest@;
    let mut alts: Vec<KeyedAnalysisPath> = Vec::new();
    let mut i: usize = 0;
    assert(all.skip(0) =~= all);
    while i < n
        invariant
            n == all.len() == routes.len(),
            routes == state_views(all),
            forall|q: int| 0 <= q < all.len() ==> spans_bounded(#[trigger] all[q].spans@),
            -500_000_000_000_000_000_000 <= path.total_score <= 500_000_000_000_000_000_000,
            -500_000_000_000_000_000_000 <= path.modulation_score <= 500_000_000_000_000_000_000,
            i <= n,
            rest@ == all.skip(i as int),
            alts@.len() == i,
            forall|q: int| 0 <= q < i ==> spans_applied(#[trigger] alts@[q], path, routes[q].spans, progression@),
        decreases n - i,
    {
        assert(rest@.len() > 0);
        let st = rest.remove(0);
        assert(st == all[i as int]);
        assert(rest@ =~= all.skip(i + 1));
        assert(spans_bounded(st.spans@));
        let copy = path.duplicate();
        let ghost sv = span_views(st.spans@);
        let alt = apply_modulations(progression, copy, st.spans);
        proof {
            let mids = choose|mids: Seq<KeyedAnalysisPath>| #[trigger] applied_chain(mids, copy, sv, progression@)
                && mids.last() == alt;
            assert(applied_chain(mids, path, sv, progression@));
            assert(routes[i as int].spans == sv);
        }
        alts.push(alt);
        i = i + 1;
    }
    let ghost av = alts@;
    assert(alternatives_of(av, path, routes, progression@));
    let mut sorted = sort_keyed_paths(alts);
    proof {
        lemma_sort_paths_len(av);
        lemma_sort_paths_sorted(av);
    }
    sorted.truncate(k);
    assert(sorted@ == (if k < av.len() {
        sort_paths(av).take(k as int)
    } else {
        sort_paths(av)
    })) by {
        if k < av.len() {
            assert(sort_paths(av).subrange(0, k as int) =~= sort_paths(av).take(k as int));
        }
    }
    assert(routes == modulation_search(progression@, path.selections@, path.global_key, no_chord_policy, beam_for(
        k as int,
    )));
    assert(alternatives_of(
        av,
        path,
        modulation_search(progression@, path.selections@, path.global_key, no_chord_policy, beam_for(k as int)),
        progression@,
    ));
    sorted
}

} // verus!
