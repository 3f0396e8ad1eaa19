//! Multi-axis interpretation of Blackadder sonorities.
//!
//! A Blackadder sonority is the pitch-class set `{0, 2, 6, 10}` measured from
//! its bass. Those four notes do not determine one chord name or function:
//! the same sound can be a dominant tension chord, a half-diminished chord
//! without its third, an augmented-seventh inversion, a whole-tone fragment,
//! or the temporary result of independent voices.
//!
//! Every reading therefore has three independent axes:
//! [`BlackadderStructure`] (which parent chord explains the notes),
//! [`BlackadderFunction`] (what it does in the progression) and
//! [`BlackadderOrigin`] (how voice leading produced it). Readings that chord
//! symbols cannot settle carry the [`BlackadderObservationKind`]s that
//! richer input would need.

use vstd::prelude::*;
use crate::analysis::evidence::{EvidenceView, ScoreEvidence};
use crate::analysis::harmony::{
    empty_classification, role_classification, with_family, with_source, ClassificationView,
    DominantRelation, HarmonicClassification, HarmonicRole, HarmonicSource, InterpretationFamily,
    TonalMode, TonalPerspective, TonalScope,
};
use crate::domain::chord::{heard_alike, ParsedChord};
use crate::domain::degree::Degree;
use crate::domain::note::{note_text, letter_at, letter_index, natural_semitones, NoteLetter, PitchClass, SpelledNote};
use crate::domain::quality::QualityClass;
use crate::profile::BehaviorProfile;
use crate::speller::{
    degree_from_spelling, name_of_pitch_class, pitch_class_name, root_accidental_preference,
    semitone_distance, signed_alteration, spell_pitch_class, spelled_degree, target_accidental_preference,
};
use crate::structure::{
    alterations_fit, dominant_for, lemma_spelled_map_keys, spelled_tones_for, spelled_tones_of, tonic_for,
    is_dominant_for, is_tonic_for,
};

verus! {

broadcast use vstd::std_specs::hash::group_hash_axioms;

/// The conventional spelling of the tritone in the bass-rooted dominant view.
#[derive(Clone, Copy, Debug, Eq, Hash, PartialEq, Structural)]
pub enum TritoneSpelling {
    SharpEleventh,
    FlatFifth,
    Ambiguous,
}

/// Pitch-class parity identifies one of the two whole-tone collections.
#[derive(Clone, Copy, Debug, Eq, Hash, PartialEq, Structural)]
pub enum WholeToneCollection {
    /// C-D-E-F#-G#-Bb and enharmonic equivalents.
    EvenPitchClasses,
    /// Db-Eb-F-G-A-B and enharmonic equivalents.
    OddPitchClasses,
}

#[derive(Clone, Copy, Debug, Eq, Hash, PartialEq, Structural)]
/// A chord-scale suggested by one structural reading.
pub enum BlackadderScale {
    LydianDominant,
    LocrianNaturalTwo,
    WholeTone(WholeToneCollection),
}

#[derive(Clone, Copy, Debug, Eq, Hash, PartialEq, Structural)]
/// A pitch-set or parent-chord explanation, independent of function.
pub enum BlackadderStructure {
    /// The written augmented triad retained above an independent bass.
    AugmentedTriadOverBass,
    /// `7(9,#11)` or `7(9,b5)` with the third and fifth omitted.
    DominantNinthOmitThirdAndFifth { tritone_spelling: TritoneSpelling },
    /// `m7b5(add9)` with the minor third omitted.
    HalfDiminishedAddNineOmitThird,
    /// An `aug7` chord whose seventh is in the bass.
    AugmentedSeventhThirdInversion,
    /// An augmented-sixth spelling of the ten-semitone outer interval.
    AugmentedSixth,
    /// The four notes regarded as a fragment of a whole-tone collection.
    WholeToneSubset,
    /// A different dominant root is inferred and the written bass is that
    /// dominant's third.
    RootlessDominantThirdInBass,
}

#[derive(Clone, Copy, Debug, Eq, Hash, PartialEq, Structural)]
/// Progression-level role. Several roles may compete for one sonority.
pub enum BlackadderFunction {
    Dominant,
    SecondaryDominant,
    TritoneSubstitute,
    BackdoorDominant,
    SubdominantMinor,
    Predominant,
}

#[derive(Clone, Copy, Debug, Eq, Hash, PartialEq, Structural)]
/// A generative or voice-leading account, separate from chord function.
pub enum BlackadderOrigin {
    UpperStructureWithIndependentBass,
    SplitVoiceLeading,
    Incidental,
    ChordScaleSonority,
}

#[derive(Clone, Copy, Debug, Eq, Hash, PartialEq, Structural)]
/// Missing observations that a symbolic chord sequence cannot establish.
pub enum BlackadderObservationKind {
    VoiceLeading,
    Timing,
    MeterPosition,
    PartSeparation,
    MelodicScaleContext,
    AugmentedSixthResolution,
}

#[derive(Clone, Copy, Debug, PartialEq, Eq, Structural)]
/// Normalized facts that a MIDI, MusicXML or audio front end can provide.
pub struct BlackadderObservations {
    pub split_voice_leading: Option<bool>,
    pub incidental_formation: Option<bool>,
    pub whole_tone_context: Option<bool>,
    pub augmented_sixth_resolution: Option<bool>,
}

impl Default for BlackadderObservations {
    fn default() -> (r: Self)
        ensures
            r.split_voice_leading is None,
            r.incidental_formation is None,
            r.whole_tone_context is None,
            r.augmented_sixth_resolution is None,
    {
        BlackadderObservations {
            split_voice_leading: None,
            incidental_formation: None,
            whole_tone_context: None,
            augmented_sixth_resolution: None,
        }
    }
}

/// Abstract form of one Blackadder hypothesis.
pub struct InterpretationView {
    pub canonical_bass: SpelledNote,
    pub written_upper_root: SpelledNote,
    pub canonical_upper_root: SpelledNote,
    pub structure: BlackadderStructure,
    pub function: Option<BlackadderFunction>,
    pub origin: Option<BlackadderOrigin>,
    pub effective_root: Option<SpelledNote>,
    pub target_root: Option<SpelledNote>,
    pub scale: Option<BlackadderScale>,
    pub classification: ClassificationView,
    pub unresolved_observations: Seq<BlackadderObservationKind>,
}

#[derive(Clone, Debug, Eq, Hash, PartialEq)]
/// One factorized Blackadder hypothesis.
pub struct BlackadderInterpretation {
    /// Canonical root of the `{0,2,6,10}` representation: always the bass.
    pub canonical_bass: SpelledNote,
    /// Root written before `aug` in the original slash symbol.
    pub written_upper_root: SpelledNote,
    /// Display orientation of the augmented upper structure: the member a
    /// tritone above the bass.
    pub canonical_upper_root: SpelledNote,
    pub structure: BlackadderStructure,
    pub function: Option<BlackadderFunction>,
    pub origin: Option<BlackadderOrigin>,
    /// Root used when measuring functional motion.
    pub effective_root: Option<SpelledNote>,
    /// The following chord root when the progression establishes one.
    pub target_root: Option<SpelledNote>,
    pub scale: Option<BlackadderScale>,
    pub classification: HarmonicClassification,
    /// Empty when the available input supports the reading; otherwise the
    /// observations that would settle it.
    pub unresolved_observations: Vec<BlackadderObservationKind>,
}

impl View for BlackadderInterpretation {
    type V = InterpretationView;

    open spec fn view(&self) -> InterpretationView {
        InterpretationView {
            canonical_bass: self.canonical_bass,
            written_upper_root: self.written_upper_root,
            canonical_upper_root: self.canonical_upper_root,
            structure: self.structure,
            function: self.function,
            origin: self.origin,
            effective_root: self.effective_root,
            target_root: self.target_root,
            scale: self.scale,
            classification: self.classification@,
            unresolved_observations: self.unresolved_observations@,
        }
    }
}

impl BlackadderInterpretation {
    /// A copy with the same facts.
    pub fn duplicate(&self) -> (r: Self)
        ensures
            r@ == self@,
    {
        let unresolved_observations = self.unresolved_observations.clone();
        assert(unresolved_observations@ =~= self.unresolved_observations@);
        BlackadderInterpretation {
            canonical_bass: self.canonical_bass,
            written_upper_root: self.written_upper_root,
            canonical_upper_root: self.canonical_upper_root,
            structure: self.structure,
            function: self.function,
            origin: self.origin,
            effective_root: self.effective_root,
            target_root: self.target_root,
            scale: self.scale,
            classification: self.classification.duplicate(),
            unresolved_observations,
        }
    }
}

#[derive(Clone, Copy, Debug)]
/// Optional observations and symbolic context supplied to local analysis.
pub struct BlackadderContext<'a> {
    pub tonic: Option<SpelledNote>,
    pub previous_chord: Option<&'a ParsedChord>,
    pub next_chord: Option<&'a ParsedChord>,
    pub observations: Option<&'a BlackadderObservations>,
}

impl<'a> Default for BlackadderContext<'a> {
    fn default() -> (r: Self)
        ensures
            r.tonic is None,
            r.previous_chord is None,
            r.next_chord is None,
            r.observations is None,
    {
        BlackadderContext { tonic: None, previous_chord: None, next_chord: None, observations: None }
    }
}

/// Abstract form of a scored reading.
pub struct ReadingView {
    pub interpretation: InterpretationView,
    pub alter: Seq<char>,
    pub root_override: Option<SpelledNote>,
    pub bass_preference: Option<bool>,
    pub intrinsic_score: int,
    pub evidence: Seq<EvidenceView>,
}

#[derive(Clone, Debug)]
/// A reading with its display label and score (in hundredths).
pub struct ScoredBlackadder {
    pub interpretation: BlackadderInterpretation,
    pub alter: String,
    pub root_override: Option<SpelledNote>,
    pub bass_preference: Option<bool>,
    pub intrinsic_score: i64,
    pub evidence: Vec<ScoreEvidence>,
}

pub open spec fn evidence_views(e: Seq<ScoreEvidence>) -> Seq<EvidenceView> {
    e.map_values(|x: ScoreEvidence| x@)
}

impl View for ScoredBlackadder {
    type V = ReadingView;

    open spec fn view(&self) -> ReadingView {
        ReadingView {
            interpretation: self.interpretation@,
            alter: self.alter@,
            root_override: self.root_override,
            bass_preference: self.bass_preference,
            intrinsic_score: self.intrinsic_score as int,
            evidence: evidence_views(self.evidence@),
        }
    }
}

pub open spec fn pc(n: SpelledNote) -> int {
    n.spec_pitch_class()
}

/// Upward distance in semitones from `reference` to `n`.
pub open spec fn dist(n: SpelledNote, reference: SpelledNote) -> int {
    (pc(n) - pc(reference)) % 12
}

/// Pitch classes of the augmented triad on `root`.
pub open spec fn aug_pc_set(root: SpelledNote) -> Set<int> {
    set![pc(root), (pc(root) + 4) % 12, (pc(root) + 8) % 12]
}

/// The augmented triad on `root` measured upward from `bass`.
pub open spec fn blackadder_relative(root: SpelledNote, bass: SpelledNote) -> Set<int> {
    set![(pc(root) - pc(bass)) % 12, ((pc(root) + 4) % 12 - pc(bass)) % 12, ((pc(root) + 8) % 12 - pc(bass)) % 12]
}

/// An augmented triad over `bass` forms the exact `{0,2,6,10}` sonority.
pub open spec fn exact_blackadder_shape(root: SpelledNote, bass: SpelledNote) -> bool {
    blackadder_relative(root, bass) == set![2int, 6, 10]
}

/// The exact shape depends only on the root's distance above the bass.
pub proof fn lemma_exact_shape_distance(root: SpelledNote, bass: SpelledNote)
    ensures
        exact_blackadder_shape(root, bass) <==> (dist(root, bass) == 2 || dist(root, bass) == 6 || dist(root, bass)
            == 10),
{
    let d = dist(root, bass);
    let r = pc(root);
    let b = pc(bass);
    assert(((r + 4) % 12 - b) % 12 == (d + 4) % 12);
    assert(((r + 8) % 12 - b) % 12 == (d + 8) % 12);
    let rel = blackadder_relative(root, bass);
    if d == 2 || d == 6 || d == 10 {
        assert(rel =~= set![2int, 6, 10]);
    } else {
        assert(rel.contains(d));
        assert(!set![2int, 6, 10].contains(d));
    }
}

pub fn has_exact_blackadder_shape(chord: &ParsedChord, bass: SpelledNote) -> (r: bool)
    ensures
        r == exact_blackadder_shape(chord.root, bass),
{
    proof {
        lemma_exact_shape_distance(chord.root, bass);
    }
    let d = semitone_distance(chord.root, bass);
    d == 2 || d == 6 || d == 10
}

/// Two augmented triads share their pitch classes exactly when their roots
/// are a multiple of a major third apart.
pub proof fn lemma_aug_set_equal(a: SpelledNote, b: SpelledNote)
    ensures
        aug_pc_set(a) == aug_pc_set(b) <==> dist(a, b) % 4 == 0,
{
    let d = dist(a, b);
    let x = pc(a);
    let y = pc(b);
    if d % 4 == 0 {
        assert(aug_pc_set(a) =~= aug_pc_set(b));
    } else {
        assert(aug_pc_set(a).contains(x));
        assert(!aug_pc_set(b).contains(x));
    }
}

/// The previous chord is an augmented triad with the same pitch classes as
/// this chord's upper structure.
pub open spec fn repeats_upper(chord: ParsedChord, previous: Option<&ParsedChord>) -> bool {
    match previous {
        Some(p) => p.quality_parsed.class == QualityClass::Augmented && aug_pc_set(p.root) == aug_pc_set(chord.root),
        None => false,
    }
}

fn repeats_augmented_upper_structure(chord: &ParsedChord, previous_chord: Option<&ParsedChord>) -> (r: bool)
    ensures
        r == repeats_upper(*chord, previous_chord),
{
    let previous = match previous_chord {
        Some(p) => p,
        None => {
            return false;
        },
    };
    if !matches!(previous.quality_parsed.class, QualityClass::Augmented) {
        return false;
    }
    proof {
        lemma_aug_set_equal(previous.root, chord.root);
    }
    semitone_distance(previous.root, chord.root) % 4 == 0
}

/// `x` is one of the four pitch classes `{0,2,6,10}` above `bass`.
pub open spec fn in_blackadder_set(bass: SpelledNote, x: int) -> bool {
    x == pc(bass) || x == (pc(bass) + 2) % 12 || x == (pc(bass) + 6) % 12 || x == (pc(bass) + 10) % 12
}

fn blackadder_set_contains(bass: SpelledNote, x: PitchClass) -> (r: bool)
    ensures
        r == in_blackadder_set(bass, x@),
{
    let root = bass.pitch_class();
    let v = x.value();
    let _ = root.value();
    v == root.value() || v == root.offset(2).value() || v == root.offset(6).value() || v == root.offset(10).value()
}

/// Preferred accidental implied by the bass's motion to the next root: up a
/// semitone sharpens, down a semitone flattens.
pub open spec fn resolution_preference(bass: SpelledNote, next: Option<&ParsedChord>) -> Option<bool> {
    match next {
        Some(n) => if dist(n.root, bass) == 1 {
            Some(true)
        } else if dist(n.root, bass) == 11 {
            Some(false)
        } else {
            None
        },
        None => None,
    }
}

pub fn bass_preference_from_resolution(bass: SpelledNote, next_chord: Option<&ParsedChord>) -> (r: Option<bool>)
    ensures
        r == resolution_preference(bass, next_chord),
{
    let next = match next_chord {
        Some(n) => n,
        None => {
            return None;
        },
    };
    let d = semitone_distance(next.root, bass);
    if d == 1 {
        Some(true)
    } else if d == 11 {
        Some(false)
    } else {
        None
    }
}

/// Dominant-type function established by the root motion to the next chord,
/// heard from the bass-rooted dominant view.
pub open spec fn dominant_function(
    bass: SpelledNote,
    tonic: Option<SpelledNote>,
    next: Option<&ParsedChord>,
    behavior: BehaviorProfile,
) -> Option<BlackadderFunction> {
    match next {
        Some(n) => if !tonic_for(*n, behavior) {
            None
        } else if dist(n.root, bass) == 11 {
            Some(BlackadderFunction::TritoneSubstitute)
        } else if dist(n.root, bass) == 5 {
            if tonic matches Some(t) && pc(t) == pc(n.root) {
                Some(BlackadderFunction::Dominant)
            } else {
                Some(BlackadderFunction::SecondaryDominant)
            }
        } else if dist(n.root, bass) == 2 {
            Some(BlackadderFunction::BackdoorDominant)
        } else {
            None
        },
        None => None,
    }
}

fn dominant_function_from_next(
    bass: SpelledNote,
    tonic: Option<SpelledNote>,
    next: Option<&ParsedChord>,
    behavior: BehaviorProfile,
) -> (r: (Option<BlackadderFunction>, Option<SpelledNote>))
    ensures
        r.0 == dominant_function(bass, tonic, next, behavior),
        r.1 == (match (r.0, next) {
            (Some(_), Some(n)) => Some(n.root),
            _ => None,
        }),
{
    let n = match next {
        Some(n) => n,
        None => {
            return (None, None);
        },
    };
    let distance = semitone_distance(n.root, bass);
    let function = if (distance == 11 || distance == 5 || distance == 2) && is_tonic_for(n, behavior) {
        if distance == 11 {
            Some(BlackadderFunction::TritoneSubstitute)
        } else if distance == 5 {
            let same_tonic = match tonic {
                Some(t) => t.pitch_class().value() == n.root.pitch_class().value(),
                None => false,
            };
            if same_tonic {
                Some(BlackadderFunction::Dominant)
            } else {
                Some(BlackadderFunction::SecondaryDominant)
            }
        } else {
            Some(BlackadderFunction::BackdoorDominant)
        }
    } else {
        None
    };
    match function {
        Some(_) => (function, Some(n.root)),
        None => (None, None),
    }
}

/// Letter steps from `reference` up to `note`, in `0..7`.
pub open spec fn letter_distance(note: NoteLetter, reference: NoteLetter) -> int {
    (letter_index(note) + 7 - letter_index(reference)) % 7
}

fn diatonic_distance(note: NoteLetter, reference: NoteLetter) -> (r: usize)
    ensures
        r == letter_distance(note, reference),
{
    (note.index() + 7 - reference.index()) % 7
}

/// The written chord tone `semitones` above `bass`, if the chord spells one.
pub open spec fn upper_tone_at(chord: ParsedChord, bass: SpelledNote, semitones: int, behavior: BehaviorProfile) -> Option<
    SpelledNote,
> {
    let tones = spelled_tones_of(chord, chord.root, behavior);
    let key = ((pc(bass) + semitones) % 12) as u8;
    if tones.contains_key(key) {
        Some(tones[key])
    } else {
        None
    }
}

/// How the chord spells the tritone above the bass.
pub open spec fn tritone_spelling_of(chord: ParsedChord, bass: SpelledNote, behavior: BehaviorProfile) -> TritoneSpelling {
    match upper_tone_at(chord, bass, 6, behavior) {
        Some(n) => if letter_distance(n.letter, bass.letter) == 3 {
            TritoneSpelling::SharpEleventh
        } else if letter_distance(n.letter, bass.letter) == 4 {
            TritoneSpelling::FlatFifth
        } else {
            TritoneSpelling::Ambiguous
        },
        None => TritoneSpelling::Ambiguous,
    }
}

/// The chord tone `semitones` above `bass`, looked up by pitch class.
fn upper_tone(
    chord: &ParsedChord,
    bass: SpelledNote,
    semitones: i16,
    behavior: BehaviorProfile,
) -> (r: Option<SpelledNote>)
    requires
        0 <= semitones < 12,
        behavior == BehaviorProfile::StrictV1 ==> alterations_fit(chord.quality_parsed.parts()),
    ensures
        r == upper_tone_at(*chord, bass, semitones as int, behavior),
{
    let tones = spelled_tones_for(chord, chord.root, behavior);
    let key = bass.pitch_class().offset(semitones).value();
    match tones.get(&key) {
        Some(n) => Some(*n),
        None => None,
    }
}

fn classify_tritone_spelling(chord: &ParsedChord, bass: SpelledNote, behavior: BehaviorProfile) -> (r: TritoneSpelling)
    requires
        behavior == BehaviorProfile::StrictV1 ==> alterations_fit(chord.quality_parsed.parts()),
    ensures
        r == tritone_spelling_of(*chord, bass, behavior),
{
    match upper_tone(chord, bass, 6, behavior) {
        Some(n) => {
            let d = diatonic_distance(n.letter, bass.letter);
            if d == 3 {
                TritoneSpelling::SharpEleventh
            } else if d == 4 {
                TritoneSpelling::FlatFifth
            } else {
                TritoneSpelling::Ambiguous
            }
        },
        None => TritoneSpelling::Ambiguous,
    }
}

/// The ten-semitone member is written as a sixth above the bass.
pub open spec fn spelled_augmented_sixth(chord: ParsedChord, bass: SpelledNote, behavior: BehaviorProfile) -> bool {
    upper_tone_at(chord, bass, 10, behavior) matches Some(n) && letter_distance(n.letter, bass.letter) == 5
}

fn contains_spelled_augmented_sixth(chord: &ParsedChord, bass: SpelledNote, behavior: BehaviorProfile) -> (r: bool)
    requires
        behavior == BehaviorProfile::StrictV1 ==> alterations_fit(chord.quality_parsed.parts()),
    ensures
        r == spelled_augmented_sixth(*chord, bass, behavior),
{
    match upper_tone(chord, bass, 10, behavior) {
        Some(n) => diatonic_distance(n.letter, bass.letter) == 5,
        None => false,
    }
}

/// The bass or a chord tone is the key's flat six, spelled on the sixth
/// letter above the tonic.
pub open spec fn spelled_flat_six(chord: ParsedChord, bass: SpelledNote, tonic: SpelledNote, behavior: BehaviorProfile) -> bool {
    let six = letter_at(letter_index(tonic.letter) + 5);
    let flat_six = (pc(tonic) + 8) % 12;
    (pc(bass) == flat_six && bass.letter == six) || {
        let tones = spelled_tones_of(chord, chord.root, behavior);
        tones.contains_key(flat_six as u8) && tones[flat_six as u8].letter == six
    }
}

fn contains_spelled_flat_six(chord: &ParsedChord, bass: SpelledNote, tonic: SpelledNote, behavior: BehaviorProfile) -> (r: bool)
    requires
        behavior == BehaviorProfile::StrictV1 ==> alterations_fit(chord.quality_parsed.parts()),
    ensures
        r == spelled_flat_six(*chord, bass, tonic, behavior),
{
    let flat_six_pc = tonic.pitch_class().offset(8);
    let flat_six_letter = tonic.letter.shift(5);
    if bass.pitch_class().value() == flat_six_pc.value() && bass.letter == flat_six_letter {
        return true;
    }
    let tones = spelled_tones_for(chord, chord.root, behavior);
    match tones.get(&flat_six_pc.value()) {
        Some(n) => n.letter == flat_six_letter,
        None => false,
    }
}

/// Perspective of a reading heard in `local_tonic` within `global_tonic`.
pub open spec fn perspective_of(global_tonic: SpelledNote, local_tonic: SpelledNote, mode: TonalMode) -> TonalPerspective {
    TonalPerspective {
        global_tonic,
        local_tonic,
        local_tonic_degree: spelled_degree(local_tonic, global_tonic),
        scope: if pc(local_tonic) == pc(global_tonic) {
            TonalScope::Global
        } else {
            TonalScope::Tonicization
        },
        mode,
    }
}

pub fn tonal_perspective(global_tonic: SpelledNote, local_tonic: SpelledNote, mode: TonalMode) -> (r: TonalPerspective)
    ensures
        r == perspective_of(global_tonic, local_tonic, mode),
{
    TonalPerspective {
        global_tonic,
        local_tonic,
        local_tonic_degree: degree_from_spelling(local_tonic, global_tonic),
        scope: if local_tonic.pitch_class().value() == global_tonic.pitch_class().value() {
            TonalScope::Global
        } else {
            TonalScope::Tonicization
        },
        mode,
    }
}

/// Mode suggested by a target chord's quality class.
pub open spec fn mode_of_class(class: QualityClass) -> TonalMode {
    match class {
        QualityClass::Major => TonalMode::Major,
        QualityClass::Minor | QualityClass::Diminished | QualityClass::HalfDiminished => TonalMode::Minor,
        _ => TonalMode::Unknown,
    }
}

pub fn mode_of_quality(class: QualityClass) -> (r: TonalMode)
    ensures
        r == mode_of_class(class),
{
    match class {
        QualityClass::Major => TonalMode::Major,
        QualityClass::Minor | QualityClass::Diminished | QualityClass::HalfDiminished => TonalMode::Minor,
        QualityClass::Augmented | QualityClass::Suspended2 | QualityClass::Suspended4 | QualityClass::Power
        | QualityClass::Unknown => TonalMode::Unknown,
    }
}

pub fn tonal_mode(chord: &ParsedChord) -> (r: TonalMode)
    ensures
        r == mode_of_class(chord.quality_parsed.class),
{
    match chord.quality_parsed.class {
        QualityClass::Major => TonalMode::Major,
        QualityClass::Minor | QualityClass::Diminished | QualityClass::HalfDiminished => TonalMode::Minor,
        QualityClass::Augmented | QualityClass::Suspended2 | QualityClass::Suspended4 | QualityClass::Power
        | QualityClass::Unknown => TonalMode::Unknown,
    }
}


/// Rule identifiers and explanations of the built-in readings.
pub const RULE_UPPER_AUGMENTED: &'static str = "builtin.blackadder.structure.upper_augmented";
pub const WHY_UPPER_RETAINED: &'static str = "Augmented upper structure is retained from the preceding augmented chord while the bass changes";
pub const WHY_UPPER_EXACT: &'static str = "Exact {0,2,6,10} sonority written as an augmented triad over an independent bass";
pub const RULE_DOMINANT_NINTH: &'static str = "builtin.blackadder.structure.dominant_ninth";
pub const WHY_DOMINANT_NINTH: &'static str = "Blackadder core read as a bass-rooted dominant ninth with omitted third and fifth";
pub const RULE_HALF_DIMINISHED: &'static str = "builtin.blackadder.structure.half_diminished";
pub const WHY_HALF_DIMINISHED: &'static str = "Blackadder core read as m7b5(add9) with the minor third omitted";
pub const RULE_AUG7: &'static str = "builtin.blackadder.structure.aug7_inversion";
pub const WHY_AUG7: &'static str = "Blackadder core read as an augmented-seventh chord in third inversion";
pub const RULE_WHOLE_TONE: &'static str = "builtin.blackadder.structure.whole_tone";
pub const WHY_WHOLE_TONE: &'static str = "Blackadder core is a subset of one whole-tone collection";
pub const RULE_SDM_SPELLED: &'static str = "builtin.blackadder.function.sdm.spelled_flat_six";
pub const RULE_SDM_ENHARMONIC: &'static str = "builtin.blackadder.function.sdm.enharmonic_flat_six";
pub const WHY_SDM: &'static str = "The sonority contains the current key's flat-six scale degree and supports an SDm reading";
pub const RULE_AUGMENTED_SIXTH: &'static str = "builtin.blackadder.structure.augmented_sixth";
pub const WHY_AUGMENTED_SIXTH: &'static str = "The ten-semitone member is spelled as an augmented sixth above the bass";
pub const RULE_SPLIT: &'static str = "builtin.blackadder.origin.split_voice_leading";
pub const WHY_SPLIT: &'static str = "Upper structure and bass may be independent melodic lines";
pub const RULE_INCIDENTAL: &'static str = "builtin.blackadder.origin.incidental";
pub const WHY_INCIDENTAL: &'static str = "A short weak-beat sonority assembled across parts may be incidental";
pub const RULE_ROOTLESS: &'static str = "builtin.blackadder.structure.rootless_dominant_third_in_bass";
pub const WHY_ROOTLESS: &'static str = "The same notes support a rootless dominant whose third is the written bass";
pub const FALLBACK_NOTE: &'static str = "; retained as a low-confidence fallback because no conventional function is established";

/// A hypothesis with no classification yet.
pub open spec fn interp_of(
    canonical_bass: SpelledNote,
    written_upper_root: SpelledNote,
    canonical_upper_root: SpelledNote,
    structure: BlackadderStructure,
    function: Option<BlackadderFunction>,
    origin: Option<BlackadderOrigin>,
    effective_root: Option<SpelledNote>,
    target_root: Option<SpelledNote>,
    scale: Option<BlackadderScale>,
    unresolved_observations: Seq<BlackadderObservationKind>,
) -> InterpretationView {
    InterpretationView {
        canonical_bass,
        written_upper_root,
        canonical_upper_root,
        structure,
        function,
        origin,
        effective_root,
        target_root,
        scale,
        classification: empty_classification(),
        unresolved_observations,
    }
}

#[allow(clippy::too_many_arguments)]
fn interpretation(
    canonical_bass: SpelledNote,
    written_upper_root: SpelledNote,
    canonical_upper_root: SpelledNote,
    structure: BlackadderStructure,
    function: Option<BlackadderFunction>,
    origin: Option<BlackadderOrigin>,
    effective_root: Option<SpelledNote>,
    target_root: Option<SpelledNote>,
    scale: Option<BlackadderScale>,
    unresolved_observations: Vec<BlackadderObservationKind>,
) -> (r: BlackadderInterpretation)
    ensures
        r@ == interp_of(
            canonical_bass,
            written_upper_root,
            canonical_upper_root,
            structure,
            function,
            origin,
            effective_root,
            target_root,
            scale,
            unresolved_observations@,
        ),
{
    BlackadderInterpretation {
        canonical_bass,
        written_upper_root,
        canonical_upper_root,
        structure,
        function,
        origin,
        effective_root,
        target_root,
        scale,
        classification: HarmonicClassification::default(),
        unresolved_observations,
    }
}

/// A dominant-type function.
pub open spec fn is_dominant_function(f: Option<BlackadderFunction>) -> bool {
    f == Some(BlackadderFunction::Dominant) || f == Some(BlackadderFunction::SecondaryDominant) || f == Some(
        BlackadderFunction::TritoneSubstitute,
    ) || f == Some(BlackadderFunction::BackdoorDominant)
}

/// Multi-axis classification of a hypothesis: role from its function,
/// dominant relation and families from its function, sources from its
/// scale, families from its structure and origin, and a tonal perspective
/// when the context names a tonic.
pub open spec fn classify_view(i: InterpretationView, ctx: BlackadderContext) -> ClassificationView {
    let base = if is_dominant_function(i.function) {
        role_classification(HarmonicRole::Dominant)
    } else if i.function == Some(BlackadderFunction::Predominant) {
        role_classification(HarmonicRole::Predominant)
    } else if i.function == Some(BlackadderFunction::SubdominantMinor) {
        role_classification(HarmonicRole::Subdominant)
    } else if i.origin == Some(BlackadderOrigin::SplitVoiceLeading) || i.origin == Some(BlackadderOrigin::Incidental)
        || i.structure == BlackadderStructure::WholeToneSubset {
        role_classification(HarmonicRole::NonFunctional)
    } else {
        empty_classification()
    };
    let c1 = match i.function {
        Some(BlackadderFunction::Dominant) | Some(BlackadderFunction::SecondaryDominant) => ClassificationView {
            dominant_relation: Some(DominantRelation::FifthRelated),
            ..base
        },
        Some(BlackadderFunction::TritoneSubstitute) => with_family(
            ClassificationView { dominant_relation: Some(DominantRelation::TritoneSubstitute), ..base },
            InterpretationFamily::TritoneSubstitute,
        ),
        Some(BlackadderFunction::BackdoorDominant) => {
            let c = with_family(
                ClassificationView { dominant_relation: Some(DominantRelation::Backdoor), ..base },
                InterpretationFamily::Backdoor,
            );
            if ctx.tonic matches Some(t) && in_blackadder_set(i.canonical_bass, (pc(t) + 8) % 12) {
                with_family(with_source(c, HarmonicSource::SubdominantMinor), InterpretationFamily::SubdominantMinor)
            } else {
                c
            }
        },
        Some(BlackadderFunction::SubdominantMinor) => with_family(
            with_source(base, HarmonicSource::SubdominantMinor),
            InterpretationFamily::SubdominantMinor,
        ),
        _ => base,
    };
    let c2 = match i.scale {
        Some(BlackadderScale::LydianDominant) => with_source(c1, HarmonicSource::LydianDominant),
        Some(BlackadderScale::LocrianNaturalTwo) => with_source(c1, HarmonicSource::LocrianNaturalTwo),
        Some(BlackadderScale::WholeTone(_)) => with_family(
            with_source(c1, HarmonicSource::WholeTone),
            InterpretationFamily::WholeTone,
        ),
        None => c1,
    };
    let c3 = if i.structure == BlackadderStructure::AugmentedSixth {
        with_family(c2, InterpretationFamily::AugmentedSixth)
    } else {
        c2
    };
    let c4 = match i.origin {
        Some(BlackadderOrigin::SplitVoiceLeading) => with_family(c3, InterpretationFamily::SplitVoiceLeading),
        Some(BlackadderOrigin::Incidental) => with_family(c3, InterpretationFamily::Incidental),
        _ => c3,
    };
    let local = match ctx.tonic {
        Some(g) => if c4.role == Some(HarmonicRole::Dominant) {
            i.target_root
        } else if c4.role == Some(HarmonicRole::Predominant) || c4.role == Some(HarmonicRole::Subdominant) {
            Some(g)
        } else {
            None
        },
        None => None,
    };
    match (ctx.tonic, local) {
        (Some(g), Some(l)) => {
            let mode = match ctx.next_chord {
                Some(n) => if pc(n.root) == pc(l) {
                    mode_of_class(n.quality_parsed.class)
                } else {
                    TonalMode::Unknown
                },
                None => TonalMode::Unknown,
            };
            ClassificationView { perspective: Some(perspective_of(g, l, mode)), ..c4 }
        },
        _ => c4,
    }
}

fn classification_for(i: &BlackadderInterpretation, context: BlackadderContext) -> (r: HarmonicClassification)
    ensures
        r@ == classify_view(i@, context),
{
    let function = i.function;
    let dominant_like = match function {
        Some(BlackadderFunction::Dominant) | Some(BlackadderFunction::SecondaryDominant) | Some(
            BlackadderFunction::TritoneSubstitute,
        ) | Some(BlackadderFunction::BackdoorDominant) => true,
        _ => false,
    };
    let mut c = if dominant_like {
        HarmonicClassification::with_role(HarmonicRole::Dominant)
    } else if matches!(function, Some(BlackadderFunction::Predominant)) {
        HarmonicClassification::with_role(HarmonicRole::Predominant)
    } else if matches!(function, Some(BlackadderFunction::SubdominantMinor)) {
        HarmonicClassification::with_role(HarmonicRole::Subdominant)
    } else if matches!(i.origin, Some(BlackadderOrigin::SplitVoiceLeading) | Some(BlackadderOrigin::Incidental))
        || matches!(i.structure, BlackadderStructure::WholeToneSubset) {
        HarmonicClassification::with_role(HarmonicRole::NonFunctional)
    } else {
        HarmonicClassification::default()
    };
    match function {
        Some(BlackadderFunction::Dominant) | Some(BlackadderFunction::SecondaryDominant) => {
            c.dominant_relation = Some(DominantRelation::FifthRelated);
        },
        Some(BlackadderFunction::TritoneSubstitute) => {
            c.dominant_relation = Some(DominantRelation::TritoneSubstitute);
            c.add_family(InterpretationFamily::TritoneSubstitute);
        },
        Some(BlackadderFunction::BackdoorDominant) => {
            c.dominant_relation = Some(DominantRelation::Backdoor);
            c.add_family(InterpretationFamily::Backdoor);
            // Backdoor motion and SDm borrowing answer different questions:
            // when the set holds the key's flat six, both facts are kept.
            let borrows = match context.tonic {
                Some(t) => blackadder_set_contains(i.canonical_bass, t.pitch_class().offset(8)),
                None => false,
            };
            if borrows {
                c.add_source(HarmonicSource::SubdominantMinor);
                c.add_family(InterpretationFamily::SubdominantMinor);
            }
        },
        Some(BlackadderFunction::SubdominantMinor) => {
            c.add_source(HarmonicSource::SubdominantMinor);
            c.add_family(InterpretationFamily::SubdominantMinor);
        },
        _ => {},
    }
    match i.scale {
        Some(BlackadderScale::LydianDominant) => {
            c.add_source(HarmonicSource::LydianDominant);
        },
        Some(BlackadderScale::LocrianNaturalTwo) => {
            c.add_source(HarmonicSource::LocrianNaturalTwo);
        },
        Some(BlackadderScale::WholeTone(_)) => {
            c.add_source(HarmonicSource::WholeTone);
            c.add_family(InterpretationFamily::WholeTone);
        },
        None => {},
    }
    if matches!(i.structure, BlackadderStructure::AugmentedSixth) {
        c.add_family(InterpretationFamily::AugmentedSixth);
    }
    match i.origin {
        Some(BlackadderOrigin::SplitVoiceLeading) => {
            c.add_family(InterpretationFamily::SplitVoiceLeading);
        },
        Some(BlackadderOrigin::Incidental) => {
            c.add_family(InterpretationFamily::Incidental);
        },
        _ => {},
    }
    // Dominants are heard from the key of the chord they target; SDm and
    // predominant roles from the caller's tonic.
    if let Some(global_tonic) = context.tonic {
        let local_tonic = match c.role {
            Some(HarmonicRole::Dominant) => i.target_root,
            Some(HarmonicRole::Predominant) | Some(HarmonicRole::Subdominant) => Some(global_tonic),
            _ => None,
        };
        if let Some(local_tonic) = local_tonic {
            let mode = match context.next_chord {
                Some(n) => if n.root.pitch_class().value() == local_tonic.pitch_class().value() {
                    tonal_mode(n)
                } else {
                    TonalMode::Unknown
                },
                None => TonalMode::Unknown,
            };
            c.perspective = Some(tonal_perspective(global_tonic, local_tonic, mode));
        }
    }
    c
}


/// A reading as produced, classified in `ctx`, with one evidence entry for
/// its generating rule.
pub open spec fn reading_of(
    ctx: BlackadderContext,
    i: InterpretationView,
    alter: Seq<char>,
    root_override: Option<SpelledNote>,
    bass_preference: Option<bool>,
    score: int,
    rule: Seq<char>,
    why: Seq<char>,
) -> ReadingView {
    ReadingView {
        interpretation: InterpretationView { classification: classify_view(i, ctx), ..i },
        alter,
        root_override,
        bass_preference,
        intrinsic_score: score,
        evidence: seq![EvidenceView { rule_id: rule, contribution: score, explanation: why }],
    }
}

pub open spec fn views_of(s: Seq<ScoredBlackadder>) -> Seq<ReadingView> {
    s.map_values(|r: ScoredBlackadder| r@)
}

#[allow(clippy::too_many_arguments)]
fn make_reading(
    context: BlackadderContext,
    interpretation: BlackadderInterpretation,
    alter: String,
    root_override: Option<SpelledNote>,
    bass_preference: Option<bool>,
    score: i64,
    rule: &str,
    why: &str,
) -> (r: ScoredBlackadder)
    ensures
        r@ == reading_of(context, interpretation@, alter@, root_override, bass_preference, score as int, rule@, why@),
{
    let mut interpretation = interpretation;
    interpretation.classification = classification_for(&interpretation, context);
    let evidence = vec![ScoreEvidence::new(rule, score, why)];
    let r = ScoredBlackadder { interpretation, alter, root_override, bass_preference, intrinsic_score: score, evidence };
    assert(evidence_views(r.evidence@) =~= seq![EvidenceView { rule_id: rule@, contribution: score as int, explanation: why@ }]);
    r
}

fn push_reading(readings: &mut Vec<ScoredBlackadder>, r: ScoredBlackadder)
    ensures
        views_of(final(readings)@) == views_of(old(readings)@).push(r@),
{
    readings.push(r);
    assert(views_of(readings@) =~= views_of(old(readings)@).push(r@));
}

/// Score of an observation-dependent reading: `unknown` until the
/// observation is made, then `yes` or `no`.
pub open spec fn observed_score(flag: Option<bool>, unknown: int, yes: int, no: int) -> int {
    match flag {
        Some(true) => yes,
        Some(false) => no,
        None => unknown,
    }
}

/// An observation still required: none once it has been made, either way.
pub open spec fn still_required(flag: Option<bool>, kind: BlackadderObservationKind) -> Seq<BlackadderObservationKind> {
    if flag is Some {
        Seq::empty()
    } else {
        seq![kind]
    }
}

fn observation_score(flag: Option<bool>, unknown: i64, yes: i64, no: i64) -> (r: i64)
    ensures
        r == observed_score(flag, unknown as int, yes as int, no as int),
{
    match flag {
        Some(true) => yes,
        Some(false) => no,
        None => unknown,
    }
}

fn requirements(flag: Option<bool>, kind: BlackadderObservationKind) -> (r: Vec<BlackadderObservationKind>)
    ensures
        r@ == still_required(flag, kind),
{
    // A negative observation settles the question too: the reading stays
    // visible but is contradicted rather than awaiting more data.
    if flag.is_some() {
        Vec::new()
    } else {
        let r = vec![kind];
        assert(r@ =~= seq![kind]);
        r
    }
}

pub open spec fn whole_tone_flag(ctx: BlackadderContext) -> Option<bool> {
    match ctx.observations {
        Some(o) => o.whole_tone_context,
        None => None,
    }
}

pub open spec fn sixth_flag(ctx: BlackadderContext) -> Option<bool> {
    match ctx.observations {
        Some(o) => o.augmented_sixth_resolution,
        None => None,
    }
}

pub open spec fn split_flag(ctx: BlackadderContext) -> Option<bool> {
    match ctx.observations {
        Some(o) => o.split_voice_leading,
        None => None,
    }
}

pub open spec fn incidental_flag(ctx: BlackadderContext) -> Option<bool> {
    match ctx.observations {
        Some(o) => o.incidental_formation,
        None => None,
    }
}

pub open spec fn tonic_preference(tonic: Option<SpelledNote>) -> Option<bool> {
    match tonic {
        Some(t) => root_accidental_preference(t),
        None => None,
    }
}

/// The pitch class `target` written on `letter` with the nearest accidental.
pub open spec fn spelled_on(letter: NoteLetter, target: int) -> SpelledNote {
    SpelledNote { letter, accidental: signed_alteration(target - natural_semitones(letter)) as i8 }
}

/// Display root of the augmented upper structure: the member a tritone above
/// the canonical bass, spelled for the context's key.
pub open spec fn upper_root_of(cb: SpelledNote, ctx: BlackadderContext) -> SpelledNote {
    pitch_class_name((pc(cb) + 6) % 12, tonic_preference(ctx.tonic))
}

/// Root of the `aug7` reading: the member a major second above the bass,
/// on the next letter.
pub open spec fn aug7_root_of(cb: SpelledNote) -> SpelledNote {
    spelled_on(letter_at(letter_index(cb.letter) + 1), (pc(cb) + 2) % 12)
}

/// Root of the rootless dominant whose third is the bass.
pub open spec fn rootless_root_of(cb: SpelledNote, bass_preference: Option<bool>) -> SpelledNote {
    let anchor = pitch_class_name((pc(cb) + 6) % 12, bass_preference);
    spelled_on(letter_at(letter_index(anchor.letter) + 1), ((pc(cb) + 6) % 12 + 2) % 12)
}

pub open spec fn tension_text(t: TritoneSpelling) -> Seq<char> {
    if t == TritoneSpelling::FlatFifth {
        "b5"@
    } else {
        "#11"@
    }
}

/// Facts derived once from the symbol and shared by every reading.
#[derive(Clone, Copy)]
pub struct ShapeFacts {
    /// The written slash bass.
    pub bass: SpelledNote,
    pub bass_preference: Option<bool>,
    /// The bass respelled by its resolution.
    pub canonical_bass: SpelledNote,
    pub canonical_upper_root: SpelledNote,
    pub augmented_seventh_root: SpelledNote,
    pub root_override: Option<SpelledNote>,
    pub tritone_spelling: TritoneSpelling,
    pub whole_tone: WholeToneCollection,
    /// The previous chord sounded the same augmented triad.
    pub repeated: bool,
}

pub open spec fn facts_of(chord: ParsedChord, ctx: BlackadderContext, behavior: BehaviorProfile) -> ShapeFacts {
    let bass = chord.bass.unwrap();
    let bp = resolution_preference(bass, ctx.next_chord);
    let cb = pitch_class_name(pc(bass), bp);
    let cur = upper_root_of(cb, ctx);
    ShapeFacts {
        bass,
        bass_preference: bp,
        canonical_bass: cb,
        canonical_upper_root: cur,
        augmented_seventh_root: aug7_root_of(cb),
        root_override: if chord.root != cur {
            Some(cur)
        } else {
            None
        },
        tritone_spelling: tritone_spelling_of(chord, cb, behavior),
        whole_tone: if pc(cb) % 2 == 0 {
            WholeToneCollection::EvenPitchClasses
        } else {
            WholeToneCollection::OddPitchClasses
        },
        repeated: repeats_upper(chord, ctx.previous_chord),
    }
}

/// `Xaug/B`: the canonical upper triad over the canonical bass.
pub open spec fn upper_label_of(f: ShapeFacts) -> Seq<char> {
    note_text(f.canonical_upper_root) + "aug/"@ + note_text(f.canonical_bass)
}

/// `B7(9,#11)` or `B7(9,b5)`: the bass-rooted dominant ninth.
pub open spec fn dominant_label_of(f: ShapeFacts) -> Seq<char> {
    note_text(f.canonical_bass) + "7(9,"@ + tension_text(f.tritone_spelling) + ")"@
}

/// A hypothesis of this shape with the shared roots filled in.
pub open spec fn shaped(
    chord: ParsedChord,
    f: ShapeFacts,
    structure: BlackadderStructure,
    function: Option<BlackadderFunction>,
    origin: Option<BlackadderOrigin>,
    effective_root: Option<SpelledNote>,
    target_root: Option<SpelledNote>,
    scale: Option<BlackadderScale>,
    unresolved: Seq<BlackadderObservationKind>,
) -> InterpretationView {
    interp_of(f.canonical_bass, chord.root, f.canonical_upper_root, structure, function, origin, effective_root,
        target_root, scale, unresolved)
}

/// Readings 1-5: upper augmented triad, dominant ninth, half-diminished,
/// aug7 inversion and whole-tone subset, always present.
pub open spec fn core_part(chord: ParsedChord, ctx: BlackadderContext, f: ShapeFacts, behavior: BehaviorProfile) -> Seq<ReadingView> {
    let cb = f.canonical_bass;
    let ro = f.root_override;
    let bp = f.bass_preference;
    let dfn = dominant_function(cb, ctx.tonic, ctx.next_chord, behavior);
    let dtarget = match (dfn, ctx.next_chord) {
        (Some(_), Some(n)) => Some(n.root),
        _ => None,
    };
    let hd_target = match ctx.next_chord {
        Some(n) => if dominant_for(*n, behavior) {
            Some(n.root)
        } else {
            None
        },
        None => None,
    };
    let wtf = whole_tone_flag(ctx);
    seq![
        reading_of(ctx, shaped(chord, f, BlackadderStructure::AugmentedTriadOverBass, None,
            Some(BlackadderOrigin::UpperStructureWithIndependentBass), Some(f.canonical_upper_root), None, None,
            Seq::empty()), upper_label_of(f), ro, bp, if f.repeated { 125 } else { 25 }, RULE_UPPER_AUGMENTED@,
            if f.repeated { WHY_UPPER_RETAINED@ } else { WHY_UPPER_EXACT@ }),
        reading_of(ctx, shaped(chord, f, BlackadderStructure::DominantNinthOmitThirdAndFifth {
            tritone_spelling: f.tritone_spelling }, dfn, Some(BlackadderOrigin::ChordScaleSonority), Some(cb), dtarget,
            Some(BlackadderScale::LydianDominant), Seq::empty()), dominant_label_of(f), ro, bp, 0,
            RULE_DOMINANT_NINTH@, WHY_DOMINANT_NINTH@),
        reading_of(ctx, shaped(chord, f, BlackadderStructure::HalfDiminishedAddNineOmitThird,
            if hd_target is Some { Some(BlackadderFunction::Predominant) } else { None }, None, Some(cb), hd_target,
            Some(BlackadderScale::LocrianNaturalTwo), Seq::empty()), note_text(cb) + "m7-5(9)"@, ro, bp, 50,
            RULE_HALF_DIMINISHED@, WHY_HALF_DIMINISHED@),
        reading_of(ctx, shaped(chord, f, BlackadderStructure::AugmentedSeventhThirdInversion, None, None,
            Some(f.augmented_seventh_root), None, None, Seq::empty()), note_text(f.augmented_seventh_root) + "aug7/"@
            + note_text(cb), ro, bp, 0, RULE_AUG7@, WHY_AUG7@),
        reading_of(ctx, shaped(chord, f, BlackadderStructure::WholeToneSubset, None,
            Some(BlackadderOrigin::ChordScaleSonority), None, None, Some(BlackadderScale::WholeTone(f.whole_tone)),
            still_required(wtf, BlackadderObservationKind::MelodicScaleContext)), dominant_label_of(f), ro, bp,
            observed_score(wtf, -50, 300, -200), RULE_WHOLE_TONE@, WHY_WHOLE_TONE@),
    ]
}

/// Reading 6: subdominant minor, when the set holds the key's flat six.
pub open spec fn sdm_part(chord: ParsedChord, ctx: BlackadderContext, f: ShapeFacts, behavior: BehaviorProfile) -> Seq<ReadingView> {
    match ctx.tonic {
        Some(t) => if in_blackadder_set(f.canonical_bass, (pc(t) + 8) % 12) {
            let target = match ctx.next_chord {
                Some(n) => if pc(n.root) == pc(t) {
                    Some(n.root)
                } else {
                    None
                },
                None => None,
            };
            let exact = spelled_flat_six(chord, f.bass, t, behavior);
            seq![reading_of(ctx, shaped(chord, f, BlackadderStructure::AugmentedTriadOverBass,
                Some(BlackadderFunction::SubdominantMinor), Some(BlackadderOrigin::ChordScaleSonority),
                Some(f.canonical_bass), target, None, Seq::empty()), dominant_label_of(f), f.root_override,
                f.bass_preference, if exact { 100 } else { 35 },
                if exact { RULE_SDM_SPELLED@ } else { RULE_SDM_ENHARMONIC@ }, WHY_SDM@)]
        } else {
            Seq::empty()
        },
        None => Seq::empty(),
    }
}

/// Reading 7: augmented sixth, when the chord spells one above the bass.
pub open spec fn sixth_part(chord: ParsedChord, ctx: BlackadderContext, f: ShapeFacts, behavior: BehaviorProfile) -> Seq<ReadingView> {
    let a6f = sixth_flag(ctx);
    if spelled_augmented_sixth(chord, f.bass, behavior) {
        seq![reading_of(ctx, shaped(chord, f, BlackadderStructure::AugmentedSixth,
            Some(BlackadderFunction::Predominant), None, Some(f.canonical_bass), match ctx.next_chord {
                Some(n) => Some(n.root),
                None => None,
            }, None, still_required(a6f, BlackadderObservationKind::AugmentedSixthResolution)),
            note_text(f.canonical_bass) + "(+6,9,#11)"@, f.root_override, f.bass_preference,
            observed_score(a6f, 0, 350, -200), RULE_AUGMENTED_SIXTH@, WHY_AUGMENTED_SIXTH@)]
    } else {
        Seq::empty()
    }
}

/// Readings 8-9: split voice leading and incidental formation.
pub open spec fn lines_part(chord: ParsedChord, ctx: BlackadderContext, f: ShapeFacts) -> Seq<ReadingView> {
    let sf = split_flag(ctx);
    let inf = incidental_flag(ctx);
    seq![
        reading_of(ctx, shaped(chord, f, BlackadderStructure::AugmentedTriadOverBass, None,
            Some(BlackadderOrigin::SplitVoiceLeading), Some(f.canonical_upper_root), None, None,
            still_required(sf, BlackadderObservationKind::VoiceLeading)), upper_label_of(f), f.root_override,
            f.bass_preference, if f.repeated && sf is None { 300 } else { observed_score(sf, -100, 400, -300) },
            RULE_SPLIT@, WHY_SPLIT@),
        reading_of(ctx, shaped(chord, f, BlackadderStructure::AugmentedTriadOverBass, None,
            Some(BlackadderOrigin::Incidental), None, None, None, if inf is Some {
                Seq::empty()
            } else {
                seq![
                    BlackadderObservationKind::Timing,
                    BlackadderObservationKind::MeterPosition,
                    BlackadderObservationKind::PartSeparation,
                ]
            }), upper_label_of(f), f.root_override, f.bass_preference, observed_score(inf, -150, 400, -350),
            RULE_INCIDENTAL@, WHY_INCIDENTAL@),
    ]
}

/// Reading 10: the rootless dominant with the bass as its third, when its
/// root resolves to the next, tonic-like chord.
pub open spec fn rootless_part(chord: ParsedChord, ctx: BlackadderContext, f: ShapeFacts, behavior: BehaviorProfile) -> Seq<ReadingView> {
    match ctx.next_chord {
        Some(n) => {
            let dom = rootless_root_of(f.canonical_bass, f.bass_preference);
            if (dist(n.root, dom) == 5 || dist(n.root, dom) == 7) && tonic_for(*n, behavior) {
                seq![reading_of(ctx, shaped(chord, f, BlackadderStructure::RootlessDominantThirdInBass,
                    Some(BlackadderFunction::SecondaryDominant), None, Some(dom), Some(n.root),
                    Some(BlackadderScale::LydianDominant), Seq::empty()), note_text(dom) + "7(9,#11)/"@ + note_text(
                    f.canonical_bass), f.root_override, f.bass_preference, 0, RULE_ROOTLESS@, WHY_ROOTLESS@)]
            } else {
                Seq::empty()
            }
        },
        None => Seq::empty(),
    }
}

/// The readings in the order they are generated, each already classified.
#[verifier::opaque]
pub open spec fn raw_readings(chord: ParsedChord, ctx: BlackadderContext, behavior: BehaviorProfile) -> Seq<ReadingView> {
    let f = facts_of(chord, ctx, behavior);
    core_part(chord, ctx, f, behavior) + sdm_part(chord, ctx, f, behavior) + sixth_part(chord, ctx, f, behavior)
        + lines_part(chord, ctx, f) + rootless_part(chord, ctx, f, behavior)
}

/// A dominant-type reading over a retained augmented upper structure also
/// asks for voice-leading evidence.
pub open spec fn mark_voice_leading(r: ReadingView) -> ReadingView {
    if is_dominant_function(r.interpretation.function) {
        ReadingView {
            interpretation: InterpretationView {
                classification: with_family(r.interpretation.classification, InterpretationFamily::VoiceLeadingRequired),
                ..r.interpretation
            },
            ..r
        }
    } else {
        r
    }
}

/// Ranking floor of an unresolved observation-dependent reading.
pub open spec fn fallback_score(i: InterpretationView) -> Option<int> {
    if i.structure == BlackadderStructure::WholeToneSubset && i.unresolved_observations.contains(
        BlackadderObservationKind::MelodicScaleContext,
    ) {
        Some(20)
    } else if i.origin == Some(BlackadderOrigin::SplitVoiceLeading) && i.unresolved_observations.contains(
        BlackadderObservationKind::VoiceLeading,
    ) {
        Some(10)
    } else if i.origin == Some(BlackadderOrigin::Incidental) && i.unresolved_observations.len() > 0 {
        Some(5)
    } else {
        None
    }
}

/// `r` raised to its ranking floor, with the first evidence entry saying so.
pub open spec fn with_fallback(r: ReadingView) -> ReadingView {
    match fallback_score(r.interpretation) {
        Some(s) => ReadingView {
            intrinsic_score: s,
            evidence: if r.evidence.len() > 0 {
                r.evidence.update(
                    0,
                    EvidenceView {
                        contribution: s,
                        explanation: r.evidence[0].explanation + FALLBACK_NOTE@,
                        ..r.evidence[0]
                    },
                )
            } else {
                r.evidence
            },
            ..r
        },
        None => r,
    }
}

pub open spec fn has_function(s: Seq<ReadingView>) -> bool {
    exists|k: int| 0 <= k < s.len() && (#[trigger] s[k]).interpretation.function is Some
}

/// Every reading of an augmented-over-bass chord with the exact Blackadder
/// shape; none for any other chord.
///
/// When the preceding chord already sounded the same augmented triad, the
/// dominant-type readings are marked as needing voice-leading evidence.
/// When no reading has an established function, the unresolved
/// whole-tone, split and incidental readings are raised to small ranking
/// floors (`0.20`, `0.10`, `0.05`).
pub open spec fn blackadder_readings(chord: ParsedChord, ctx: BlackadderContext, behavior: BehaviorProfile) -> Seq<ReadingView> {
    match chord.bass {
        Some(bass) => if !exact_blackadder_shape(chord.root, bass) {
            Seq::empty()
        } else {
            let raw = raw_readings(chord, ctx, behavior);
            let marked = if repeats_upper(chord, ctx.previous_chord) {
                raw.map_values(|r: ReadingView| mark_voice_leading(r))
            } else {
                raw
            };
            if has_function(marked) {
                marked
            } else {
                marked.map_values(|r: ReadingView| with_fallback(r))
            }
        },
        None => Seq::empty(),
    }
}

/// A note named for pitch class `v` sounds that pitch class.
pub proof fn lemma_named_pitch_class(v: int, prefer_sharps: Option<bool>)
    requires
        0 <= v < 12,
    ensures
        pc(pitch_class_name(v, prefer_sharps)) == v,
{
    if v == 0 {
    } else if v == 1 {
    } else if v == 2 {
    } else if v == 3 {
    } else if v == 4 {
    } else if v == 5 {
    } else if v == 6 {
    } else if v == 7 {
    } else if v == 8 {
    } else if v == 9 {
    } else if v == 10 {
    } else {
    }
}

/// The reading keeps the written root and the shape's bass and upper root.
pub open spec fn keeps_shape(r: ReadingView, chord: ParsedChord, f: ShapeFacts) -> bool {
    &&& r.interpretation.written_upper_root == chord.root
    &&& r.interpretation.canonical_bass == f.canonical_bass
    &&& r.interpretation.canonical_upper_root == f.canonical_upper_root
}

pub open spec fn all_keep_shape(s: Seq<ReadingView>, chord: ParsedChord, f: ShapeFacts) -> bool {
    forall|k: int| 0 <= k < s.len() ==> keeps_shape(#[trigger] s[k], chord, f)
}

proof fn lemma_core_keep_shape(chord: ParsedChord, ctx: BlackadderContext, f: ShapeFacts, behavior: BehaviorProfile)
    ensures
        all_keep_shape(core_part(chord, ctx, f, behavior), chord, f),
        core_part(chord, ctx, f, behavior).len() == 5,
{
    let a = core_part(chord, ctx, f, behavior);
    assert forall|k: int| 0 <= k < a.len() implies keeps_shape(#[trigger] a[k], chord, f) by {
        if k == 0 {
        } else if k == 1 {
        } else if k == 2 {
        } else if k == 3 {
        } else {
        }
    }
}

proof fn lemma_optional_keep_shape(chord: ParsedChord, ctx: BlackadderContext, f: ShapeFacts, behavior: BehaviorProfile)
    ensures
        all_keep_shape(sdm_part(chord, ctx, f, behavior), chord, f),
        all_keep_shape(sixth_part(chord, ctx, f, behavior), chord, f),
        all_keep_shape(rootless_part(chord, ctx, f, behavior), chord, f),
{
}

proof fn lemma_lines_keep_shape(chord: ParsedChord, ctx: BlackadderContext, f: ShapeFacts)
    ensures
        all_keep_shape(lines_part(chord, ctx, f), chord, f),
{
    let d = lines_part(chord, ctx, f);
    assert forall|k: int| 0 <= k < d.len() implies keeps_shape(#[trigger] d[k], chord, f) by {
        if k == 0 {
        } else {
        }
    }
}

proof fn lemma_raw_keep_shape(chord: ParsedChord, ctx: BlackadderContext, behavior: BehaviorProfile)
    ensures
        all_keep_shape(raw_readings(chord, ctx, behavior), chord, facts_of(chord, ctx, behavior)),
        raw_readings(chord, ctx, behavior).len() >= 5,
{
    let f = facts_of(chord, ctx, behavior);
    let a = core_part(chord, ctx, f, behavior);
    let b = sdm_part(chord, ctx, f, behavior);
    let c = sixth_part(chord, ctx, f, behavior);
    let d = lines_part(chord, ctx, f);
    let e = rootless_part(chord, ctx, f, behavior);
    lemma_core_keep_shape(chord, ctx, f, behavior);
    lemma_optional_keep_shape(chord, ctx, f, behavior);
    lemma_lines_keep_shape(chord, ctx, f);
    lemma_concat_keep_shape(a, b, chord, f);
    lemma_concat_keep_shape(a + b, c, chord, f);
    lemma_concat_keep_shape(a + b + c, d, chord, f);
    lemma_concat_keep_shape(a + b + c + d, e, chord, f);
    reveal(raw_readings);
}

proof fn lemma_concat_keep_shape(a: Seq<ReadingView>, b: Seq<ReadingView>, chord: ParsedChord, f: ShapeFacts)
    requires
        all_keep_shape(a, chord, f),
        all_keep_shape(b, chord, f),
    ensures
        all_keep_shape(a + b, chord, f),
{
    assert forall|k: int| 0 <= k < (a + b).len() implies keeps_shape(#[trigger] (a + b)[k], chord, f) by {
        if k < a.len() {
            assert((a + b)[k] == a[k]);
        } else {
            assert((a + b)[k] == b[k - a.len()]);
        }
    }
}

proof fn lemma_finish_keep_shape(raw: Seq<ReadingView>, chord: ParsedChord, f: ShapeFacts, repeated: bool)
    requires
        all_keep_shape(raw, chord, f),
    ensures
        ({
            let marked = if repeated {
                raw.map_values(|x: ReadingView| mark_voice_leading(x))
            } else {
                raw
            };
            let r = if has_function(marked) {
                marked
            } else {
                marked.map_values(|x: ReadingView| with_fallback(x))
            };
            all_keep_shape(r, chord, f) && r.len() == raw.len()
        }),
{
    let marked = if repeated {
        raw.map_values(|x: ReadingView| mark_voice_leading(x))
    } else {
        raw
    };
    assert(all_keep_shape(marked, chord, f)) by {
        if repeated {
            assert forall|k: int| 0 <= k < marked.len() implies keeps_shape(#[trigger] marked[k], chord, f) by {
                assert(keeps_shape(raw[k], chord, f));
            }
        }
    }
    if !has_function(marked) {
        let r = marked.map_values(|x: ReadingView| with_fallback(x));
        assert forall|k: int| 0 <= k < r.len() implies keeps_shape(#[trigger] r[k], chord, f) by {
            assert(keeps_shape(marked[k], chord, f));
        }
    }
}

/// Blackadder readings exist exactly for a slash chord with the exact
/// augmented-over-bass shape. Every reading keeps the written upper root,
/// is rooted on the pitch class of the bass, and orients its augmented
/// upper triad a tritone above that bass.
#[verifier::rlimit(80)]
#[verifier::spinoff_prover]
pub proof fn lemma_blackadder_readings_shape(chord: ParsedChord, ctx: BlackadderContext, behavior: BehaviorProfile)
    ensures
        blackadder_readings(chord, ctx, behavior).len() > 0 <==> (chord.bass matches Some(b) && exact_blackadder_shape(
            chord.root,
            b,
        )),
        forall|k: int|
            0 <= k < blackadder_readings(chord, ctx, behavior).len() ==> {
                let i = (#[trigger] blackadder_readings(chord, ctx, behavior)[k]).interpretation;
                &&& i.written_upper_root == chord.root
                &&& pc(i.canonical_bass) == pc(chord.bass->0)
                &&& dist(i.canonical_upper_root, i.canonical_bass) == 6
            },
{
    let r = blackadder_readings(chord, ctx, behavior);
    if let Some(bass) = chord.bass {
        if exact_blackadder_shape(chord.root, bass) {
            let f = facts_of(chord, ctx, behavior);
            lemma_raw_keep_shape(chord, ctx, behavior);
            lemma_finish_keep_shape(raw_readings(chord, ctx, behavior), chord, f, repeats_upper(chord, ctx.previous_chord));
            assert(all_keep_shape(r, chord, f));
            lemma_named_pitch_class(pc(bass), f.bass_preference);
            lemma_named_pitch_class((pc(f.canonical_bass) + 6) % 12, tonic_preference(ctx.tonic));
            assert forall|k: int| 0 <= k < r.len() implies {
                let i = (#[trigger] r[k]).interpretation;
                &&& i.written_upper_root == chord.root
                &&& pc(i.canonical_bass) == pc(chord.bass->0)
                &&& dist(i.canonical_upper_root, i.canonical_bass) == 6
            } by {
                assert(keeps_shape(r[k], chord, f));
            }
        }
    }
}

fn note_label(a: SpelledNote, suffix: &str) -> (r: String)
    ensures
        r@ == note_text(a) + suffix@,
{
    let mut r = a.to_string();
    r.append(suffix);
    r
}

fn note_pair_label(a: SpelledNote, middle: &str, b: SpelledNote) -> (r: String)
    ensures
        r@ == note_text(a) + middle@ + note_text(b),
{
    let mut r = note_label(a, middle);
    let t = b.to_string();
    r.append(t.as_str());
    r
}

fn mark_readings(readings: Vec<ScoredBlackadder>) -> (r: Vec<ScoredBlackadder>)
    ensures
        views_of(r@) == views_of(readings@).map_values(|x: ReadingView| mark_voice_leading(x)),
{
    let ghost orig = readings@;
    let mut input = readings;
    let mut out: Vec<ScoredBlackadder> = Vec::new();
    let ghost mut k: int = 0;
    while input.len() > 0
        invariant
            0 <= k <= orig.len(),
            input@ == orig.skip(k),
            views_of(out@) == views_of(orig.take(k)).map_values(|x: ReadingView| mark_voice_leading(x)),
        decreases input.len(),
    {
        let mut r = input.remove(0);
        let ghost before = r@;
        let dominant_like = match r.interpretation.function {
            Some(BlackadderFunction::Dominant) | Some(BlackadderFunction::SecondaryDominant) | Some(
                BlackadderFunction::TritoneSubstitute,
            ) | Some(BlackadderFunction::BackdoorDominant) => true,
            _ => false,
        };
        if dominant_like {
            // The functional reading stays available, but symbols alone do
            // not settle whether the bass or the retained upper structure
            // governs hearing.
            r.interpretation.classification.add_family(InterpretationFamily::VoiceLeadingRequired);
        }
        assert(r@ == mark_voice_leading(before));
        let ghost prev_out = out@;
        push_reading(&mut out, r);
        proof {
            assert(orig.skip(k)[0] == orig[k]);
            assert(orig.skip(k + 1) =~= orig.skip(k).remove(0));
            assert(views_of(orig.take(k + 1)).map_values(|x: ReadingView| mark_voice_leading(x)) =~= views_of(
                orig.take(k),
            ).map_values(|x: ReadingView| mark_voice_leading(x)).push(mark_voice_leading(orig[k]@)));
            k = k + 1;
        }
    }
    assert(orig.take(k) =~= orig);
    out
}

fn any_function(readings: &Vec<ScoredBlackadder>) -> (r: bool)
    ensures
        r == has_function(views_of(readings@)),
{
    let mut i: usize = 0;
    while i < readings.len()
        invariant
            i <= readings.len(),
            forall|k: int| 0 <= k < i ==> (#[trigger] readings@[k]).interpretation.function is None,
        decreases readings.len() - i,
    {
        if readings[i].interpretation.function.is_some() {
            assert(views_of(readings@)[i as int].interpretation.function is Some);
            return true;
        }
        i = i + 1;
    }
    assert forall|k: int| 0 <= k < views_of(readings@).len() implies (#[trigger] views_of(
        readings@,
    )[k]).interpretation.function is None by {
        assert(readings@[k].interpretation.function is None);
    }
    false
}

fn fallback_of(r: &ScoredBlackadder) -> (s: Option<i64>)
    ensures
        s matches Some(v) ==> fallback_score(r.interpretation@) == Some(v as int),
        s is None ==> fallback_score(r.interpretation@) is None,
{
    let unresolved = &r.interpretation.unresolved_observations;
    let mut melodic = false;
    let mut voice = false;
    let mut i: usize = 0;
    while i < unresolved.len()
        invariant
            i <= unresolved.len(),
            melodic == exists|k: int| 0 <= k < i && unresolved@[k] == BlackadderObservationKind::MelodicScaleContext,
            voice == exists|k: int| 0 <= k < i && unresolved@[k] == BlackadderObservationKind::VoiceLeading,
        decreases unresolved.len() - i,
    {
        if unresolved[i] == BlackadderObservationKind::MelodicScaleContext {
            melodic = true;
        }
        if unresolved[i] == BlackadderObservationKind::VoiceLeading {
            voice = true;
        }
        i = i + 1;
    }
    assert(melodic == unresolved@.contains(BlackadderObservationKind::MelodicScaleContext));
    assert(voice == unresolved@.contains(BlackadderObservationKind::VoiceLeading));
    if matches!(r.interpretation.structure, BlackadderStructure::WholeToneSubset) && melodic {
        Some(20)
    } else if matches!(r.interpretation.origin, Some(BlackadderOrigin::SplitVoiceLeading)) && voice {
        Some(10)
    } else if matches!(r.interpretation.origin, Some(BlackadderOrigin::Incidental)) && unresolved.len() > 0 {
        Some(5)
    } else {
        None
    }
}

/// Raise unresolved observation-dependent readings to their ranking floors.
/// These floors change rank, not confidence: the unresolved-observation
/// lists stay intact.
fn rank_unresolved_fallbacks(readings: Vec<ScoredBlackadder>) -> (r: Vec<ScoredBlackadder>)
    ensures
        views_of(r@) == views_of(readings@).map_values(|x: ReadingView| with_fallback(x)),
{
    let ghost orig = readings@;
    let mut input = readings;
    let mut out: Vec<ScoredBlackadder> = Vec::new();
    let ghost mut k: int = 0;
    while input.len() > 0
        invariant
            0 <= k <= orig.len(),
            input@ == orig.skip(k),
            views_of(out@) == views_of(orig.take(k)).map_values(|x: ReadingView| with_fallback(x)),
        decreases input.len(),
    {
        let mut r = input.remove(0);
        let ghost before = r@;
        match fallback_of(&r) {
            Some(score) => {
                r.intrinsic_score = score;
                if r.evidence.len() > 0 {
                    let mut e = r.evidence.remove(0);
                    e.contribution = score;
                    e.explanation.append(FALLBACK_NOTE);
                    r.evidence.insert(0, e);
                    assert(evidence_views(r.evidence@) =~= before.evidence.update(
                        0,
                        EvidenceView {
                            contribution: score as int,
                            explanation: before.evidence[0].explanation + FALLBACK_NOTE@,
                            ..before.evidence[0]
                        },
                    ));
                }
            },
            None => {},
        }
        assert(r@ == with_fallback(before));
        push_reading(&mut out, r);
        proof {
            assert(orig.skip(k)[0] == orig[k]);
            assert(orig.skip(k + 1) =~= orig.skip(k).remove(0));
            assert(views_of(orig.take(k + 1)).map_values(|x: ReadingView| with_fallback(x)) =~= views_of(
                orig.take(k),
            ).map_values(|x: ReadingView| with_fallback(x)).push(with_fallback(orig[k]@)));
            k = k + 1;
        }
    }
    assert(orig.take(k) =~= orig);
    out
}



fn append_readings(readings: &mut Vec<ScoredBlackadder>, more: Vec<ScoredBlackadder>)
    ensures
        views_of(final(readings)@) == views_of(old(readings)@) + views_of(more@),
{
    let ghost extra = more@;
    let mut more = more;
    readings.append(&mut more);
    assert(views_of(readings@) =~= views_of(old(readings)@) + views_of(extra));
}

fn shape_facts(chord: &ParsedChord, context: BlackadderContext, behavior: BehaviorProfile) -> (f: ShapeFacts)
    requires
        chord.bass is Some,
        behavior == BehaviorProfile::StrictV1 ==> alterations_fit(chord.quality_parsed.parts()),
    ensures
        f == facts_of(*chord, context, behavior),
{
    let bass = chord.bass.unwrap();
    let bass_preference = bass_preference_from_resolution(bass, context.next_chord);
    let canonical_bass = name_of_pitch_class(bass.pitch_class(), bass_preference);
    let tonic_pref = match context.tonic {
        Some(t) => target_accidental_preference(t),
        None => None,
    };
    let cb_pc = canonical_bass.pitch_class();
    let canonical_upper_root = name_of_pitch_class(cb_pc.offset(6), tonic_pref);
    // The aug7 root is the member a major second above the bass.
    let augmented_seventh_root = spell_pitch_class(canonical_bass.letter.shift(1), cb_pc.offset(2));
    let root_override = if chord.root != canonical_upper_root {
        Some(canonical_upper_root)
    } else {
        None
    };
    // Classify the tritone against the respelled bass, so `Eaug/A# ->
    // Eaug/Bb` also turns `b5` into the consistent `#11`.
    let tritone_spelling = classify_tritone_spelling(chord, canonical_bass, behavior);
    let whole_tone = if cb_pc.value() % 2 == 0 {
        WholeToneCollection::EvenPitchClasses
    } else {
        WholeToneCollection::OddPitchClasses
    };
    let repeated = repeats_augmented_upper_structure(chord, context.previous_chord);
    ShapeFacts {
        bass,
        bass_preference,
        canonical_bass,
        canonical_upper_root,
        augmented_seventh_root,
        root_override,
        tritone_spelling,
        whole_tone,
        repeated,
    }
}

fn upper_label(f: ShapeFacts) -> (r: String)
    ensures
        r@ == upper_label_of(f),
{
    note_pair_label(f.canonical_upper_root, "aug/", f.canonical_bass)
}

fn dominant_label(f: ShapeFacts) -> (r: String)
    ensures
        r@ == dominant_label_of(f),
{
    let mut r = note_label(f.canonical_bass, "7(9,");
    match f.tritone_spelling {
        TritoneSpelling::FlatFifth => r.append("b5"),
        _ => r.append("#11"),
    }
    r.append(")");
    r
}

fn core_readings(chord: &ParsedChord, context: BlackadderContext, f: ShapeFacts, behavior: BehaviorProfile) -> (r: Vec<
    ScoredBlackadder,
>)
    ensures
        views_of(r@) == core_part(*chord, context, f, behavior),
{
    let cb = f.canonical_bass;
    let cur = f.canonical_upper_root;
    let ro = f.root_override;
    let bp = f.bass_preference;
    let mut readings: Vec<ScoredBlackadder> = Vec::new();

    // 1. The literal upper-structure view: least committal, and the
    // fallback when no function is established.
    push_reading(&mut readings, make_reading(context, interpretation(cb, chord.root, cur,
        BlackadderStructure::AugmentedTriadOverBass, None, Some(BlackadderOrigin::UpperStructureWithIndependentBass),
        Some(cur), None, None, Vec::new()), upper_label(f), ro, bp, if f.repeated { 125 } else { 25 },
        RULE_UPPER_AUGMENTED, if f.repeated { WHY_UPPER_RETAINED } else { WHY_UPPER_EXACT }));

    // 2. A bass-rooted dominant-tension structure is always possible; root
    // motion decides its function.
    let (dominant_fn, target_root) = dominant_function_from_next(cb, context.tonic, context.next_chord, behavior);
    push_reading(&mut readings, make_reading(context, interpretation(cb, chord.root, cur,
        BlackadderStructure::DominantNinthOmitThirdAndFifth { tritone_spelling: f.tritone_spelling }, dominant_fn,
        Some(BlackadderOrigin::ChordScaleSonority), Some(cb), target_root, Some(BlackadderScale::LydianDominant),
        Vec::new()), dominant_label(f), ro, bp, 0, RULE_DOMINANT_NINTH, WHY_DOMINANT_NINTH));

    // 3. Supplying the absent minor third: predominant only before a
    // dominant.
    let halfdim_target = match context.next_chord {
        Some(n) => if is_dominant_for(n, behavior) {
            Some(n.root)
        } else {
            None
        },
        None => None,
    };
    push_reading(&mut readings, make_reading(context, interpretation(cb, chord.root, cur,
        BlackadderStructure::HalfDiminishedAddNineOmitThird, if halfdim_target.is_some() {
            Some(BlackadderFunction::Predominant)
        } else {
            None
        }, None, Some(cb), halfdim_target, Some(BlackadderScale::LocrianNaturalTwo), Vec::new()),
        note_label(cb, "m7-5(9)"), ro, bp, 50, RULE_HALF_DIMINISHED, WHY_HALF_DIMINISHED));

    // 4. The bass is the seventh of an aug7 a major second above: an
    // identity, hence neutral.
    push_reading(&mut readings, make_reading(context, interpretation(cb, chord.root, cur,
        BlackadderStructure::AugmentedSeventhThirdInversion, None, None, Some(f.augmented_seventh_root), None, None,
        Vec::new()), note_pair_label(f.augmented_seventh_root, "aug7/", cb), ro, bp, 0, RULE_AUG7, WHY_AUG7));

    // 5. Every exact set lies in one whole-tone collection: weak evidence
    // until melody says more.
    let whole_tone_flag = match context.observations {
        Some(o) => o.whole_tone_context,
        None => None,
    };
    push_reading(&mut readings, make_reading(context, interpretation(cb, chord.root, cur,
        BlackadderStructure::WholeToneSubset, None, Some(BlackadderOrigin::ChordScaleSonority), None, None,
        Some(BlackadderScale::WholeTone(f.whole_tone)), requirements(whole_tone_flag,
        BlackadderObservationKind::MelodicScaleContext)), dominant_label(f), ro, bp, observation_score(
        whole_tone_flag, -50, 300, -200), RULE_WHOLE_TONE, WHY_WHOLE_TONE));
    assert(views_of(readings@) =~= core_part(*chord, context, f, behavior));
    readings
}

fn sdm_readings(chord: &ParsedChord, context: BlackadderContext, f: ShapeFacts, behavior: BehaviorProfile) -> (r: Vec<
    ScoredBlackadder,
>)
    requires
        behavior == BehaviorProfile::StrictV1 ==> alterations_fit(chord.quality_parsed.parts()),
    ensures
        views_of(r@) == sdm_part(*chord, context, f, behavior),
{
    let mut readings: Vec<ScoredBlackadder> = Vec::new();
    // SDm is key-relative: a pitch-class match to the flat six creates the
    // reading, and an exact scale-degree spelling scores higher.
    if let Some(tonic) = context.tonic {
        if blackadder_set_contains(f.canonical_bass, tonic.pitch_class().offset(8)) {
            let target = match context.next_chord {
                Some(n) => if n.root.pitch_class().value() == tonic.pitch_class().value() {
                    Some(n.root)
                } else {
                    None
                },
                None => None,
            };
            let exact_flat_six = contains_spelled_flat_six(chord, f.bass, tonic, behavior);
            push_reading(&mut readings, make_reading(context, interpretation(f.canonical_bass, chord.root,
                f.canonical_upper_root, BlackadderStructure::AugmentedTriadOverBass,
                Some(BlackadderFunction::SubdominantMinor), Some(BlackadderOrigin::ChordScaleSonority),
                Some(f.canonical_bass), target, None, Vec::new()), dominant_label(f), f.root_override,
                f.bass_preference, if exact_flat_six { 100 } else { 35 }, if exact_flat_six {
                    RULE_SDM_SPELLED
                } else {
                    RULE_SDM_ENHARMONIC
                }, WHY_SDM));
        }
    }
    assert(views_of(readings@) =~= sdm_part(*chord, context, f, behavior));
    readings
}

fn sixth_readings(chord: &ParsedChord, context: BlackadderContext, f: ShapeFacts, behavior: BehaviorProfile) -> (r: Vec<
    ScoredBlackadder,
>)
    requires
        behavior == BehaviorProfile::StrictV1 ==> alterations_fit(chord.quality_parsed.parts()),
    ensures
        views_of(r@) == sixth_part(*chord, context, f, behavior),
{
    let mut readings: Vec<ScoredBlackadder> = Vec::new();
    // The ten-semitone member must be written as a sixth above the bass; its
    // resolution is left to voice-leading observations.
    if contains_spelled_augmented_sixth(chord, f.bass, behavior) {
        let sixth_flag = match context.observations {
            Some(o) => o.augmented_sixth_resolution,
            None => None,
        };
        push_reading(&mut readings, make_reading(context, interpretation(f.canonical_bass, chord.root,
            f.canonical_upper_root, BlackadderStructure::AugmentedSixth, Some(BlackadderFunction::Predominant), None,
            Some(f.canonical_bass), match context.next_chord {
                Some(n) => Some(n.root),
                None => None,
            }, None, requirements(sixth_flag, BlackadderObservationKind::AugmentedSixthResolution)), note_label(
            f.canonical_bass, "(+6,9,#11)"), f.root_override, f.bass_preference, observation_score(sixth_flag, 0,
            350, -200), RULE_AUGMENTED_SIXTH, WHY_AUGMENTED_SIXTH));
    }
    assert(views_of(readings@) =~= sixth_part(*chord, context, f, behavior));
    readings
}

fn line_readings(chord: &ParsedChord, context: BlackadderContext, f: ShapeFacts) -> (r: Vec<ScoredBlackadder>)
    ensures
        views_of(r@) == lines_part(*chord, context, f),
{
    let mut readings: Vec<ScoredBlackadder> = Vec::new();
    // Text cannot tell independent voices from an incidental verticality:
    // both stay low with the observations that would decide them.
    let split = match context.observations {
        Some(o) => o.split_voice_leading,
        None => None,
    };
    let mut split_score = observation_score(split, -100, 400, -300);
    if f.repeated && split.is_none() {
        // `Caug -> Caug/F#` suggests the upper voices were retained while
        // only the bass moved.
        split_score = 300;
    }
    push_reading(&mut readings, make_reading(context, interpretation(f.canonical_bass, chord.root,
        f.canonical_upper_root, BlackadderStructure::AugmentedTriadOverBass, None,
        Some(BlackadderOrigin::SplitVoiceLeading), Some(f.canonical_upper_root), None, None, requirements(split,
        BlackadderObservationKind::VoiceLeading)), upper_label(f), f.root_override, f.bass_preference, split_score,
        RULE_SPLIT, WHY_SPLIT));

    let incidental = match context.observations {
        Some(o) => o.incidental_formation,
        None => None,
    };
    let incidental_requirements = if incidental.is_some() {
        Vec::new()
    } else {
        vec![
            BlackadderObservationKind::Timing,
            BlackadderObservationKind::MeterPosition,
            BlackadderObservationKind::PartSeparation,
        ]
    };
    push_reading(&mut readings, make_reading(context, interpretation(f.canonical_bass, chord.root,
        f.canonical_upper_root, BlackadderStructure::AugmentedTriadOverBass, None, Some(BlackadderOrigin::Incidental),
        None, None, None, incidental_requirements), upper_label(f), f.root_override, f.bass_preference,
        observation_score(incidental, -150, 400, -350), RULE_INCIDENTAL, WHY_INCIDENTAL));
    assert(views_of(readings@) =~= lines_part(*chord, context, f));
    readings
}

fn rootless_readings(chord: &ParsedChord, context: BlackadderContext, f: ShapeFacts, behavior: BehaviorProfile) -> (r: Vec<
    ScoredBlackadder,
>)
    ensures
        views_of(r@) == rootless_part(*chord, context, f, behavior),
{
    let mut readings: Vec<ScoredBlackadder> = Vec::new();
    // Only when the inferred root really resolves to the following
    // tonic-like chord; it never replaces the bass-rooted readings.
    if let Some(next) = context.next_chord {
        let anchor_pc = f.canonical_bass.pitch_class().offset(6);
        let anchor = name_of_pitch_class(anchor_pc, f.bass_preference);
        let dominant = spell_pitch_class(anchor.letter.shift(1), anchor_pc.offset(2));
        let distance = semitone_distance(next.root, dominant);
        if (distance == 5 || distance == 7) && is_tonic_for(next, behavior) {
            push_reading(&mut readings, make_reading(context, interpretation(f.canonical_bass, chord.root,
                f.canonical_upper_root, BlackadderStructure::RootlessDominantThirdInBass,
                Some(BlackadderFunction::SecondaryDominant), None, Some(dominant), Some(next.root),
                Some(BlackadderScale::LydianDominant), Vec::new()), note_pair_label(dominant, "7(9,#11)/",
                f.canonical_bass), f.root_override, f.bass_preference, 0, RULE_ROOTLESS, WHY_ROOTLESS));
        }
    }
    assert(views_of(readings@) =~= rootless_part(*chord, context, f, behavior));
    readings
}

/// Every supported reading of an augmented-over-bass Blackadder shape.
pub fn analyze_blackadder(chord: &ParsedChord, context: BlackadderContext, behavior: BehaviorProfile) -> (r: Vec<
    ScoredBlackadder,
>)
    requires
        behavior == BehaviorProfile::StrictV1 && (chord.bass matches Some(b) && exact_blackadder_shape(chord.root, b))
            ==> alterations_fit(chord.quality_parsed.parts()),
    ensures
        views_of(r@) == blackadder_readings(*chord, context, behavior),
{
    let bass = match chord.bass {
        Some(b) => b,
        None => {
            return Vec::new();
        },
    };
    if !has_exact_blackadder_shape(chord, bass) {
        return Vec::new();
    }
    let f = shape_facts(chord, context, behavior);
    let mut readings = core_readings(chord, context, f, behavior);
    append_readings(&mut readings, sdm_readings(chord, context, f, behavior));
    append_readings(&mut readings, sixth_readings(chord, context, f, behavior));
    append_readings(&mut readings, line_readings(chord, context, f));
    append_readings(&mut readings, rootless_readings(chord, context, f, behavior));
    proof {
        reveal(raw_readings);
    }
    let readings = if f.repeated {
        mark_readings(readings)
    } else {
        readings
    };
    // A negative prior must not make an observation-dependent explanation
    // practically impossible: with no conventional function established,
    // the unresolved families rise just above unsupported labels.
    if any_function(&readings) {
        readings
    } else {
        rank_unresolved_fallbacks(readings)
    }
}


pub const RULE_TO_SIXTH: &'static str = "builtin.blackadder.transition.augmented_sixth";
pub const WHY_TO_SIXTH: &'static str = "Spelled augmented-sixth outer notes converge by semitone on the following harmony";
pub const RULE_TO_TRITONE: &'static str = "builtin.blackadder.transition.tritone_substitute";
pub const WHY_TO_TRITONE: &'static str = "Bass-rooted altered dominant resolves to a target one semitone below";
pub const RULE_TO_DOMINANT: &'static str = "builtin.blackadder.transition.dominant";
pub const WHY_TO_DOMINANT: &'static str = "Dominant interpretation resolves upward by perfect fourth";
pub const RULE_TO_BACKDOOR: &'static str = "builtin.blackadder.transition.backdoor";
pub const WHY_TO_BACKDOOR: &'static str = "Backdoor dominant interpretation resolves upward by whole tone";
pub const RULE_TO_HALFDIM: &'static str = "builtin.blackadder.transition.halfdim_to_dominant";
pub const WHY_TO_HALFDIM: &'static str = "Half-diminished interpretation precedes a dominant chord";
pub const RULE_TO_TONIC: &'static str = "builtin.blackadder.transition.sdm_to_tonic";
pub const WHY_TO_TONIC: &'static str = "Subdominant-minor interpretation resolves to the current tonic";

/// The motion to `next` that confirms the reading's function, if any. A
/// reading aimed at another root gets none.
pub open spec fn transition_rule(i: InterpretationView, next: ParsedChord, tonic: SpelledNote, behavior: BehaviorProfile) -> Option<
    EvidenceView,
> {
    let cb = i.canonical_bass;
    if i.target_root matches Some(t) && pc(t) != pc(next.root) {
        None
    } else if i.function == Some(BlackadderFunction::Predominant) && i.structure == BlackadderStructure::AugmentedSixth
        && dist(next.root, cb) == 11 && tonic_for(next, behavior) {
        Some(EvidenceView { rule_id: RULE_TO_SIXTH@, contribution: 570, explanation: WHY_TO_SIXTH@ })
    } else if i.function == Some(BlackadderFunction::TritoneSubstitute) && dist(next.root, cb) == 11 && tonic_for(
        next,
        behavior,
    ) {
        Some(EvidenceView { rule_id: RULE_TO_TRITONE@, contribution: 600, explanation: WHY_TO_TRITONE@ })
    } else if (i.function == Some(BlackadderFunction::Dominant) || i.function == Some(
        BlackadderFunction::SecondaryDominant,
    )) && (i.effective_root matches Some(r) && dist(next.root, r) == 5) && tonic_for(next, behavior) {
        Some(EvidenceView { rule_id: RULE_TO_DOMINANT@, contribution: 600, explanation: WHY_TO_DOMINANT@ })
    } else if i.function == Some(BlackadderFunction::BackdoorDominant) && dist(next.root, cb) == 2 && tonic_for(
        next,
        behavior,
    ) {
        Some(EvidenceView { rule_id: RULE_TO_BACKDOOR@, contribution: 500, explanation: WHY_TO_BACKDOOR@ })
    } else if i.function == Some(BlackadderFunction::Predominant) && i.structure
        == BlackadderStructure::HalfDiminishedAddNineOmitThird && dominant_for(next, behavior) {
        Some(EvidenceView { rule_id: RULE_TO_HALFDIM@, contribution: 550, explanation: WHY_TO_HALFDIM@ })
    } else if i.function == Some(BlackadderFunction::SubdominantMinor) && pc(next.root) == pc(tonic) {
        Some(EvidenceView { rule_id: RULE_TO_TONIC@, contribution: 450, explanation: WHY_TO_TONIC@ })
    } else {
        None
    }
}

/// Transition evidence for a reading followed by `next` in key `tonic`.
pub fn transition_evidence(
    interpretation: &BlackadderInterpretation,
    next: &ParsedChord,
    tonic: SpelledNote,
    behavior: BehaviorProfile,
) -> (r: Vec<ScoreEvidence>)
    ensures
        match transition_rule(interpretation@, *next, tonic, behavior) {
            Some(e) => r@.len() == 1 && r@[0]@ == e,
            None => r@.len() == 0,
        },
{
    if let Some(target) = interpretation.target_root {
        if target.pitch_class().value() != next.root.pitch_class().value() {
            return Vec::new();
        }
    }
    let cb = interpretation.canonical_bass;
    let function = interpretation.function;
    let structure = interpretation.structure;
    let to_bass = semitone_distance(next.root, cb);
    let rule: Option<(&str, i64, &str)> = if matches!(function, Some(BlackadderFunction::Predominant)) && matches!(
        structure,
        BlackadderStructure::AugmentedSixth
    ) && to_bass == 11 && is_tonic_for(next, behavior) {
        Some((RULE_TO_SIXTH, 570, WHY_TO_SIXTH))
    } else if matches!(function, Some(BlackadderFunction::TritoneSubstitute)) && to_bass == 11 && is_tonic_for(
        next,
        behavior,
    ) {
        Some((RULE_TO_TRITONE, 600, WHY_TO_TRITONE))
    } else if matches!(function, Some(BlackadderFunction::Dominant) | Some(BlackadderFunction::SecondaryDominant))
        && match interpretation.effective_root {
        Some(root) => semitone_distance(next.root, root) == 5,
        None => false,
    } && is_tonic_for(next, behavior) {
        Some((RULE_TO_DOMINANT, 600, WHY_TO_DOMINANT))
    } else if matches!(function, Some(BlackadderFunction::BackdoorDominant)) && to_bass == 2 && is_tonic_for(
        next,
        behavior,
    ) {
        Some((RULE_TO_BACKDOOR, 500, WHY_TO_BACKDOOR))
    } else if matches!(function, Some(BlackadderFunction::Predominant)) && matches!(
        structure,
        BlackadderStructure::HalfDiminishedAddNineOmitThird
    ) && is_dominant_for(next, behavior) {
        Some((RULE_TO_HALFDIM, 550, WHY_TO_HALFDIM))
    } else if matches!(function, Some(BlackadderFunction::SubdominantMinor)) && next.root.pitch_class().value()
        == tonic.pitch_class().value() {
        Some((RULE_TO_TONIC, 450, WHY_TO_TONIC))
    } else {
        None
    };
    match rule {
        Some((id, score, why)) => vec![ScoreEvidence::new(id, score, why)],
        None => Vec::new(),
    }
}

/// Score (hundredths) added by the transition to `next`; the canonical bass
/// stands in for a missing tonic.
pub open spec fn transition_points(
    i: InterpretationView,
    next: Option<&ParsedChord>,
    tonic: Option<SpelledNote>,
    behavior: BehaviorProfile,
) -> int {
    match next {
        Some(n) => match transition_rule(i, *n, match tonic {
            Some(t) => t,
            None => i.canonical_bass,
        }, behavior) {
            Some(e) => e.contribution,
            None => 0,
        },
        None => 0,
    }
}

pub fn transition_score(
    interpretation: &BlackadderInterpretation,
    next: Option<&ParsedChord>,
    tonic: Option<SpelledNote>,
    behavior: BehaviorProfile,
) -> (r: i64)
    ensures
        r == transition_points(interpretation@, next, tonic, behavior),
{
    let n = match next {
        Some(n) => n,
        None => {
            return 0;
        },
    };
    let key = match tonic {
        Some(t) => t,
        None => interpretation.canonical_bass,
    };
    let evidence = transition_evidence(interpretation, n, key, behavior);
    let mut total: i64 = 0;
    if evidence.len() > 0 {
        total = evidence[0].contribution;
    }
    total
}

/// Two contexts that differ at most in how the next chord is written, not
/// in how it is heard.
pub open spec fn contexts_alike(c1: BlackadderContext, c2: BlackadderContext) -> bool {
    &&& c1.tonic == c2.tonic
    &&& c1.previous_chord == c2.previous_chord
    &&& c1.observations == c2.observations
    &&& match (c1.next_chord, c2.next_chord) {
        (Some(a), Some(b)) => heard_alike(*a, *b),
        (None, None) => true,
        _ => false,
    }
}

proof fn lemma_next_alike(c1: BlackadderContext, c2: BlackadderContext, behavior: BehaviorProfile)
    requires
        contexts_alike(c1, c2),
    ensures
        c1.next_chord matches Some(a) ==> c2.next_chord matches Some(b) && a.root == b.root && tonic_for(*a, behavior)
            == tonic_for(*b, behavior) && dominant_for(*a, behavior) == dominant_for(*b, behavior),
{
}

proof fn lemma_facts_alike(chord: ParsedChord, c1: BlackadderContext, c2: BlackadderContext, behavior: BehaviorProfile)
    requires
        contexts_alike(c1, c2),
        chord.bass is Some,
    ensures
        facts_of(chord, c1, behavior) == facts_of(chord, c2, behavior),
{
    lemma_next_alike(c1, c2, behavior);
    let bass = chord.bass.unwrap();
    assert(resolution_preference(bass, c1.next_chord) == resolution_preference(bass, c2.next_chord));
    let cb = pitch_class_name(pc(bass), resolution_preference(bass, c1.next_chord));
    assert(upper_root_of(cb, c1) == upper_root_of(cb, c2));
}

proof fn lemma_classify_alike(c1: BlackadderContext, c2: BlackadderContext)
    requires
        contexts_alike(c1, c2),
    ensures
        forall|i: InterpretationView| #[trigger] classify_view(i, c1) == classify_view(i, c2),
{
}

proof fn lemma_core_alike(chord: ParsedChord, c1: BlackadderContext, c2: BlackadderContext, f: ShapeFacts, behavior: BehaviorProfile)
    requires
        contexts_alike(c1, c2),
    ensures
        core_part(chord, c1, f, behavior) == core_part(chord, c2, f, behavior),
{
    lemma_next_alike(c1, c2, behavior);
    lemma_classify_alike(c1, c2);
    assert(dominant_function(f.canonical_bass, c1.tonic, c1.next_chord, behavior) == dominant_function(
        f.canonical_bass,
        c2.tonic,
        c2.next_chord,
        behavior,
    ));
    assert(whole_tone_flag(c1) == whole_tone_flag(c2));
}

proof fn lemma_later_parts_alike(
    chord: ParsedChord,
    c1: BlackadderContext,
    c2: BlackadderContext,
    f: ShapeFacts,
    behavior: BehaviorProfile,
)
    requires
        contexts_alike(c1, c2),
    ensures
        sdm_part(chord, c1, f, behavior) == sdm_part(chord, c2, f, behavior),
        sixth_part(chord, c1, f, behavior) == sixth_part(chord, c2, f, behavior),
        lines_part(chord, c1, f) == lines_part(chord, c2, f),
        rootless_part(chord, c1, f, behavior) == rootless_part(chord, c2, f, behavior),
{
    lemma_next_alike(c1, c2, behavior);
}

/// The readings depend on the next chord only as it is heard.
pub proof fn lemma_readings_alike(chord: ParsedChord, c1: BlackadderContext, c2: BlackadderContext, behavior: BehaviorProfile)
    requires
        contexts_alike(c1, c2),
    ensures
        blackadder_readings(chord, c1, behavior) == blackadder_readings(chord, c2, behavior),
{
    if chord.bass is Some {
        lemma_facts_alike(chord, c1, c2, behavior);
        lemma_core_alike(chord, c1, c2, facts_of(chord, c1, behavior), behavior);
        lemma_later_parts_alike(chord, c1, c2, facts_of(chord, c1, behavior), behavior);
        reveal(raw_readings);
        assert(raw_readings(chord, c1, behavior) == raw_readings(chord, c2, behavior));
    }
}

} // verus!
