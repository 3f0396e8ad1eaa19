//! Key hypotheses and the chord-symbol evidence for a global key.
//!
//! Scores are in hundredths of a point, as everywhere in the analysis.

use vstd::prelude::*;
use crate::analysis::blackadder::{dist, pc};
use crate::analysis::evidence::{EvidenceView, ScoreEvidence};
use crate::analysis::harmony::{ClassificationView, HarmonicClassification, HarmonicRole, TonalMode, TonalPerspective, TonalScope};
use crate::analysis::lattice::{AnalysisPath, PathSelection, SelectionView};
use crate::analysis::memory::{CadentialSpan, HarmonicResolution, PendingPredominant, PendingResolution};
use crate::analysis::modulation::ModulationSpan;
use crate::domain::chord::{ParsedChord, ParsedSymbol, ProgressionItem};
use crate::domain::degree::{Degree, RomanDegree};
use crate::domain::note::{note_text, PitchClass, SpelledNote};
use crate::domain::quality::{copy_values, QualityClass, SeventhQuality};
use crate::profile::NoChordPolicy;
use crate::speller::{degree_from_spelling, name_of_pitch_class, pitch_class_name, semitone_distance, spelled_degree};

verus! {

#[derive(Clone, Copy, Debug, Eq, Hash, PartialEq, Structural)]
/// A spelling-preserving tonic and its mode. Inferred global keys are
/// always major or minor; a local key may stay unknown.
pub struct TonalKey {
    pub tonic: SpelledNote,
    pub mode: TonalMode,
}

pub open spec fn mode_text(m: TonalMode) -> Seq<char> {
    match m {
        TonalMode::Major => "major"@,
        TonalMode::Minor => "minor"@,
        TonalMode::Unknown => "unknown"@,
    }
}

/// `C major`, `F# minor`.
pub open spec fn key_text(k: TonalKey) -> Seq<char> {
    note_text(k.tonic) + " "@ + mode_text(k.mode)
}

impl TonalKey {
    pub fn new(tonic: SpelledNote, mode: TonalMode) -> (r: Self)
        ensures
            r == (TonalKey { tonic, mode }),
    {
        TonalKey { tonic, mode }
    }

    pub fn to_string(&self) -> (r: String)
        ensures
            r@ == key_text(*self),
    {
        let mut r = self.tonic.to_string();
        r.append(" ");
        match self.mode {
            TonalMode::Major => r.append("major"),
            TonalMode::Minor => r.append("minor"),
            TonalMode::Unknown => r.append("unknown"),
        }
        r
    }
}

#[derive(Clone, Copy, Debug, Eq, PartialEq, Structural)]
/// How strongly the caller constrains the global key.
pub enum GlobalKeyRequest {
    /// Evaluate all twelve tonics in major and minor.
    Infer,
    /// Evaluate all keys, adding a modest prior to this one.
    Hint(TonalKey),
    /// Evaluate exactly this key.
    Fixed(TonalKey),
}

#[derive(Clone, Copy, Debug, Eq, PartialEq, Structural)]
pub struct KeyAnalysisOptions {
    pub global_key: GlobalKeyRequest,
}

impl Default for KeyAnalysisOptions {
    fn default() -> (r: Self)
        ensures
            r.global_key == GlobalKeyRequest::Infer,
    {
        KeyAnalysisOptions { global_key: GlobalKeyRequest::Infer }
    }
}

/// Semitones above the tonic of the seven scale degrees.
pub open spec fn scale_steps(mode: TonalMode) -> Seq<int> {
    match mode {
        TonalMode::Major => seq![0, 2, 4, 5, 7, 9, 11],
        TonalMode::Minor => seq![0, 2, 3, 5, 7, 8, 10],
        TonalMode::Unknown => Seq::empty(),
    }
}

/// Zero-based scale degree lying `distance` semitones above the tonic.
pub open spec fn scale_degree_of(distance: int, mode: TonalMode) -> Option<int> {
    let s = scale_steps(mode);
    if exists|k: int| 0 <= k < s.len() && s[k] == distance {
        Some(choose|k: int| 0 <= k < s.len() && s[k] == distance)
    } else {
        None
    }
}

pub fn scale_degree_for_distance(distance: u8, mode: TonalMode) -> (r: Option<usize>)
    ensures
        match scale_degree_of(distance as int, mode) {
            Some(d) => r == Some(d as usize),
            None => r is None,
        },
        r matches Some(d) ==> d < 7 && scale_steps(mode)[d as int] == distance,
{
    let steps: Vec<u8> = match mode {
        TonalMode::Major => vec![0, 2, 4, 5, 7, 9, 11],
        TonalMode::Minor => vec![0, 2, 3, 5, 7, 8, 10],
        TonalMode::Unknown => {
            return None;
        },
    };
    let ghost s = scale_steps(mode);
    assert(forall|k: int| 0 <= k < 7 ==> steps@[k] as int == #[trigger] s[k]);
    let mut i: usize = 0;
    while i < steps.len()
        invariant
            i <= steps.len() == 7,
            mode == TonalMode::Major || mode == TonalMode::Minor,
            s == scale_steps(mode),
            s.len() == 7,
            forall|k: int| 0 <= k < 7 ==> steps@[k] as int == #[trigger] s[k],
            forall|k: int| 0 <= k < i ==> s[k] != distance,
        decreases steps.len() - i,
    {
        if steps[i] == distance {
            assert(s[i as int] == distance);
            let ghost c = choose|k: int| 0 <= k < s.len() && s[k] == distance;
            assert(c == i) by {
                assert(0 <= c < 7);
                assert(s[0] < s[1] && s[1] < s[2] && s[2] < s[3] && s[3] < s[4] && s[4] < s[5] && s[5] < s[6]);
                assert(c == 0 || c == 1 || c == 2 || c == 3 || c == 4 || c == 5 || c == 6);
            }
            return Some(i);
        }
        i = i + 1;
    }
    None
}


/// Seventh qualities that agree with a diatonic degree of the mode.
pub open spec fn expected_sevenths(degree: int, mode: TonalMode, class: QualityClass) -> Seq<SeventhQuality> {
    match mode {
        TonalMode::Major => if (degree == 0 || degree == 3) && class == QualityClass::Major {
            seq![SeventhQuality::Major]
        } else if degree == 4 && class == QualityClass::Major {
            seq![SeventhQuality::Minor]
        } else if (degree == 1 || degree == 2 || degree == 5) && class == QualityClass::Minor {
            seq![SeventhQuality::Minor]
        } else if degree == 6 {
            seq![SeventhQuality::Minor]
        } else {
            Seq::empty()
        },
        TonalMode::Minor => if degree == 0 && class == QualityClass::Minor {
            seq![SeventhQuality::Minor, SeventhQuality::Major]
        } else if degree == 1 {
            seq![SeventhQuality::Minor]
        } else if (degree == 2 || degree == 5) && class == QualityClass::Major {
            seq![SeventhQuality::Major]
        } else if degree == 3 && class == QualityClass::Minor {
            seq![SeventhQuality::Minor]
        } else if degree == 4 && (class == QualityClass::Major || class == QualityClass::Minor) {
            seq![SeventhQuality::Minor]
        } else if degree == 6 && class == QualityClass::Major {
            seq![SeventhQuality::Minor]
        } else {
            Seq::empty()
        },
        TonalMode::Unknown => Seq::empty(),
    }
}

pub fn expected_seventh(degree: usize, mode: TonalMode, class: QualityClass) -> (r: Vec<SeventhQuality>)
    ensures
        r@ == expected_sevenths(degree as int, mode, class),
{
    let major = matches!(class, QualityClass::Major);
    let minor = matches!(class, QualityClass::Minor);
    let r = match mode {
        TonalMode::Major => if (degree == 0 || degree == 3) && major {
            vec![SeventhQuality::Major]
        } else if degree == 4 && major {
            vec![SeventhQuality::Minor]
        } else if (degree == 1 || degree == 2 || degree == 5) && minor {
            vec![SeventhQuality::Minor]
        } else if degree == 6 {
            vec![SeventhQuality::Minor]
        } else {
            Vec::new()
        },
        TonalMode::Minor => if degree == 0 && minor {
            vec![SeventhQuality::Minor, SeventhQuality::Major]
        } else if degree == 1 {
            vec![SeventhQuality::Minor]
        } else if (degree == 2 || degree == 5) && major {
            vec![SeventhQuality::Major]
        } else if degree == 3 && minor {
            vec![SeventhQuality::Minor]
        } else if degree == 4 && (major || minor) {
            vec![SeventhQuality::Minor]
        } else if degree == 6 && major {
            vec![SeventhQuality::Minor]
        } else {
            Vec::new()
        },
        TonalMode::Unknown => Vec::new(),
    };
    assert(r@ =~= expected_sevenths(degree as int, mode, class));
    r
}

/// Whether the chord's triad class is the diatonic one for the degree.
pub open spec fn diatonic_class(degree: int, mode: TonalMode, class: QualityClass) -> bool {
    match mode {
        TonalMode::Major => if degree == 0 || degree == 3 || degree == 4 {
            class == QualityClass::Major
        } else if degree == 1 || degree == 2 || degree == 5 {
            class == QualityClass::Minor
        } else if degree == 6 {
            class == QualityClass::Diminished || class == QualityClass::HalfDiminished
        } else {
            false
        },
        TonalMode::Minor => if degree == 0 || degree == 3 {
            class == QualityClass::Minor
        } else if degree == 1 {
            class == QualityClass::Diminished || class == QualityClass::HalfDiminished
        } else if degree == 2 || degree == 5 || degree == 6 {
            class == QualityClass::Major
        } else if degree == 4 {
            // Natural-minor v and harmonic-minor V are both valid.
            class == QualityClass::Major || class == QualityClass::Minor
        } else {
            false
        },
        TonalMode::Unknown => false,
    }
}

/// Quality evidence (hundredths) for a chord on a diatonic degree: none for
/// augmented, suspended, power and unknown chords; `-0.5` for a foreign
/// triad; `0.75` for the diatonic triad, refined by `+0.18`/`-0.12` when a
/// written seventh does or does not agree.
pub open spec fn diatonic_quality_points(chord: ParsedChord, degree: int, mode: TonalMode) -> int {
    let class = chord.quality_parsed.class;
    if class == QualityClass::Augmented || class == QualityClass::Suspended2 || class == QualityClass::Suspended4
        || class == QualityClass::Power || class == QualityClass::Unknown {
        0
    } else if !diatonic_class(degree, mode, class) {
        -50
    } else {
        match chord.quality_parsed.seventh {
            Some(s) => if expected_sevenths(degree, mode, class).contains(s) {
                93
            } else {
                63
            },
            None => 75,
        }
    }
}

pub fn diatonic_quality_score(chord: &ParsedChord, degree: usize, mode: TonalMode) -> (r: i64)
    ensures
        r == diatonic_quality_points(*chord, degree as int, mode),
{
    let class = chord.quality_parsed.class;
    if matches!(
        class,
        QualityClass::Augmented | QualityClass::Suspended2 | QualityClass::Suspended4 | QualityClass::Power
            | QualityClass::Unknown
    ) {
        return 0;
    }
    let major = matches!(class, QualityClass::Major);
    let minor = matches!(class, QualityClass::Minor);
    let diminished = matches!(class, QualityClass::Diminished | QualityClass::HalfDiminished);
    let class_matches = match mode {
        TonalMode::Major => if degree == 0 || degree == 3 || degree == 4 {
            major
        } else if degree == 1 || degree == 2 || degree == 5 {
            minor
        } else if degree == 6 {
            diminished
        } else {
            false
        },
        TonalMode::Minor => if degree == 0 || degree == 3 {
            minor
        } else if degree == 1 {
            diminished
        } else if degree == 2 || degree == 5 || degree == 6 {
            major
        } else if degree == 4 {
            major || minor
        } else {
            false
        },
        TonalMode::Unknown => false,
    };
    if !class_matches {
        return -50;
    }
    // Base-triad agreement is already useful; a written seventh that matches
    // its diatonic quality adds a smaller refinement.
    match chord.quality_parsed.seventh {
        Some(seventh) => {
            let expected = expected_seventh(degree, mode, class);
            let mut found = false;
            let mut i: usize = 0;
            while i < expected.len()
                invariant
                    i <= expected.len(),
                    found == exists|k: int| 0 <= k < i && expected@[k] == seventh,
                decreases expected.len() - i,
            {
                if expected[i] == seventh {
                    found = true;
                }
                i = i + 1;
            }
            assert(found == expected@.contains(seventh));
            if found {
                93
            } else {
                63
            }
        },
        None => 75,
    }
}

/// The note carries the accidental its scale degree has in the mode: none in
/// major; flat third, sixth and seventh in minor.
pub open spec fn spelling_matches(note: SpelledNote, key: TonalKey) -> bool {
    let degree = spelled_degree(note, key.tonic);
    match key.mode {
        TonalMode::Major => degree.accidental == 0,
        TonalMode::Minor => degree.accidental == (if degree.degree == RomanDegree::Iii || degree.degree
            == RomanDegree::Vi || degree.degree == RomanDegree::Vii {
            -1int
        } else {
            0int
        }),
        TonalMode::Unknown => false,
    }
}

pub fn spelling_matches_mode(note: SpelledNote, key: TonalKey) -> (r: bool)
    ensures
        r == spelling_matches(note, key),
{
    let degree = degree_from_spelling(note, key.tonic);
    let expected: i8 = match key.mode {
        TonalMode::Major => 0,
        TonalMode::Minor => match degree.degree {
            RomanDegree::I | RomanDegree::Ii | RomanDegree::Iv | RomanDegree::V => 0,
            RomanDegree::Iii | RomanDegree::Vi | RomanDegree::Vii => -1,
        },
        TonalMode::Unknown => {
            return false;
        },
    };
    degree.accidental == expected
}

/// A major triad with a minor seventh.
pub open spec fn dominant_seventh_chord(chord: ParsedChord) -> bool {
    chord.quality_parsed.class == QualityClass::Major && chord.quality_parsed.seventh == Some(SeventhQuality::Minor)
}

pub fn is_dominant_quality(chord: &ParsedChord) -> (r: bool)
    ensures
        r == dominant_seventh_chord(*chord),
{
    matches!(chord.quality_parsed.class, QualityClass::Major) && matches!(
        chord.quality_parsed.seventh,
        Some(SeventhQuality::Minor)
    )
}

/// The tonic triad of the mode, not turned into a dominant seventh.
pub open spec fn stable_tonic(chord: ParsedChord, mode: TonalMode) -> bool {
    (match mode {
        TonalMode::Major => chord.quality_parsed.class == QualityClass::Major,
        TonalMode::Minor => chord.quality_parsed.class == QualityClass::Minor,
        TonalMode::Unknown => false,
    }) && !dominant_seventh_chord(chord)
}

pub fn is_stable_tonic_quality(chord: &ParsedChord, mode: TonalMode) -> (r: bool)
    ensures
        r == stable_tonic(*chord, mode),
{
    let class_ok = match mode {
        TonalMode::Major => matches!(chord.quality_parsed.class, QualityClass::Major),
        TonalMode::Minor => matches!(chord.quality_parsed.class, QualityClass::Minor),
        TonalMode::Unknown => false,
    };
    class_ok && !is_dominant_quality(chord)
}

/// Broad role of a chord root in a key.
pub open spec fn role_in_key(chord: ParsedChord, key: TonalKey) -> Option<HarmonicRole> {
    let d = dist(chord.root, key.tonic);
    match key.mode {
        TonalMode::Major => if d == 0 || d == 4 || d == 9 {
            Some(HarmonicRole::Tonic)
        } else if d == 2 {
            Some(HarmonicRole::Predominant)
        } else if d == 5 {
            Some(HarmonicRole::Subdominant)
        } else if d == 7 || d == 11 {
            Some(HarmonicRole::Dominant)
        } else {
            None
        },
        TonalMode::Minor => if d == 0 || d == 3 || d == 8 {
            Some(HarmonicRole::Tonic)
        } else if d == 2 {
            Some(HarmonicRole::Predominant)
        } else if d == 5 || d == 10 {
            Some(HarmonicRole::Subdominant)
        } else if d == 7 || d == 11 {
            Some(HarmonicRole::Dominant)
        } else {
            None
        },
        TonalMode::Unknown => if dominant_seventh_chord(chord) {
            Some(HarmonicRole::Dominant)
        } else {
            None
        },
    }
}

pub fn infer_role(chord: Option<&ParsedChord>, key: TonalKey) -> (r: Option<HarmonicRole>)
    ensures
        r == match chord {
            Some(c) => role_in_key(*c, key),
            None => None,
        },
{
    let chord = match chord {
        Some(c) => c,
        None => {
            return None;
        },
    };
    let d = semitone_distance(chord.root, key.tonic);
    let dominant = is_dominant_quality(chord);
    match key.mode {
        TonalMode::Major => if d == 0 || d == 4 || d == 9 {
            Some(HarmonicRole::Tonic)
        } else if d == 2 {
            Some(HarmonicRole::Predominant)
        } else if d == 5 {
            Some(HarmonicRole::Subdominant)
        } else if d == 7 || d == 11 {
            Some(HarmonicRole::Dominant)
        } else {
            None
        },
        TonalMode::Minor => if d == 0 || d == 3 || d == 8 {
            Some(HarmonicRole::Tonic)
        } else if d == 2 {
            Some(HarmonicRole::Predominant)
        } else if d == 5 || d == 10 {
            Some(HarmonicRole::Subdominant)
        } else if d == 7 || d == 11 {
            Some(HarmonicRole::Dominant)
        } else {
            None
        },
        TonalMode::Unknown => if dominant {
            Some(HarmonicRole::Dominant)
        } else {
            None
        },
    }
}

/// Major first, then minor, then unknown.
pub open spec fn mode_rank(mode: TonalMode) -> u8 {
    match mode {
        TonalMode::Major => 0,
        TonalMode::Minor => 1,
        TonalMode::Unknown => 2,
    }
}

pub fn tonal_mode_order(mode: TonalMode) -> (r: u8)
    ensures
        r == mode_rank(mode),
{
    match mode {
        TonalMode::Major => 0,
        TonalMode::Minor => 1,
        TonalMode::Unknown => 2,
    }
}

/// Common key-signature name for a tonic pitch class with no spelling
/// evidence: D-flat major but C-sharp minor, for example.
pub open spec fn conventional_sharp(pitch_class: int, mode: TonalMode) -> bool {
    match mode {
        TonalMode::Major => pitch_class == 6,
        TonalMode::Minor => pitch_class == 1 || pitch_class == 6 || pitch_class == 8,
        TonalMode::Unknown => true,
    }
}

pub fn conventional_sharp_key(pitch_class: u8, mode: TonalMode) -> (r: bool)
    ensures
        r == conventional_sharp(pitch_class as int, mode),
{
    match mode {
        TonalMode::Major => pitch_class == 6,
        TonalMode::Minor => pitch_class == 1 || pitch_class == 6 || pitch_class == 8,
        TonalMode::Unknown => true,
    }
}


pub open spec fn chord_of(item: ProgressionItem) -> Option<ParsedChord> {
    match item.symbol {
        ParsedSymbol::Chord(c) => Some(c),
        _ => None,
    }
}

/// Mode of the first chord rooted on the tonic: major or minor by its triad,
/// unknown otherwise or when no chord is.
pub open spec fn local_mode_from(items: Seq<ProgressionItem>, tonic: SpelledNote) -> TonalMode
    decreases items.len(),
{
    if items.len() == 0 {
        TonalMode::Unknown
    } else {
        match chord_of(items[0]) {
            Some(c) => if pc(c.root) == pc(tonic) {
                match c.quality_parsed.class {
                    QualityClass::Major => TonalMode::Major,
                    QualityClass::Minor => TonalMode::Minor,
                    _ => TonalMode::Unknown,
                }
            } else {
                local_mode_from(items.drop_first(), tonic)
            },
            None => local_mode_from(items.drop_first(), tonic),
        }
    }
}

pub fn infer_local_mode(progression: &[ProgressionItem], tonic: SpelledNote) -> (r: TonalMode)
    ensures
        r == local_mode_from(progression@, tonic),
{
    let mut i: usize = 0;
    assert(progression@.skip(0) =~= progression@);
    while i < progression.len()
        invariant
            i <= progression@.len(),
            local_mode_from(progression@, tonic) == local_mode_from(progression@.skip(i as int), tonic),
        decreases progression.len() - i,
    {
        assert(progression@.skip(i as int)[0] == progression@[i as int]);
        assert(progression@.skip(i as int).drop_first() =~= progression@.skip(i + 1));
        if let Some(chord) = progression[i].chord() {
            if chord.root.pitch_class().value() == tonic.pitch_class().value() {
                return match chord.quality_parsed.class {
                    QualityClass::Major => TonalMode::Major,
                    QualityClass::Minor => TonalMode::Minor,
                    _ => TonalMode::Unknown,
                };
            }
        }
        i = i + 1;
    }
    TonalMode::Unknown
}

pub open spec fn note_sharps(n: SpelledNote) -> int {
    if n.accidental > 0 {
        n.accidental as int
    } else {
        0
    }
}

pub open spec fn note_flats(n: SpelledNote) -> int {
    if n.accidental < 0 {
        -n.accidental
    } else {
        0
    }
}

/// Sharps written in chord roots and slash basses.
pub open spec fn sharp_total(items: Seq<ProgressionItem>) -> int
    decreases items.len(),
{
    if items.len() == 0 {
        0
    } else {
        sharp_total(items.drop_last()) + match chord_of(items.last()) {
            Some(c) => note_sharps(c.root) + match c.bass {
                Some(b) => note_sharps(b),
                None => 0,
            },
            None => 0,
        }
    }
}

/// Flats written in chord roots and slash basses.
pub open spec fn flat_total(items: Seq<ProgressionItem>) -> int
    decreases items.len(),
{
    if items.len() == 0 {
        0
    } else {
        flat_total(items.drop_last()) + match chord_of(items.last()) {
            Some(c) => note_flats(c.root) + match c.bass {
                Some(b) => note_flats(b),
                None => 0,
            },
            None => 0,
        }
    }
}

/// Sharps if the progression writes more sharps than flats, flats if fewer.
pub open spec fn accidental_lean(items: Seq<ProgressionItem>) -> Option<bool> {
    if sharp_total(items) > flat_total(items) {
        Some(true)
    } else if sharp_total(items) < flat_total(items) {
        Some(false)
    } else {
        None
    }
}

fn note_counts(n: SpelledNote) -> (r: (u128, u128))
    ensures
        r.0 == note_sharps(n),
        r.1 == note_flats(n),
        r.0 <= 128,
        r.1 <= 128,
{
    if n.accidental > 0 {
        (n.accidental as u128, 0)
    } else if n.accidental < 0 {
        (0, (-(n.accidental as i16)) as u128)
    } else {
        (0, 0)
    }
}

pub fn progression_accidental_preference(progression: &[ProgressionItem]) -> (r: Option<bool>)
    requires
        sharp_total(progression@) <= u32::MAX,
        flat_total(progression@) <= u32::MAX,
    ensures
        r == accidental_lean(progression@),
{
    let mut sharps: u128 = 0;
    let mut flats: u128 = 0;
    let mut i: usize = 0;
    while i < progression.len()
        invariant
            i <= progression@.len(),
            sharps == sharp_total(progression@.take(i as int)),
            flats == flat_total(progression@.take(i as int)),
            sharps <= 256 * i,
            flats <= 256 * i,
        decreases progression.len() - i,
    {
        assert(progression@.take(i + 1).drop_last() =~= progression@.take(i as int));
        if let Some(chord) = progression[i].chord() {
            let (s, f) = note_counts(chord.root);
            sharps = sharps + s;
            flats = flats + f;
            if let Some(bass) = chord.bass {
                let (s, f) = note_counts(bass);
                sharps = sharps + s;
                flats = flats + f;
            }
        }
        i = i + 1;
    }
    assert(progression@.take(progression@.len() as int) =~= progression@);
    if sharps > flats {
        Some(true)
    } else if sharps < flats {
        Some(false)
    } else {
        None
    }
}

/// The `i`-th candidate key: tonics by pitch class, major before minor. A
/// hinted key keeps its spelling; other tonics follow the progression's
/// accidental lean, or the conventional key-signature name.
pub open spec fn global_key_candidate(items: Seq<ProgressionItem>, request: GlobalKeyRequest, i: int) -> TonalKey {
    let p = i / 2;
    let mode = if i % 2 == 0 {
        TonalMode::Major
    } else {
        TonalMode::Minor
    };
    let named = pitch_class_name(p, Some(match accidental_lean(items) {
        Some(b) => b,
        None => conventional_sharp(p, mode),
    }));
    let tonic = match request {
        GlobalKeyRequest::Hint(k) => if k.mode == mode && pc(k.tonic) == p {
            k.tonic
        } else {
            named
        },
        _ => named,
    };
    TonalKey { tonic, mode }
}

/// Keys evaluated for a request: exactly the fixed key, or all 24.
pub open spec fn global_key_candidates(items: Seq<ProgressionItem>, request: GlobalKeyRequest) -> Seq<TonalKey> {
    match request {
        GlobalKeyRequest::Fixed(k) => seq![k],
        _ => Seq::new(24, |i: int| global_key_candidate(items, request, i)),
    }
}

pub fn candidate_global_keys(progression: &[ProgressionItem], request: GlobalKeyRequest) -> (r: Vec<TonalKey>)
    requires
        sharp_total(progression@) <= u32::MAX,
        flat_total(progression@) <= u32::MAX,
    ensures
        r@ == global_key_candidates(progression@, request),
{
    if let GlobalKeyRequest::Fixed(key) = request {
        let r = vec![key];
        assert(r@ =~= seq![key]);
        return r;
    }
    let preferred = match request {
        GlobalKeyRequest::Hint(key) => Some(key),
        _ => None,
    };
    let lean = progression_accidental_preference(progression);
    let mut keys: Vec<TonalKey> = Vec::new();
    let mut p: u8 = 0;
    while p < 12
        invariant
            p <= 12,
            lean == accidental_lean(progression@),
            preferred == match request {
                GlobalKeyRequest::Hint(key) => Some(key),
                _ => None,
            },
            !(request is Fixed),
            keys@.len() == 2 * p,
            forall|k: int| 0 <= k < 2 * p ==> #[trigger] keys@[k] == global_key_candidate(progression@, request, k),
        decreases 12 - p,
    {
        let mut m: u8 = 0;
        while m < 2
            invariant
                p < 12,
                m <= 2,
                lean == accidental_lean(progression@),
                preferred == match request {
                    GlobalKeyRequest::Hint(key) => Some(key),
                    _ => None,
                },
                keys@.len() == 2 * p + m,
                forall|k: int| 0 <= k < 2 * p + m ==> #[trigger] keys@[k] == global_key_candidate(progression@, request, k),
            decreases 2 - m,
        {
            let mode = if m == 0 {
                TonalMode::Major
            } else {
                TonalMode::Minor
            };
            // Keep an explicitly hinted spelling; otherwise one spelling per
            // pitch class, so enharmonic names do not compete.
            let hinted = match preferred {
                Some(key) => if key.mode == mode && key.tonic.pitch_class().value() == p {
                    Some(key.tonic)
                } else {
                    None
                },
                None => None,
            };
            let tonic = match hinted {
                Some(t) => t,
                None => {
                    let prefer_sharps = match lean {
                        Some(b) => b,
                        None => conventional_sharp_key(p, mode),
                    };
                    name_of_pitch_class(PitchClass::new(p), Some(prefer_sharps))
                },
            };
            let ghost idx = 2 * p + m;
            assert(idx / 2 == p && idx % 2 == m);
            keys.push(TonalKey::new(tonic, mode));
            m = m + 1;
        }
        p = p + 1;
    }
    assert(keys@ =~= global_key_candidates(progression@, request));
    keys
}


/// Left-to-right grouping of chord indices: boundaries always close the
/// current group, N.C. closes it under the `Break` policy.
pub open spec fn segment_fold(items: Seq<ProgressionItem>, policy: NoChordPolicy) -> (Seq<Seq<usize>>, Seq<usize>)
    decreases items.len(),
{
    if items.len() == 0 {
        (Seq::empty(), Seq::empty())
    } else {
        let (done, current) = segment_fold(items.drop_last(), policy);
        let i = (items.len() - 1) as usize;
        match items.last().symbol {
            ParsedSymbol::Chord(_) => (done, current.push(i)),
            ParsedSymbol::Boundary { .. } => if current.len() > 0 {
                (done.push(current), Seq::empty())
            } else {
                (done, current)
            },
            ParsedSymbol::NoChord { .. } => if policy == NoChordPolicy::Break && current.len() > 0 {
                (done.push(current), Seq::empty())
            } else {
                (done, current)
            },
        }
    }
}

/// Maximal runs of chord indices not separated by a boundary (or, under
/// `Break`, by N.C.).
pub open spec fn segments_of(items: Seq<ProgressionItem>, policy: NoChordPolicy) -> Seq<Seq<usize>> {
    let (done, current) = segment_fold(items, policy);
    if current.len() > 0 {
        done.push(current)
    } else {
        done
    }
}

/// Every index in a segment names a chord event.
pub open spec fn indexes_chords(items: Seq<ProgressionItem>, seg: Seq<usize>) -> bool {
    forall|j: int| 0 <= j < seg.len() ==> (#[trigger] seg[j]) < items.len() && chord_of(items[seg[j] as int]) is Some
}

proof fn lemma_segment_fold_chords(items: Seq<ProgressionItem>, policy: NoChordPolicy)
    requires
        items.len() <= usize::MAX,
    ensures
        indexes_chords(items, segment_fold(items, policy).1),
        forall|k: int| 0 <= k < segment_fold(items, policy).0.len() ==> indexes_chords(items, #[trigger] segment_fold(items, policy).0[k]),
    decreases items.len(),
{
    if items.len() > 0 {
        let prev = items.drop_last();
        lemma_segment_fold_chords(prev, policy);
        let (done, current) = segment_fold(prev, policy);
        assert(forall|j: int| 0 <= j < prev.len() ==> prev[j] == items[j]);
        assert(indexes_chords(items, current));
        assert forall|k: int| 0 <= k < done.len() implies indexes_chords(items, #[trigger] done[k]) by {
            assert(indexes_chords(prev, done[k]));
        }
        let i = (items.len() - 1) as usize;
        if items.last().symbol is Chord {
            assert(chord_of(items[i as int]) is Some);
            assert(indexes_chords(items, current.push(i)));
        }
    }
}

pub proof fn lemma_segments_index_chords(items: Seq<ProgressionItem>, policy: NoChordPolicy)
    requires
        items.len() <= usize::MAX,
    ensures
        forall|k: int| 0 <= k < segments_of(items, policy).len() ==> indexes_chords(items, #[trigger] segments_of(items, policy)[k]),
{
    lemma_segment_fold_chords(items, policy);
}

/// How many indices the groups hold together.
pub open spec fn total_len(segs: Seq<Seq<usize>>) -> int
    decreases segs.len(),
{
    if segs.len() == 0 {
        0
    } else {
        total_len(segs.drop_last()) + segs.last().len()
    }
}

pub proof fn lemma_total_len_nonneg(segs: Seq<Seq<usize>>)
    ensures
        0 <= total_len(segs),
    decreases segs.len(),
{
    if segs.len() > 0 {
        lemma_total_len_nonneg(segs.drop_last());
    }
}

proof fn lemma_total_len_push(segs: Seq<Seq<usize>>, x: Seq<usize>)
    ensures
        total_len(segs.push(x)) == total_len(segs) + x.len(),
{
    assert(segs.push(x).drop_last() =~= segs);
}

proof fn lemma_segment_fold_len(items: Seq<ProgressionItem>, policy: NoChordPolicy)
    ensures
        total_len(segment_fold(items, policy).0) + segment_fold(items, policy).1.len() <= items.len(),
    decreases items.len(),
{
    if items.len() > 0 {
        lemma_segment_fold_len(items.drop_last(), policy);
        let (done, current) = segment_fold(items.drop_last(), policy);
        lemma_total_len_push(done, current);
    }
}

/// The groups of a progression hold no more indices than it has events, and
/// so does each prefix of them.
pub proof fn lemma_segments_len(items: Seq<ProgressionItem>, policy: NoChordPolicy, k: int)
    requires
        0 <= k <= segments_of(items, policy).len(),
    ensures
        0 <= total_len(segments_of(items, policy).take(k)) <= items.len(),
{
    lemma_total_len_nonneg(segments_of(items, policy).take(k));
    lemma_segment_fold_len(items, policy);
    let (done, current) = segment_fold(items, policy);
    if current.len() > 0 {
        lemma_total_len_push(done, current);
    }
    lemma_total_len_prefix(segments_of(items, policy), k);
}

proof fn lemma_total_len_prefix(segs: Seq<Seq<usize>>, k: int)
    requires
        0 <= k <= segs.len(),
    ensures
        total_len(segs.take(k)) <= total_len(segs),
    decreases segs.len(),
{
    if k < segs.len() {
        lemma_total_len_prefix(segs.drop_last(), k);
        assert(segs.drop_last().take(k) =~= segs.take(k));
    } else {
        assert(segs.take(k) =~= segs);
    }
}

/// A prefix one group longer holds that group's indices more.
pub proof fn lemma_total_len_step(segs: Seq<Seq<usize>>, k: int)
    requires
        0 <= k < segs.len(),
    ensures
        total_len(segs.take(k + 1)) == total_len(segs.take(k)) + segs[k].len(),
{
    assert(segs.take(k + 1).drop_last() =~= segs.take(k));
}

pub open spec fn deep_view(v: Seq<Vec<usize>>) -> Seq<Seq<usize>> {
    v.map_values(|x: Vec<usize>| x@)
}

pub fn chord_segments(progression: &[ProgressionItem], no_chord_policy: NoChordPolicy) -> (r: Vec<Vec<usize>>)
    ensures
        deep_view(r@) == segments_of(progression@, no_chord_policy),
{
    let mut segments: Vec<Vec<usize>> = Vec::new();
    let mut current: Vec<usize> = Vec::new();
    let mut i: usize = 0;
    while i < progression.len()
        invariant
            i <= progression@.len(),
            (deep_view(segments@), current@) == segment_fold(progression@.take(i as int), no_chord_policy),
        decreases progression.len() - i,
    {
        assert(progression@.take(i + 1).drop_last() =~= progression@.take(i as int));
        assert(progression@.take(i + 1).last() == progression@[i as int]);
        let close = match &progression[i].symbol {
            ParsedSymbol::Chord(_) => false,
            ParsedSymbol::Boundary { .. } => true,
            ParsedSymbol::NoChord { .. } => matches!(no_chord_policy, NoChordPolicy::Break),
        };
        let ghost fold = segment_fold(progression@.take(i as int), no_chord_policy);
        let is_chord = progression[i].chord().is_some();
        if !is_chord && close {
            if current.len() > 0 {
                let ghost before = deep_view(segments@);
                let ghost cur = current@;
                segments.push(current);
                current = Vec::new();
                assert(deep_view(segments@) =~= before.push(cur));
            }
        } else if is_chord {
            current.push(i);
        }
        assert((deep_view(segments@), current@) == segment_fold(progression@.take(i + 1), no_chord_policy));
        i = i + 1;
    }
    assert(progression@.take(progression@.len() as int) =~= progression@);
    if current.len() > 0 {
        let ghost before = deep_view(segments@);
        let ghost cur = current@;
        segments.push(current);
        assert(deep_view(segments@) =~= before.push(cur));
    }
    segments
}

pub open spec fn ev(rule: Seq<char>, contribution: int, why: Seq<char>) -> EvidenceView {
    EvidenceView { rule_id: rule, contribution, explanation: why }
}

/// Key evidence of one chord at `position` in a segment of `seg_len` chords:
/// scale membership (with diatonic quality and spelling), or a chromatic
/// root; and tonic presence, at the opening and at the close.
pub open spec fn chord_key_evidence(c: ParsedChord, position: int, seg_len: int, key: TonalKey) -> Seq<EvidenceView> {
    let d = dist(c.root, key.tonic);
    let kt = key_text(key);
    let sym = c.original_symbol@;
    let membership = match scale_degree_of(d, key.mode) {
        Some(degree) => {
            let q = diatonic_quality_points(c, degree, key.mode);
            seq![ev("builtin.key.scale_membership"@, 30, sym + " has a root in the "@ + kt + " scale"@)] + (if q != 0 {
                seq![ev("builtin.key.diatonic_quality"@, q, sym + " quality "@ + (if q > 0 {
                    "supports"@
                } else {
                    "conflicts with"@
                }) + " the diatonic degree in "@ + kt)]
            } else {
                Seq::empty()
            }) + (if spelling_matches(c.root, key) {
                seq![ev("builtin.key.spelling"@, 8, note_text(c.root) + " uses a scale-degree spelling consistent with "@ + kt)]
            } else {
                Seq::empty()
            })
        },
        None => seq![ev("builtin.key.chromatic_root"@, -18, sym + " has a chromatic root in "@ + kt)],
    };
    let tonic_part = if d == 0 && stable_tonic(c, key.mode) {
        seq![ev("builtin.key.tonic_presence"@, 65, sym + " states the tonic of "@ + kt)] + (if position == 0 {
            seq![ev("builtin.key.opening_tonic"@, 45, "The segment opens on the tonic of "@ + kt)]
        } else {
            Seq::empty()
        }) + (if position + 1 == seg_len {
            seq![ev("builtin.key.closing_tonic"@, 100, "The segment closes on the tonic of "@ + kt)]
        } else {
            Seq::empty()
        })
    } else {
        Seq::empty()
    };
    membership + tonic_part
}

/// Evidence of an arrival on the tonic: V7-I/i, vii°-I/i, or bVII-i in minor.
pub open spec fn arrival_evidence(prev: ParsedChord, target: ParsedChord, key: TonalKey) -> Seq<EvidenceView> {
    if dist(target.root, key.tonic) != 0 || !stable_tonic(target, key.mode) {
        Seq::empty()
    } else {
        let pd = dist(prev.root, key.tonic);
        let pair = prev.original_symbol@ + " -> "@ + target.original_symbol@;
        let kt = key_text(key);
        if pd == 7 && dominant_seventh_chord(prev) {
            seq![ev("builtin.key.authentic_cadence"@, 235, pair + " forms V7-I/i in "@ + kt)]
        } else if pd == 11 && (prev.quality_parsed.class == QualityClass::Diminished || prev.quality_parsed.class
            == QualityClass::HalfDiminished) {
            seq![ev("builtin.key.leading_tone_cadence"@, 145, pair + " forms vii°-I/i in "@ + kt)]
        } else if key.mode == TonalMode::Minor && pd == 10 {
            seq![ev("builtin.key.minor_subtonic_arrival"@, 45, pair + " supports a bVII-i arrival in "@ + kt)]
        } else {
            Seq::empty()
        }
    }
}

/// Evidence of a complete ii-V-I/i.
pub open spec fn two_five_one_evidence(two: ParsedChord, five: ParsedChord, one: ParsedChord, key: TonalKey) -> Seq<EvidenceView> {
    if dist(two.root, key.tonic) == 2 && (two.quality_parsed.class == QualityClass::Minor || two.quality_parsed.class
        == QualityClass::HalfDiminished) && dist(five.root, key.tonic) == 7 && dominant_seventh_chord(five) && dist(
        one.root,
        key.tonic,
    ) == 0 && stable_tonic(one, key.mode) {
        seq![ev("builtin.key.two_five_one"@, 120, "The segment contains a complete ii-V-I/i in "@ + key_text(key))]
    } else {
        Seq::empty()
    }
}

pub open spec fn chords_evidence(seg: Seq<ParsedChord>, n: nat, key: TonalKey) -> Seq<EvidenceView>
    decreases n,
{
    if n == 0 {
        Seq::empty()
    } else {
        chords_evidence(seg, (n - 1) as nat, key) + chord_key_evidence(seg[n - 1], n - 1, seg.len() as int, key)
    }
}

/// Arrival evidence of the first `n` consecutive pairs.
pub open spec fn arrivals(seg: Seq<ParsedChord>, n: nat, key: TonalKey) -> Seq<EvidenceView>
    decreases n,
{
    if n == 0 {
        Seq::empty()
    } else {
        arrivals(seg, (n - 1) as nat, key) + arrival_evidence(seg[n - 1], seg[n as int], key)
    }
}

/// ii-V-I evidence of the first `n` consecutive triples.
pub open spec fn two_five_ones(seg: Seq<ParsedChord>, n: nat, key: TonalKey) -> Seq<EvidenceView>
    decreases n,
{
    if n == 0 {
        Seq::empty()
    } else {
        two_five_ones(seg, (n - 1) as nat, key) + two_five_one_evidence(seg[n - 1], seg[n as int], seg[n as int + 1], key)
    }
}

pub open spec fn windows(len: int, size: int) -> nat {
    if len >= size {
        (len - size + 1) as nat
    } else {
        0
    }
}

/// Evidence of one segment: every chord in order, then its arrivals, then
/// its ii-V-I spans.
pub open spec fn segment_key_evidence(seg: Seq<ParsedChord>, key: TonalKey) -> Seq<EvidenceView> {
    chords_evidence(seg, seg.len(), key) + cadence_evidence(seg, key)
}

/// Cadential evidence of a stretch of chords heard in one key: its
/// arrivals, then its ii-V-I spans.
pub open spec fn cadence_evidence(seg: Seq<ParsedChord>, key: TonalKey) -> Seq<EvidenceView> {
    arrivals(seg, windows(seg.len() as int, 2), key) + two_five_ones(seg, windows(seg.len() as int, 3), key)
}

pub open spec fn seg_chords(items: Seq<ProgressionItem>, seg: Seq<usize>) -> Seq<ParsedChord> {
    seg.map_values(|i: usize| chord_of(items[i as int]).unwrap())
}

pub open spec fn segments_evidence(items: Seq<ProgressionItem>, segs: Seq<Seq<usize>>, n: nat, key: TonalKey) -> Seq<EvidenceView>
    decreases n,
{
    if n == 0 {
        Seq::empty()
    } else {
        segments_evidence(items, segs, (n - 1) as nat, key) + segment_key_evidence(seg_chords(items, segs[n - 1]), key)
    }
}

pub open spec fn hint_evidence(request: GlobalKeyRequest, key: TonalKey) -> Seq<EvidenceView> {
    match request {
        GlobalKeyRequest::Hint(h) => if h == key {
            seq![ev("builtin.key.caller_hint"@, 200, "Caller supplied "@ + key_text(h) + " as a non-binding key hint"@)]
        } else {
            Seq::empty()
        },
        _ => Seq::empty(),
    }
}

/// Every piece of chord-symbol evidence for `key`, segment by segment, then
/// the caller's hint.
pub open spec fn global_key_evidence(items: Seq<ProgressionItem>, key: TonalKey, request: GlobalKeyRequest, policy: NoChordPolicy) -> Seq<EvidenceView> {
    let segs = segments_of(items, policy);
    segments_evidence(items, segs, segs.len(), key) + hint_evidence(request, key)
}

pub open spec fn evidence_total(e: Seq<EvidenceView>) -> int
    decreases e.len(),
{
    if e.len() == 0 {
        0
    } else {
        evidence_total(e.drop_last()) + e.last().contribution
    }
}

pub open spec fn ev_views(e: Seq<ScoreEvidence>) -> Seq<EvidenceView> {
    e.map_values(|x: ScoreEvidence| x@)
}

/// Running total and evidence list, with the total bounded by the length.
pub open spec fn tally(score: i128, evidence: Seq<ScoreEvidence>) -> bool {
    &&& score == evidence_total(ev_views(evidence))
    &&& -400 * evidence.len() <= score <= 400 * evidence.len()
}

fn add_score(score: &mut i128, evidence: &mut Vec<ScoreEvidence>, rule_id: &str, contribution: i64, explanation: String)
    requires
        tally(*old(score), old(evidence)@),
        -400 <= contribution <= 400,
    ensures
        ev_views(final(evidence)@) == ev_views(old(evidence)@).push(ev(rule_id@, contribution as int, explanation@)),
        tally(*final(score), final(evidence)@),
{
    let ghost before = ev_views(evidence@);
    let n = evidence.len();
    assert(n == old(evidence)@.len());
    evidence.push(ScoreEvidence { rule_id: String::from_str(rule_id), contribution, explanation });
    *score = *score + contribution as i128;
    assert(ev_views(evidence@) =~= before.push(ev(rule_id@, contribution as int, explanation@)));
    assert(ev_views(evidence@).drop_last() =~= before);
}

/// `a` followed by `b`.
fn joined(a: &str, b: &str) -> (r: String)
    ensures
        r@ == a@ + b@,
{
    let mut r = String::from_str(a);
    r.append(b);
    r
}

#[verifier::rlimit(40)]
fn key_evidence_for_chord(
    score: &mut i128,
    evidence: &mut Vec<ScoreEvidence>,
    chord: &ParsedChord,
    position: usize,
    seg_len: usize,
    key: TonalKey,
)
    requires
        tally(*old(score), old(evidence)@),
        position < seg_len,
    ensures
        tally(*final(score), final(evidence)@),
        ev_views(final(evidence)@) == ev_views(old(evidence)@) + chord_key_evidence(*chord, position as int, seg_len as int, key),
{
    let ghost start = ev_views(evidence@);
    let kt = key.to_string();
    let sym = chord.original_symbol.as_str();
    let distance = semitone_distance(chord.root, key.tonic);
    match scale_degree_for_distance(distance, key.mode) {
        Some(degree) => {
            let mut why = joined(sym, " has a root in the ");
            why.append(kt.as_str());
            why.append(" scale");
            add_score(score, evidence, "builtin.key.scale_membership", 30, why);
            let quality = diatonic_quality_score(chord, degree, key.mode);
            if quality != 0 {
                let mut why = joined(sym, " quality ");
                why.append(if quality > 0 {
                    "supports"
                } else {
                    "conflicts with"
                });
                why.append(" the diatonic degree in ");
                why.append(kt.as_str());
                add_score(score, evidence, "builtin.key.diatonic_quality", quality, why);
            }
            if spelling_matches_mode(chord.root, key) {
                let mut why = chord.root.to_string();
                why.append(" uses a scale-degree spelling consistent with ");
                why.append(kt.as_str());
                add_score(score, evidence, "builtin.key.spelling", 8, why);
            }
        },
        None => {
            // Chromatic roots are common and may carry a strong applied or
            // modal function elsewhere: a modest penalty only.
            let mut why = joined(sym, " has a chromatic root in ");
            why.append(kt.as_str());
            add_score(score, evidence, "builtin.key.chromatic_root", -18, why);
        },
    }
    if distance == 0 && is_stable_tonic_quality(chord, key.mode) {
        let mut why = joined(sym, " states the tonic of ");
        why.append(kt.as_str());
        add_score(score, evidence, "builtin.key.tonic_presence", 65, why);
        if position == 0 {
            let why = joined("The segment opens on the tonic of ", kt.as_str());
            add_score(score, evidence, "builtin.key.opening_tonic", 45, why);
        }
        if position + 1 == seg_len {
            let why = joined("The segment closes on the tonic of ", kt.as_str());
            add_score(score, evidence, "builtin.key.closing_tonic", 100, why);
        }
    }
    assert(ev_views(evidence@) =~= start + chord_key_evidence(*chord, position as int, seg_len as int, key));
}

fn arrival_evidence_for(
    score: &mut i128,
    evidence: &mut Vec<ScoreEvidence>,
    previous: &ParsedChord,
    target: &ParsedChord,
    key: TonalKey,
)
    requires
        tally(*old(score), old(evidence)@),
    ensures
        tally(*final(score), final(evidence)@),
        ev_views(final(evidence)@) == ev_views(old(evidence)@) + arrival_evidence(*previous, *target, key),
{
    let ghost start = ev_views(evidence@);
    if semitone_distance(target.root, key.tonic) != 0 || !is_stable_tonic_quality(target, key.mode) {
        assert(ev_views(evidence@) =~= start + arrival_evidence(*previous, *target, key));
        return;
    }
    let previous_distance = semitone_distance(previous.root, key.tonic);
    let mut pair = joined(previous.original_symbol.as_str(), " -> ");
    pair.append(target.original_symbol.as_str());
    let kt = key.to_string();
    if previous_distance == 7 && is_dominant_quality(previous) {
        pair.append(" forms V7-I/i in ");
        pair.append(kt.as_str());
        add_score(score, evidence, "builtin.key.authentic_cadence", 235, pair);
    } else if previous_distance == 11 && matches!(
        previous.quality_parsed.class,
        QualityClass::Diminished | QualityClass::HalfDiminished
    ) {
        pair.append(" forms vii°-I/i in ");
        pair.append(kt.as_str());
        add_score(score, evidence, "builtin.key.leading_tone_cadence", 145, pair);
    } else if matches!(key.mode, TonalMode::Minor) && previous_distance == 10 {
        pair.append(" supports a bVII-i arrival in ");
        pair.append(kt.as_str());
        add_score(score, evidence, "builtin.key.minor_subtonic_arrival", 45, pair);
    }
    assert(ev_views(evidence@) =~= start + arrival_evidence(*previous, *target, key));
}

fn two_five_one_for(
    score: &mut i128,
    evidence: &mut Vec<ScoreEvidence>,
    two: &ParsedChord,
    five: &ParsedChord,
    one: &ParsedChord,
    key: TonalKey,
)
    requires
        tally(*old(score), old(evidence)@),
    ensures
        tally(*final(score), final(evidence)@),
        ev_views(final(evidence)@) == ev_views(old(evidence)@) + two_five_one_evidence(*two, *five, *one, key),
{
    let ghost start = ev_views(evidence@);
    if semitone_distance(two.root, key.tonic) == 2 && matches!(
        two.quality_parsed.class,
        QualityClass::Minor | QualityClass::HalfDiminished
    ) && semitone_distance(five.root, key.tonic) == 7 && is_dominant_quality(five) && semitone_distance(
        one.root,
        key.tonic,
    ) == 0 && is_stable_tonic_quality(one, key.mode) {
        let kt = key.to_string();
        let why = joined("The segment contains a complete ii-V-I/i in ", kt.as_str());
        add_score(score, evidence, "builtin.key.two_five_one", 120, why);
    }
    assert(ev_views(evidence@) =~= start + two_five_one_evidence(*two, *five, *one, key));
}


pub(crate) fn chord_at(progression: &[ProgressionItem], index: usize) -> (r: &ParsedChord)
    requires
        index < progression@.len(),
        chord_of(progression@[index as int]) is Some,
    ensures
        *r == chord_of(progression@[index as int]).unwrap(),
{
    match &progression[index].symbol {
        ParsedSymbol::Chord(c) => c,
        _ => {
            assert(false);
            progression[index].chord().unwrap()
        },
    }
}

fn segment_evidence_for(
    score: &mut i128,
    evidence: &mut Vec<ScoreEvidence>,
    progression: &[ProgressionItem],
    seg: &Vec<usize>,
    key: TonalKey,
)
    requires
        tally(*old(score), old(evidence)@),
        indexes_chords(progression@, seg@),
    ensures
        tally(*final(score), final(evidence)@),
        ev_views(final(evidence)@) == ev_views(old(evidence)@) + segment_key_evidence(seg_chords(progression@, seg@), key),
{
    let ghost start = ev_views(evidence@);
    let ghost chords = seg_chords(progression@, seg@);
    let n = seg.len();
    let mut p: usize = 0;
    assert(start + chords_evidence(chords, 0, key) =~= start);
    while p < n
        invariant
            p <= n == seg@.len() == chords.len(),
            indexes_chords(progression@, seg@),
            chords == seg_chords(progression@, seg@),
            tally(*score, evidence@),
            ev_views(evidence@) == start + chords_evidence(chords, p as nat, key),
        decreases n - p,
    {
        let chord = chord_at(progression, seg[p]);
        assert(*chord == chords[p as int]);
        key_evidence_for_chord(score, evidence, chord, p, n, key);
        assert(ev_views(evidence@) =~= start + chords_evidence(chords, (p + 1) as nat, key));
        p = p + 1;
    }
    cadence_evidence_for(score, evidence, progression, seg, key);
    assert(ev_views(evidence@) =~= start + segment_key_evidence(chords, key));
}

fn cadence_evidence_for(
    score: &mut i128,
    evidence: &mut Vec<ScoreEvidence>,
    progression: &[ProgressionItem],
    seg: &Vec<usize>,
    key: TonalKey,
)
    requires
        tally(*old(score), old(evidence)@),
        indexes_chords(progression@, seg@),
    ensures
        tally(*final(score), final(evidence)@),
        ev_views(final(evidence)@) == ev_views(old(evidence)@) + cadence_evidence(seg_chords(progression@, seg@), key),
{
    let ghost chords = seg_chords(progression@, seg@);
    let n = seg.len();
    let ghost after_chords = ev_views(evidence@);
    let mut w: usize = 0;
    let pairs: usize = if n >= 2 {
        n - 1
    } else {
        0
    };
    assert(after_chords + arrivals(chords, 0, key) =~= after_chords);
    while w < pairs
        invariant
            w <= pairs,
            pairs == windows(n as int, 2),
            n == seg@.len() == chords.len(),
            indexes_chords(progression@, seg@),
            chords == seg_chords(progression@, seg@),
            tally(*score, evidence@),
            ev_views(evidence@) == after_chords + arrivals(chords, w as nat, key),
        decreases pairs - w,
    {
        let previous = chord_at(progression, seg[w]);
        let target = chord_at(progression, seg[w + 1]);
        assert(*previous == chords[w as int]);
        assert(*target == chords[w + 1]);
        arrival_evidence_for(score, evidence, previous, target, key);
        assert(ev_views(evidence@) =~= after_chords + arrivals(chords, (w + 1) as nat, key));
        w = w + 1;
    }
    let ghost after_arrivals = ev_views(evidence@);
    let triples: usize = if n >= 3 {
        n - 2
    } else {
        0
    };
    let mut t: usize = 0;
    assert(after_arrivals + two_five_ones(chords, 0, key) =~= after_arrivals);
    while t < triples
        invariant
            t <= triples,
            triples == windows(n as int, 3),
            n == seg@.len() == chords.len(),
            indexes_chords(progression@, seg@),
            chords == seg_chords(progression@, seg@),
            tally(*score, evidence@),
            ev_views(evidence@) == after_arrivals + two_five_ones(chords, t as nat, key),
        decreases triples - t,
    {
        let two = chord_at(progression, seg[t]);
        let five = chord_at(progression, seg[t + 1]);
        let one = chord_at(progression, seg[t + 2]);
        assert(*two == chords[t as int]);
        assert(*five == chords[t + 1]);
        assert(*one == chords[t + 2]);
        two_five_one_for(score, evidence, two, five, one, key);
        assert(ev_views(evidence@) =~= after_arrivals + two_five_ones(chords, (t + 1) as nat, key));
        t = t + 1;
    }
    assert(ev_views(evidence@) =~= after_chords + cadence_evidence(chords, key));
}

/// Chord-symbol evidence for one global key hypothesis, with its total
/// (hundredths).
pub fn score_global_key(
    progression: &[ProgressionItem],
    key: TonalKey,
    request: GlobalKeyRequest,
    no_chord_policy: NoChordPolicy,
) -> (r: (i128, Vec<ScoreEvidence>))
    ensures
        ev_views(r.1@) == global_key_evidence(progression@, key, request, no_chord_policy),
        r.0 == evidence_total(ev_views(r.1@)),
{
    let segments = chord_segments(progression, no_chord_policy);
    let ghost segs = segments_of(progression@, no_chord_policy);
    let total = progression.len();
    assert(total == progression@.len());
    proof {
        lemma_segments_index_chords(progression@, no_chord_policy);
    }
    let mut score: i128 = 0;
    let mut evidence: Vec<ScoreEvidence> = Vec::new();
    assert(ev_views(evidence@) =~= Seq::<EvidenceView>::empty());
    let mut k: usize = 0;
    while k < segments.len()
        invariant
            k <= segments@.len(),
            deep_view(segments@) == segs,
            segs == segments_of(progression@, no_chord_policy),
            forall|j: int| 0 <= j < segs.len() ==> indexes_chords(progression@, #[trigger] segs[j]),
            tally(score, evidence@),
            ev_views(evidence@) == segments_evidence(progression@, segs, k as nat, key),
        decreases segments.len() - k,
    {
        assert(segments@[k as int]@ == segs[k as int]);
        segment_evidence_for(&mut score, &mut evidence, progression, &segments[k], key);
        k = k + 1;
    }
    let ghost before_hint = ev_views(evidence@);
    if let GlobalKeyRequest::Hint(hint) = request {
        if hint == key {
            let mut why = joined("Caller supplied ", hint.to_string().as_str());
            why.append(" as a non-binding key hint");
            add_score(&mut score, &mut evidence, "builtin.key.caller_hint", 200, why);
        }
    }
    assert(ev_views(evidence@) =~= before_hint + hint_evidence(request, key));
    (score, evidence)
}

/// Active key of event `e` along a keyed path: that of the event's first
/// selection, the global key when it has none.
pub open spec fn key_of_event(sels: Seq<KeyedPathSelection>, global: TonalKey, e: usize) -> TonalKey
    decreases sels.len(),
{
    if sels.len() == 0 {
        global
    } else if sels[0].selection.event_index == e {
        sels[0].active_key
    } else {
        key_of_event(sels.drop_first(), global, e)
    }
}

pub open spec fn seg_keys(sels: Seq<KeyedPathSelection>, global: TonalKey, seg: Seq<usize>) -> Seq<TonalKey> {
    seg.map_values(|e: usize| key_of_event(sels, global, e))
}

/// Chord evidence of the first `n` chords, each in its own key.
pub open spec fn keyed_chords_evidence(chords: Seq<ParsedChord>, keys: Seq<TonalKey>, n: nat) -> Seq<EvidenceView>
    decreases n,
{
    if n == 0 {
        Seq::empty()
    } else {
        keyed_chords_evidence(chords, keys, (n - 1) as nat) + chord_key_evidence(
            chords[n - 1],
            n - 1,
            chords.len() as int,
            keys[n - 1],
        )
    }
}

/// Start of the stretch of equal keys that ends with the `n`-th chord.
pub open spec fn run_start(keys: Seq<TonalKey>, n: int) -> int
    decreases n,
{
    if n <= 1 {
        0
    } else if keys[n - 2] == keys[n - 1] {
        run_start(keys, n - 1)
    } else {
        n - 1
    }
}

/// A stretch of equal keys starts at or before its last chord.
pub proof fn lemma_run_start_bounds(keys: Seq<TonalKey>, n: int)
    ensures
        0 <= run_start(keys, n),
        n >= 1 ==> run_start(keys, n) < n,
    decreases n,
{
    if n > 1 {
        lemma_run_start_bounds(keys, n - 1);
    }
}

/// Cadential evidence of the first `n` chords, stretch of equal keys by
/// stretch: a cadence supports only the key active on all of its chords.
pub open spec fn runs_cadence(chords: Seq<ParsedChord>, keys: Seq<TonalKey>, n: int) -> Seq<EvidenceView>
    decreases n,
{
    if n <= 0 {
        Seq::empty()
    } else {
        proof {
            lemma_run_start_bounds(keys, n);
        }
        let a = run_start(keys, n);
        runs_cadence(chords, keys, a) + cadence_evidence(chords.subrange(a, n), keys[n - 1])
    }
}

pub open spec fn keyed_segment_evidence(chords: Seq<ParsedChord>, keys: Seq<TonalKey>) -> Seq<EvidenceView> {
    keyed_chords_evidence(chords, keys, chords.len()) + runs_cadence(chords, keys, chords.len() as int)
}

pub open spec fn keyed_segments_evidence(
    items: Seq<ProgressionItem>,
    segs: Seq<Seq<usize>>,
    n: nat,
    sels: Seq<KeyedPathSelection>,
    global: TonalKey,
) -> Seq<EvidenceView>
    decreases n,
{
    if n == 0 {
        Seq::empty()
    } else {
        keyed_segments_evidence(items, segs, (n - 1) as nat, sels, global) + keyed_segment_evidence(
            seg_chords(items, segs[n - 1]),
            seg_keys(sels, global, segs[n - 1]),
        )
    }
}

/// Key evidence along a keyed path: each chord scored in the key active at
/// it, cadences only within stretches of one key, segment by segment, then
/// the caller's hint for the path's global key.
pub open spec fn segmented_key_evidence(
    items: Seq<ProgressionItem>,
    sels: Seq<KeyedPathSelection>,
    global: TonalKey,
    request: GlobalKeyRequest,
    policy: NoChordPolicy,
) -> Seq<EvidenceView> {
    let segs = segments_of(items, policy);
    keyed_segments_evidence(items, segs, segs.len(), sels, global) + hint_evidence(request, global)
}

fn event_key(path: &KeyedAnalysisPath, e: usize) -> (r: TonalKey)
    ensures
        r == key_of_event(path.selections@, path.global_key, e),
{
    let ghost sels = path.selections@;
    let mut i: usize = 0;
    assert(sels.skip(0) =~= sels);
    while i < path.selections.len()
        invariant
            i <= sels.len(),
            sels == path.selections@,
            key_of_event(sels, path.global_key, e) == key_of_event(sels.skip(i as int), path.global_key, e),
        decreases path.selections.len() - i,
    {
        assert(sels.skip(i as int).drop_first() =~= sels.skip(i + 1));
        assert(sels.skip(i as int)[0] == sels[i as int]);
        if path.selections[i].selection.event_index == e {
            return path.selections[i].active_key;
        }
        i = i + 1;
    }
    assert(sels.skip(i as int) =~= Seq::<KeyedPathSelection>::empty());
    path.global_key
}

fn keyed_segment_evidence_for(
    score: &mut i128,
    evidence: &mut Vec<ScoreEvidence>,
    progression: &[ProgressionItem],
    seg: &Vec<usize>,
    path: &KeyedAnalysisPath,
)
    requires
        tally(*old(score), old(evidence)@),
        indexes_chords(progression@, seg@),
    ensures
        tally(*final(score), final(evidence)@),
        ev_views(final(evidence)@) == ev_views(old(evidence)@) + keyed_segment_evidence(
            seg_chords(progression@, seg@),
            seg_keys(path.selections@, path.global_key, seg@),
        ),
{
    let ghost start = ev_views(evidence@);
    let ghost chords = seg_chords(progression@, seg@);
    let ghost keys = seg_keys(path.selections@, path.global_key, seg@);
    let n = seg.len();
    let mut p: usize = 0;
    assert(start + keyed_chords_evidence(chords, keys, 0) =~= start);
    while p < n
        invariant
            p <= n == seg@.len() == chords.len() == keys.len(),
            indexes_chords(progression@, seg@),
            chords == seg_chords(progression@, seg@),
            keys == seg_keys(path.selections@, path.global_key, seg@),
            tally(*score, evidence@),
            ev_views(evidence@) == start + keyed_chords_evidence(chords, keys, p as nat),
        decreases n - p,
    {
        let chord = chord_at(progression, seg[p]);
        assert(*chord == chords[p as int]);
        let key = event_key(path, seg[p]);
        assert(key == keys[p as int]);
        key_evidence_for_chord(score, evidence, chord, p, n, key);
        assert(ev_views(evidence@) =~= start + keyed_chords_evidence(chords, keys, (p + 1) as nat));
        p = p + 1;
    }
    let ghost mid = ev_views(evidence@);
    let mut run: Vec<usize> = Vec::new();
    let mut a: usize = 0;
    let mut previous_key: TonalKey = path.global_key;
    let mut q: usize = 0;
    assert(mid + runs_cadence(chords, keys, 0) =~= mid);
    while q < n
        invariant
            q <= n == seg@.len() == chords.len() == keys.len(),
            indexes_chords(progression@, seg@),
            chords == seg_chords(progression@, seg@),
            keys == seg_keys(path.selections@, path.global_key, seg@),
            tally(*score, evidence@),
            a <= q,
            q > 0 ==> a == run_start(keys, q as int) && a < q && previous_key == keys[q - 1],
            q == 0 ==> a == 0,
            run@ == seg@.subrange(a as int, q as int),
            ev_views(evidence@) == mid + runs_cadence(chords, keys, a as int),
        decreases n - q,
    {
        let key = event_key(path, seg[q]);
        assert(key == keys[q as int]);
        if q > 0 && key != previous_key {
            assert(indexes_chords(progression@, run@));
            assert(seg_chords(progression@, run@) =~= chords.subrange(a as int, q as int));
            cadence_evidence_for(score, evidence, progression, &run, previous_key);
            proof {
                lemma_run_start_bounds(keys, q as int);
                assert(runs_cadence(chords, keys, q as int) == runs_cadence(chords, keys, a as int) + cadence_evidence(
                    chords.subrange(a as int, q as int),
                    keys[q - 1],
                ));
            }
            assert(ev_views(evidence@) =~= mid + runs_cadence(chords, keys, q as int));
            run = Vec::new();
            a = q;
        }
        run.push(seg[q]);
        previous_key = key;
        assert(run@ =~= seg@.subrange(a as int, q + 1));
        q = q + 1;
    }
    if n > 0 {
        assert(indexes_chords(progression@, run@));
        assert(seg_chords(progression@, run@) =~= chords.subrange(a as int, n as int));
        cadence_evidence_for(score, evidence, progression, &run, previous_key);
        proof {
            lemma_run_start_bounds(keys, n as int);
        }
        assert(ev_views(evidence@) =~= mid + runs_cadence(chords, keys, n as int));
    }
    assert(ev_views(evidence@) =~= start + keyed_segment_evidence(chords, keys));
}

/// Chord-symbol evidence for the keys a path selects, with its total
/// (hundredths): each chord is heard in the key active at it, so a late
/// cadence in a new key is not credited to the opening key.
pub fn score_segmented_key_path(
    progression: &[ProgressionItem],
    path: &KeyedAnalysisPath,
    request: GlobalKeyRequest,
    no_chord_policy: NoChordPolicy,
) -> (r: (i128, Vec<ScoreEvidence>))
    ensures
        ev_views(r.1@) == segmented_key_evidence(progression@, path.selections@, path.global_key, request, no_chord_policy),
        r.0 == evidence_total(ev_views(r.1@)),
{
    let segments = chord_segments(progression, no_chord_policy);
    let ghost segs = segments_of(progression@, no_chord_policy);
    let total = progression.len();
    assert(total == progression@.len());
    proof {
        lemma_segments_index_chords(progression@, no_chord_policy);
    }
    let mut score: i128 = 0;
    let mut evidence: Vec<ScoreEvidence> = Vec::new();
    assert(ev_views(evidence@) =~= Seq::<EvidenceView>::empty());
    let mut k: usize = 0;
    while k < segments.len()
        invariant
            k <= segments@.len(),
            deep_view(segments@) == segs,
            segs == segments_of(progression@, no_chord_policy),
            forall|j: int| 0 <= j < segs.len() ==> indexes_chords(progression@, #[trigger] segs[j]),
            tally(score, evidence@),
            ev_views(evidence@) == keyed_segments_evidence(progression@, segs, k as nat, path.selections@, path.global_key),
        decreases segments.len() - k,
    {
        assert(segments@[k as int]@ == segs[k as int]);
        keyed_segment_evidence_for(&mut score, &mut evidence, progression, &segments[k], path);
        k = k + 1;
    }
    let ghost before_hint = ev_views(evidence@);
    if let GlobalKeyRequest::Hint(hint) = request {
        if hint == path.global_key {
            let mut why = joined("Caller supplied ", hint.to_string().as_str());
            why.append(" as a non-binding key hint");
            add_score(&mut score, &mut evidence, "builtin.key.caller_hint", 200, why);
        }
    }
    assert(ev_views(evidence@) =~= before_hint + hint_evidence(request, path.global_key));
    (score, evidence)
}

proof fn lemma_key_of_event_global(sels: Seq<KeyedPathSelection>, global: TonalKey, e: usize)
    requires
        forall|k: int| 0 <= k < sels.len() ==> (#[trigger] sels[k]).active_key == global,
    ensures
        key_of_event(sels, global, e) == global,
    decreases sels.len(),
{
    if sels.len() > 0 {
        assert forall|k: int| 0 <= k < sels.drop_first().len() implies (#[trigger] sels.drop_first()[k]).active_key
            == global by {
            assert(sels.drop_first()[k] == sels[k + 1]);
        }
        lemma_key_of_event_global(sels.drop_first(), global, e);
    }
}

proof fn lemma_one_key_chords(chords: Seq<ParsedChord>, keys: Seq<TonalKey>, key: TonalKey, n: nat)
    requires
        n <= keys.len(),
        forall|k: int| 0 <= k < keys.len() ==> #[trigger] keys[k] == key,
    ensures
        keyed_chords_evidence(chords, keys, n) == chords_evidence(chords, n, key),
    decreases n,
{
    if n > 0 {
        lemma_one_key_chords(chords, keys, key, (n - 1) as nat);
        assert(keys[n - 1] == key);
    }
}

proof fn lemma_one_key_runs(chords: Seq<ParsedChord>, keys: Seq<TonalKey>, key: TonalKey, n: int)
    requires
        1 <= n <= keys.len(),
        forall|k: int| 0 <= k < keys.len() ==> #[trigger] keys[k] == key,
    ensures
        run_start(keys, n) == 0,
        runs_cadence(chords, keys, n) == cadence_evidence(chords.subrange(0, n), key),
    decreases n,
{
    if n > 1 {
        lemma_one_key_runs(chords, keys, key, n - 1);
        assert(keys[n - 2] == key && keys[n - 1] == key);
    }
    assert(keys[n - 1] == key);
    assert(runs_cadence(chords, keys, 0) =~= Seq::<EvidenceView>::empty());
    assert(runs_cadence(chords, keys, n) =~= cadence_evidence(chords.subrange(0, n), key));
}

proof fn lemma_one_key_segments(
    items: Seq<ProgressionItem>,
    segs: Seq<Seq<usize>>,
    n: nat,
    sels: Seq<KeyedPathSelection>,
    global: TonalKey,
)
    requires
        n <= segs.len(),
        forall|k: int| 0 <= k < sels.len() ==> (#[trigger] sels[k]).active_key == global,
    ensures
        keyed_segments_evidence(items, segs, n, sels, global) == segments_evidence(items, segs, n, global),
    decreases n,
{
    if n > 0 {
        lemma_one_key_segments(items, segs, (n - 1) as nat, sels, global);
        let seg = segs[n - 1];
        let chords = seg_chords(items, seg);
        let keys = seg_keys(sels, global, seg);
        assert forall|k: int| 0 <= k < keys.len() implies #[trigger] keys[k] == global by {
            lemma_key_of_event_global(sels, global, seg[k]);
        }
        lemma_one_key_chords(chords, keys, global, chords.len());
        if chords.len() > 0 {
            lemma_one_key_runs(chords, keys, global, chords.len() as int);
            assert(chords.subrange(0, chords.len() as int) =~= chords);
        } else {
            assert(cadence_evidence(chords, global) =~= Seq::<EvidenceView>::empty());
        }
        assert(keyed_segment_evidence(chords, keys) == segment_key_evidence(chords, global));
    }
}

/// Without a selected modulation the segmented pass observes the same key
/// sequence as the global pass: when every selection's active key is the
/// path's global key, both yield the same evidence.
pub proof fn lemma_segmented_without_modulation(
    items: Seq<ProgressionItem>,
    sels: Seq<KeyedPathSelection>,
    global: TonalKey,
    request: GlobalKeyRequest,
    policy: NoChordPolicy,
)
    requires
        forall|k: int| 0 <= k < sels.len() ==> (#[trigger] sels[k]).active_key == global,
    ensures
        segmented_key_evidence(items, sels, global, request, policy) == global_key_evidence(items, global, request, policy),
{
    let segs = segments_of(items, policy);
    lemma_one_key_segments(items, segs, segs.len(), sels, global);
}

#[derive(Clone, Debug, PartialEq)]
/// One event in a joint key/function path.
pub struct KeyedPathSelection {
    /// The semantic lattice selection, with every specialized classification.
    pub selection: PathSelection,
    /// Structural key region active at this event: the home key outside a
    /// modulation, the newly established key inside one.
    pub active_key: TonalKey,
    /// Most local tonal perspective; `active_key` unless the selected
    /// candidate tonicizes another degree.
    pub local_key: TonalKey,
    pub scope: TonalScope,
    pub local_degree: Option<Degree>,
    pub role: Option<HarmonicRole>,
    pub is_pivot: bool,
    pub is_modulation_confirmation: bool,
    /// One-based number of chord events spent continuously in `active_key`.
    pub key_region_age_chords: usize,
    /// Unresolved dominant targets after this event.
    pub pending_resolutions: Vec<PendingResolution>,
    /// Source events whose remembered goals resolve on this event.
    pub resolved_resolution_sources: Vec<usize>,
    /// Most recent predominant still waiting for a dominant after this event.
    pub pending_predominant: Option<PendingPredominant>,
    /// Predominant events whose full cadence completes here.
    pub resolved_cadence_predominant_sources: Vec<usize>,
}

#[derive(Clone, Debug, PartialEq)]
/// One ranked joint interpretation of the complete progression. Scores are
/// in hundredths of a point.
pub struct KeyedAnalysisPath {
    pub global_key: TonalKey,
    pub selections: Vec<KeyedPathSelection>,
    pub modulations: Vec<ModulationSpan>,
    /// Resolved immediate, delayed and nested dominant obligations.
    pub harmonic_resolutions: Vec<HarmonicResolution>,
    /// Complete predominant-dominant-resolution spans.
    pub cadential_spans: Vec<CadentialSpan>,
    pub function_score: i128,
    pub key_score: i128,
    pub modulation_score: i128,
    /// Whole-path contribution of longer-range harmonic memory.
    pub memory_score: i128,
    pub total_score: i128,
    pub evidence: Vec<ScoreEvidence>,
}


/// Abstract form of a keyed selection.
pub struct KeyedSelectionView {
    pub selection: SelectionView,
    pub active_key: TonalKey,
    pub local_key: TonalKey,
    pub scope: TonalScope,
    pub local_degree: Option<Degree>,
    pub role: Option<HarmonicRole>,
    pub is_pivot: bool,
    pub is_modulation_confirmation: bool,
    pub key_region_age_chords: usize,
    pub pending_resolutions: Seq<PendingResolution>,
    pub resolved_resolution_sources: Seq<usize>,
    pub pending_predominant: Option<PendingPredominant>,
    pub resolved_cadence_predominant_sources: Seq<usize>,
}

impl View for KeyedPathSelection {
    type V = KeyedSelectionView;

    open spec fn view(&self) -> KeyedSelectionView {
        KeyedSelectionView {
            selection: self.selection@,
            active_key: self.active_key,
            local_key: self.local_key,
            scope: self.scope,
            local_degree: self.local_degree,
            role: self.role,
            is_pivot: self.is_pivot,
            is_modulation_confirmation: self.is_modulation_confirmation,
            key_region_age_chords: self.key_region_age_chords,
            pending_resolutions: self.pending_resolutions@,
            resolved_resolution_sources: self.resolved_resolution_sources@,
            pending_predominant: self.pending_predominant,
            resolved_cadence_predominant_sources: self.resolved_cadence_predominant_sources@,
        }
    }
}

impl KeyedPathSelection {
    /// A copy of the same selection.
    pub fn duplicate(&self) -> (r: Self)
        ensures
            r@ == self@,
    {
        KeyedPathSelection {
            selection: self.selection.duplicate(),
            active_key: self.active_key,
            local_key: self.local_key,
            scope: self.scope,
            local_degree: self.local_degree,
            role: self.role,
            is_pivot: self.is_pivot,
            is_modulation_confirmation: self.is_modulation_confirmation,
            key_region_age_chords: self.key_region_age_chords,
            pending_resolutions: crate::analysis::memory::copy_goals(&self.pending_resolutions),
            resolved_resolution_sources: copy_values(&self.resolved_resolution_sources),
            pending_predominant: self.pending_predominant,
            resolved_cadence_predominant_sources: copy_values(&self.resolved_cadence_predominant_sources),
        }
    }
}

pub open spec fn keyed_selection_views(s: Seq<KeyedPathSelection>) -> Seq<KeyedSelectionView> {
    s.map_values(|x: KeyedPathSelection| x@)
}

/// The two paths hold the same values, field by field.
pub open spec fn same_path(a: KeyedAnalysisPath, b: KeyedAnalysisPath) -> bool {
    &&& a.global_key == b.global_key
    &&& keyed_selection_views(a.selections@) == keyed_selection_views(b.selections@)
    &&& a.modulations@.map_values(|x: ModulationSpan| x@) == b.modulations@.map_values(|x: ModulationSpan| x@)
    &&& a.harmonic_resolutions@.map_values(|x: HarmonicResolution| x@) == b.harmonic_resolutions@.map_values(
        |x: HarmonicResolution| x@,
    )
    &&& a.cadential_spans@.map_values(|x: CadentialSpan| x@) == b.cadential_spans@.map_values(|x: CadentialSpan| x@)
    &&& a.function_score == b.function_score
    &&& a.key_score == b.key_score
    &&& a.modulation_score == b.modulation_score
    &&& a.memory_score == b.memory_score
    &&& a.total_score == b.total_score
    &&& ev_views(a.evidence@) == ev_views(b.evidence@)
}

impl KeyedAnalysisPath {
    /// A copy of the same path.
    pub fn duplicate(&self) -> (r: Self)
        ensures
            same_path(r, *self),
    {
        let mut selections: Vec<KeyedPathSelection> = Vec::new();
        let mut i: usize = 0;
        while i < self.selections.len()
            invariant
                i <= self.selections@.len(),
                keyed_selection_views(selections@) == keyed_selection_views(self.selections@).take(i as int),
            decreases self.selections.len() - i,
        {
            let ghost before = keyed_selection_views(selections@);
            selections.push(self.selections[i].duplicate());
            assert(keyed_selection_views(selections@) =~= before.push(self.selections@[i as int]@));
            assert(keyed_selection_views(self.selections@).take(i + 1) =~= keyed_selection_views(self.selections@).take(
                i as int,
            ).push(self.selections@[i as int]@));
            i = i + 1;
        }
        assert(keyed_selection_views(self.selections@).take(i as int) =~= keyed_selection_views(self.selections@));
        let mut resolutions: Vec<HarmonicResolution> = Vec::new();
        let mut j: usize = 0;
        while j < self.harmonic_resolutions.len()
            invariant
                j <= self.harmonic_resolutions@.len(),
                resolutions@.len() == j,
                forall|q: int| 0 <= q < j ==> (#[trigger] resolutions@[q])@ == self.harmonic_resolutions@[q]@,
            decreases self.harmonic_resolutions.len() - j,
        {
            resolutions.push(self.harmonic_resolutions[j].duplicate());
            j = j + 1;
        }
        assert(resolutions@.map_values(|x: HarmonicResolution| x@) =~= self.harmonic_resolutions@.map_values(
            |x: HarmonicResolution| x@,
        ));
        let mut cadences: Vec<CadentialSpan> = Vec::new();
        let mut q: usize = 0;
        while q < self.cadential_spans.len()
            invariant
                q <= self.cadential_spans@.len(),
                cadences@.len() == q,
                forall|w: int| 0 <= w < q ==> (#[trigger] cadences@[w])@ == self.cadential_spans@[w]@,
            decreases self.cadential_spans.len() - q,
        {
            cadences.push(self.cadential_spans[q].duplicate());
            q = q + 1;
        }
        assert(cadences@.map_values(|x: CadentialSpan| x@) =~= self.cadential_spans@.map_values(|x: CadentialSpan| x@));
        let modulations = crate::analysis::modulation::duplicate_spans(&self.modulations);
        let evidence = crate::analysis::evidence::duplicate_evidence(&self.evidence);
        assert(ev_views(evidence@) =~= ev_views(self.evidence@));
        KeyedAnalysisPath {
            global_key: self.global_key,
            selections,
            modulations,
            harmonic_resolutions: resolutions,
            cadential_spans: cadences,
            function_score: self.function_score,
            key_score: self.key_score,
            modulation_score: self.modulation_score,
            memory_score: self.memory_score,
            total_score: self.total_score,
            evidence,
        }
    }
}


/// The perspective as the global key hears it: its global tonic is the
/// key's tonic, and a global-scope perspective on the key's own tonic takes
/// the key's spelling and mode.
pub open spec fn normalized_perspective(p: TonalPerspective, global: TonalKey) -> TonalPerspective {
    if pc(p.local_tonic) == pc(global.tonic) && p.scope == TonalScope::Global {
        TonalPerspective { global_tonic: global.tonic, local_tonic: global.tonic, mode: global.mode, ..p }
    } else {
        TonalPerspective { global_tonic: global.tonic, ..p }
    }
}

pub open spec fn normalized_classification(c: ClassificationView, global: TonalKey) -> ClassificationView {
    ClassificationView {
        perspective: match c.perspective {
            Some(p) => Some(normalized_perspective(p, global)),
            None => None,
        },
        ..c
    }
}

pub open spec fn normalized_selection(s: SelectionView, global: TonalKey) -> SelectionView {
    SelectionView {
        classifications: s.classifications.map_values(|c: ClassificationView| normalized_classification(c, global)),
        ..s
    }
}

/// Among the first `n` classifications, the one whose perspective is kept:
/// the last tonicization among those with a perspective, else the last one
/// with a perspective.
pub open spec fn chosen_classification(cs: Seq<ClassificationView>, n: int) -> Option<int>
    decreases n,
{
    if n <= 0 {
        None
    } else {
        let prev = chosen_classification(cs, n - 1);
        match cs[n - 1].perspective {
            None => prev,
            Some(p) => if p.scope == TonalScope::Tonicization {
                Some(n - 1)
            } else {
                match prev {
                    Some(j) => if cs[j].perspective matches Some(q) && q.scope == TonalScope::Tonicization {
                        prev
                    } else {
                        Some(n - 1)
                    },
                    None => Some(n - 1),
                }
            },
        }
    }
}

pub open spec fn chord_at_event(items: Seq<ProgressionItem>, e: int) -> Option<ParsedChord> {
    if 0 <= e < items.len() {
        chord_of(items[e])
    } else {
        None
    }
}

/// The local key a kept perspective gives: its tonic, in its own mode when
/// known, else the global mode on the global tonic, else the mode the
/// progression suggests for that tonic.
pub open spec fn perspective_key(items: Seq<ProgressionItem>, global: TonalKey, p: TonalPerspective) -> TonalKey {
    let mode = if p.mode != TonalMode::Unknown {
        p.mode
    } else if pc(p.local_tonic) == pc(global.tonic) {
        global.mode
    } else {
        local_mode_from(items, p.local_tonic)
    };
    TonalKey { tonic: p.local_tonic, mode }
}

/// A lattice selection placed on a keyed path under `global`.
pub open spec fn keyed_view(items: Seq<ProgressionItem>, global: TonalKey, sel: SelectionView) -> KeyedSelectionView {
    let cs = sel.classifications;
    let chosen = chosen_classification(cs, cs.len() as int);
    let chord = chord_at_event(items, sel.event_index);
    let local_key = match chosen {
        Some(j) => perspective_key(items, global, cs[j].perspective->0),
        None => global,
    };
    let scope = match chosen {
        Some(j) => cs[j].perspective->0.scope,
        None => TonalScope::Global,
    };
    let own_degree = match chosen {
        Some(j) => cs[j].local_degree,
        None => None,
    };
    let own_role = match chosen {
        Some(j) => cs[j].role,
        None => None,
    };
    let local_degree = if own_degree is Some {
        own_degree
    } else {
        match chord {
            Some(c) => Some(spelled_degree(c.root, local_key.tonic)),
            None => None,
        }
    };
    let role = if own_role is Some {
        own_role
    } else {
        match chord {
            Some(c) => role_in_key(c, local_key),
            None => None,
        }
    };
    KeyedSelectionView {
        selection: sel,
        active_key: global,
        local_key,
        scope,
        local_degree,
        role,
        is_pivot: false,
        is_modulation_confirmation: false,
        key_region_age_chords: 0,
        pending_resolutions: Seq::empty(),
        resolved_resolution_sources: Seq::empty(),
        pending_predominant: None,
        resolved_cadence_predominant_sources: Seq::empty(),
    }
}

fn normalize_global_mode(selection: &mut PathSelection, global_key: TonalKey)
    ensures
        final(selection)@ == normalized_selection(old(selection)@, global_key),
{
    let mut rest: Vec<HarmonicClassification> = Vec::new();
    std::mem::swap(&mut rest, &mut selection.harmonic_classifications);
    let ghost all = rest@;
    let n = rest.len();
    let mut out: Vec<HarmonicClassification> = Vec::new();
    let mut i: usize = 0;
    assert(all.skip(0) =~= all);
    while i < n
        invariant
            n == all.len(),
            i <= n,
            rest@ == all.skip(i as int),
            out@.len() == i,
            forall|k: int| 0 <= k < i ==> (#[trigger] out@[k])@ == normalized_classification(all[k]@, global_key),
        decreases n - i,
    {
        assert(rest@.len() > 0);
        let mut c = rest.remove(0);
        assert(c == all[i as int]);
        assert(rest@ =~= all.skip(i + 1));
        c.perspective = match c.perspective {
            Some(p) => {
                let same = p.local_tonic.pitch_class().value() == global_key.tonic.pitch_class().value();
                if same && matches!(p.scope, TonalScope::Global) {
                    Some(TonalPerspective {
                        global_tonic: global_key.tonic,
                        local_tonic: global_key.tonic,
                        mode: global_key.mode,
                        ..p
                    })
                } else {
                    Some(TonalPerspective { global_tonic: global_key.tonic, ..p })
                }
            },
            None => None,
        };
        out.push(c);
        i = i + 1;
    }
    selection.harmonic_classifications = out;
    assert(selection@.classifications =~= normalized_selection(old(selection)@, global_key).classifications);
}

fn keyed_selection(progression: &[ProgressionItem], global_key: TonalKey, selection: PathSelection) -> (r:
    KeyedPathSelection)
    ensures
        r@ == keyed_view(progression@, global_key, selection@),
{
    let ghost cs = selection@.classifications;
    let mut chosen: Option<usize> = None;
    let mut i: usize = 0;
    while i < selection.harmonic_classifications.len()
        invariant
            i <= selection.harmonic_classifications@.len(),
            cs == selection@.classifications,
            cs.len() == selection.harmonic_classifications@.len(),
            match chosen {
                Some(j) => chosen_classification(cs, i as int) == Some(j as int),
                None => chosen_classification(cs, i as int) is None,
            },
            chosen matches Some(j) ==> j < i && cs[j as int].perspective is Some,
        decreases selection.harmonic_classifications.len() - i,
    {
        assert(cs[i as int] == selection.harmonic_classifications@[i as int]@);
        match selection.harmonic_classifications[i].perspective {
            Some(p) => {
                let tonicizes = matches!(p.scope, TonalScope::Tonicization);
                let keep = match chosen {
                    Some(j) => {
                        assert(cs[j as int] == selection.harmonic_classifications@[j as int]@);
                        match selection.harmonic_classifications[j].perspective {
                            Some(q) => !tonicizes && matches!(q.scope, TonalScope::Tonicization),
                            None => false,
                        }
                    },
                    None => false,
                };
                if !keep {
                    chosen = Some(i);
                }
            },
            None => {},
        }
        i = i + 1;
    }
    let chord = if selection.event_index < progression.len() {
        progression[selection.event_index].chord()
    } else {
        None
    };
    let (local_key, scope) = match chosen {
        Some(j) => {
            assert(cs[j as int] == selection.harmonic_classifications@[j as int]@);
            let p = selection.harmonic_classifications[j].perspective.unwrap();
            let mode = if !matches!(p.mode, TonalMode::Unknown) {
                p.mode
            } else if p.local_tonic.pitch_class().value() == global_key.tonic.pitch_class().value() {
                global_key.mode
            } else {
                infer_local_mode(progression, p.local_tonic)
            };
            (TonalKey { tonic: p.local_tonic, mode }, p.scope)
        },
        None => (global_key, TonalScope::Global),
    };
    let own_degree = match chosen {
        Some(j) => selection.harmonic_classifications[j].local_degree,
        None => None,
    };
    let local_degree = match own_degree {
        Some(d) => Some(d),
        None => match chord {
            Some(c) => Some(degree_from_spelling(c.root, local_key.tonic)),
            None => None,
        },
    };
    let own_role = match chosen {
        Some(j) => selection.harmonic_classifications[j].role,
        None => None,
    };
    let role = match own_role {
        Some(x) => Some(x),
        None => infer_role(chord, local_key),
    };
    KeyedPathSelection {
        selection,
        active_key: global_key,
        local_key,
        scope,
        local_degree,
        role,
        is_pivot: false,
        is_modulation_confirmation: false,
        key_region_age_chords: 0,
        pending_resolutions: Vec::new(),
        resolved_resolution_sources: Vec::new(),
        pending_predominant: None,
        resolved_cadence_predominant_sources: Vec::new(),
    }
}

/// A decoded function path placed under one global key: every selection is
/// heard from that key (see `keyed_view`), the key's score and evidence come
/// first, and no modulation or memory term is added yet.
pub fn keyed_path(
    progression: &[ProgressionItem],
    global_key: TonalKey,
    function_path: AnalysisPath,
    key_score: i128,
    key_evidence: &Vec<ScoreEvidence>,
) -> (r: KeyedAnalysisPath)
    requires
        -0x1_0000_0000_0000_0000_0000_0000 <= function_path.total_score <= 0x1_0000_0000_0000_0000_0000_0000,
        -0x1_0000_0000_0000_0000_0000_0000 <= key_score <= 0x1_0000_0000_0000_0000_0000_0000,
    ensures
        r.global_key == global_key,
        keyed_selection_views(r.selections@) == function_path@.selections.map_values(
            |s: SelectionView| keyed_view(progression@, global_key, normalized_selection(s, global_key)),
        ),
        r.modulations@.len() == 0,
        r.harmonic_resolutions@.len() == 0,
        r.cadential_spans@.len() == 0,
        r.function_score == function_path.total_score,
        r.key_score == key_score,
        r.modulation_score == 0,
        r.memory_score == 0,
        r.total_score == function_path.total_score + key_score,
        ev_views(r.evidence@) == ev_views(key_evidence@) + function_path@.evidence,
{
    let ghost fv = function_path@.selections;
    let ghost want = fv.map_values(
        |s: SelectionView| keyed_view(progression@, global_key, normalized_selection(s, global_key)),
    );
    let function_score = function_path.total_score;
    let AnalysisPath { selections: rest0, total_score: _, evidence: path_evidence } = function_path;
    let mut rest = rest0;
    let ghost all = rest@;
    let n = rest.len();
    let mut selections: Vec<KeyedPathSelection> = Vec::new();
    let mut i: usize = 0;
    assert(all.skip(0) =~= all);
    while i < n
        invariant
            n == all.len() == fv.len(),
            fv == all.map_values(|x: PathSelection| x@),
            want == fv.map_values(
                |s: SelectionView| keyed_view(progression@, global_key, normalized_selection(s, global_key)),
            ),
            i <= n,
            rest@ == all.skip(i as int),
            keyed_selection_views(selections@) == want.take(i as int),
        decreases n - i,
    {
        assert(rest@.len() > 0);
        let mut sel = rest.remove(0);
        assert(sel == all[i as int]);
        assert(rest@ =~= all.skip(i + 1));
        normalize_global_mode(&mut sel, global_key);
        let ks = keyed_selection(progression, global_key, sel);
        let ghost before = keyed_selection_views(selections@);
        selections.push(ks);
        assert(keyed_selection_views(selections@) =~= before.push(want[i as int]));
        assert(want.take(i + 1) =~= want.take(i as int).push(want[i as int]));
        i = i + 1;
    }
    assert(want.take(n as int) =~= want);
    let mut evidence = crate::analysis::evidence::duplicate_evidence(key_evidence);
    let ghost front = ev_views(evidence@);
    assert(front =~= ev_views(key_evidence@));
    let mut tail = path_evidence;
    let ghost back = ev_views(tail@);
    evidence.append(&mut tail);
    assert(ev_views(evidence@) =~= front + back);
    KeyedAnalysisPath {
        global_key,
        selections,
        modulations: Vec::new(),
        harmonic_resolutions: Vec::new(),
        cadential_spans: Vec::new(),
        function_score,
        key_score,
        modulation_score: 0,
        memory_score: 0,
        total_score: function_score + key_score,
        evidence,
    }
}

} // verus!
