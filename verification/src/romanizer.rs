//! Roman-numeral labels for a chord in a key.
//!
//! [`Romanizer`] chooses a scale-degree spelling for the root, keeps its
//! enharmonic alternatives, reads slash chords as inversions or hybrids and
//! renders theoretical and display spellings of the symbol.

use vstd::prelude::*;
use crate::analysis::blackadder::{dist, pc};
use crate::analysis::harmony::{
    role_classification, with_family, ClassificationView, HarmonicClassification, HarmonicRole,
    InterpretationFamily, TonalMode, TonalPerspective, TonalScope,
};
use crate::analysis::blackadder::{BlackadderContext, BlackadderInterpretation, InterpretationView};
use crate::analysis::evidence::{duplicate_evidence, EvidenceView, ScoreEvidence};
use crate::analysis::interpreter::{
    best_index, candidate_views, contextual_points, plain_analysis, slash_candidates, AnalysisView, CandidateView, ChordInterpreter,
    HybridAnalysis, HybridCandidate, HybridKind, SlashClassification,
};
use crate::domain::note::note_text;
use crate::formatter::{display_quality, format_roman, render_symbol, rendered_symbol, rewrite_symbol, rewritten_symbol};
use crate::speller::{name_of_pitch_class, pitch_class_name, simplify_spelling};
use crate::structure::{alterations_fit, slash_formula_fits, spelled_tones_for, spelled_tones_of};
use crate::domain::chord::{same_chord, ParsedChord, ParsedSymbol, ProgressionItem};
use crate::domain::chord::{heard_alike, lexeme_of};
use crate::analysis::context::{
    analyze_context, as_ref_opt, candidates_at, chord_at_link, chord_of_link, facts_seq, item_tonic, link_policy,
    next_link, next_seq, node_readings, node_readings_of, readings_wf, target_at, target_for, prefer_at, prefer_at_of, prev_link, prev_seq,
    progression_fits, resolution_at, resolution_at_of, starts_two_five, starts_two_five_of, tonic_of, ContextAnalysis,
    ReadingsView,
};
use crate::analysis::harmony::HarmonicInterpretation;
use crate::domain::degree::{degree_text, Degree, RomanDegree};
use crate::domain::note::{parsed_note, SpelledNote};
use crate::error::ParseError;
use crate::formatter::{note_name_len, split_note_and_suffix};
use crate::profile::{BehaviorProfile, KeyBoundaryPolicy, NoChordPolicy};
use crate::speller::{
    best_degree, calc_degree_base, degree_from_spelling, degree_note, lemma_best_degree_is, spell_degree_note,
    spelled_degree,
};
use crate::text::{contains_seq, contains_str, index_of_char, lower_chars, lower_seq, to_chars};
use crate::analysis::candidates::built_lattice;
use crate::analysis::lattice::{decodable, decoded, path_views, AnalysisLattice, AnalysisPath};

verus! {

#[derive(Clone, Copy, Debug, Eq, PartialEq, Structural)]
/// Resolution marker attached to a target chord.
pub enum ResolutionType {
    Perfect,
    Semitone,
    Backdoor,
    LeadingTone,
    Deceptive,
}

pub open spec fn resolution_text(r: ResolutionType) -> Seq<char> {
    match r {
        ResolutionType::Perfect => "perfect"@,
        ResolutionType::Semitone => "semitone"@,
        ResolutionType::Backdoor => "backdoor"@,
        ResolutionType::LeadingTone => "leading_tone"@,
        ResolutionType::Deceptive => "deceptive"@,
    }
}

impl ResolutionType {
    pub fn as_str(self) -> (r: &'static str)
        ensures
            r@ == resolution_text(self),
    {
        match self {
            ResolutionType::Perfect => "perfect",
            ResolutionType::Semitone => "semitone",
            ResolutionType::Backdoor => "backdoor",
            ResolutionType::LeadingTone => "leading_tone",
            ResolutionType::Deceptive => "deceptive",
        }
    }
}

#[derive(Clone, Copy, Debug, Eq, PartialEq, Structural)]
/// Controls compatibility, spelling and progression segmentation.
pub struct RomanizerOptions {
    pub default_tonic: SpelledNote,
    /// Mode of the caller-supplied global key.
    pub default_mode: TonalMode,
    pub simplify_accidentals: bool,
    pub behavior: BehaviorProfile,
    pub key_boundary_policy: KeyBoundaryPolicy,
    pub no_chord_policy: NoChordPolicy,
}

/// Strict defaults: key changes break context, N.C. is a transparent rest.
pub open spec fn strict_options(tonic: SpelledNote) -> RomanizerOptions {
    RomanizerOptions {
        default_tonic: tonic,
        default_mode: TonalMode::Major,
        simplify_accidentals: false,
        behavior: BehaviorProfile::StrictV1,
        key_boundary_policy: KeyBoundaryPolicy::Break,
        no_chord_policy: NoChordPolicy::Transparent,
    }
}

/// The compatibility profile: key changes continue context, N.C. breaks it.
pub open spec fn legacy_options(tonic: SpelledNote) -> RomanizerOptions {
    RomanizerOptions {
        default_tonic: tonic,
        default_mode: TonalMode::Major,
        simplify_accidentals: false,
        behavior: BehaviorProfile::Python019,
        key_boundary_policy: KeyBoundaryPolicy::Continue,
        no_chord_policy: NoChordPolicy::Break,
    }
}

/// The outcome of building options from a tonic name: the options when the
/// name parses, otherwise the parse error.
pub open spec fn options_outcome(
    tonic: Seq<char>,
    r: Result<RomanizerOptions, ParseError>,
    make: spec_fn(SpelledNote) -> RomanizerOptions,
) -> bool {
    match r {
        Ok(o) => parsed_note(tonic) matches Some(n) && o == make(n),
        Err(e) => crate::domain::note::note_parse_outcome(tonic, Err(e)),
    }
}

impl RomanizerOptions {
    pub fn new(default_tonic: &str) -> (r: Result<Self, ParseError>)
        ensures
            options_outcome(default_tonic@, r, |n: SpelledNote| strict_options(n)),
    {
        match SpelledNote::parse(default_tonic) {
            Ok(tonic) => Ok(RomanizerOptions {
                default_tonic: tonic,
                default_mode: TonalMode::Major,
                simplify_accidentals: false,
                behavior: BehaviorProfile::StrictV1,
                key_boundary_policy: KeyBoundaryPolicy::Break,
                no_chord_policy: NoChordPolicy::Transparent,
            }),
            Err(e) => Err(e),
        }
    }

    /// Options reproducing the compatibility profile's observable behavior.
    pub fn python_019(default_tonic: &str) -> (r: Result<Self, ParseError>)
        ensures
            options_outcome(default_tonic@, r, |n: SpelledNote| legacy_options(n)),
    {
        match SpelledNote::parse(default_tonic) {
            Ok(tonic) => Ok(RomanizerOptions {
                default_tonic: tonic,
                default_mode: TonalMode::Major,
                simplify_accidentals: false,
                behavior: BehaviorProfile::Python019,
                key_boundary_policy: KeyBoundaryPolicy::Continue,
                no_chord_policy: NoChordPolicy::Break,
            }),
            Err(e) => Err(e),
        }
    }
}

#[derive(Clone, Copy, Debug, Eq, PartialEq, Structural)]
/// Semantic category of an alternate label.
pub enum AlternateKind {
    Enharmonic,
    WithoutBass,
    FunctionalInterpretation,
}

#[derive(Clone, Debug, Eq, PartialEq)]
pub struct AlternateLabel {
    pub label: String,
    pub kind: AlternateKind,
}

#[derive(Clone, Copy, Debug)]
pub struct Romanizer {
    options: RomanizerOptions,
    interpreter: ChordInterpreter,
}

impl Romanizer {
    pub closed spec fn spec_options(&self) -> RomanizerOptions {
        self.options
    }

    #[verifier::type_invariant]
    closed spec fn consistent(&self) -> bool {
        self.interpreter.spec_behavior() == self.options.behavior
    }

    pub fn with_options(options: RomanizerOptions) -> (r: Result<Self, ParseError>)
        ensures
            r matches Ok(x) && x.spec_options() == options,
    {
        let interpreter = ChordInterpreter::new(options.behavior);
        assert(interpreter.spec_behavior() == options.behavior);
        Ok(Romanizer { options, interpreter })
    }

    /// A romanizer with the strict defaults.
    pub fn new(default_tonic: &str) -> (r: Result<Self, ParseError>)
        ensures
            match r {
                Ok(x) => parsed_note(default_tonic@) matches Some(n) && x.spec_options() == strict_options(n),
                Err(e) => crate::domain::note::note_parse_outcome(default_tonic@, Err(e)),
            },
    {
        match RomanizerOptions::new(default_tonic) {
            Ok(options) => Romanizer::with_options(options),
            Err(e) => Err(e),
        }
    }

    pub fn options(&self) -> (r: &RomanizerOptions)
        ensures
            *r == self.spec_options(),
    {
        &self.options
    }
}


/// The scale-degree spelling of a chord root `distance` semitones above the
/// tonic, and its enharmonic alternatives.
///
/// At the tritone, diminished and half-diminished chords take `#IV`; a
/// chord moving to IV, a flat-side bass, and minor or major sevenths take
/// `bV`; otherwise the spelling preference decides (sharps by default). A
/// leading-tone root over a `bII` bass is `bI`; `bII` before I stays `bII`.
/// Other roots take the best spelling for the preference (flats by
/// default), with the other preference's spelling as alternative when it
/// differs.
pub open spec fn degree_choice(
    distance: int,
    tonic: SpelledNote,
    chord: ParsedChord,
    next: Option<&ParsedChord>,
    prefer_sharps: Option<bool>,
) -> (Degree, Seq<Degree>) {
    let sharp_four = Degree { accidental: 1, degree: RomanDegree::Iv };
    let flat_five = Degree { accidental: -1i8, degree: RomanDegree::V };
    if distance == 6 {
        let lower = lower_seq(chord.quality@);
        let half_diminished = contains_seq(lower, "m7-5"@) || contains_seq(lower, "m7b5"@);
        let diminished = contains_seq(lower, "dim"@);
        let s0 = match prefer_sharps {
            Some(b) => b,
            None => true,
        };
        let s1 = if half_diminished || diminished {
            true
        } else if (next matches Some(n) && dist(n.root, tonic) == 5) {
            false
        } else {
            s0
        };
        let s2 = if (chord.bass matches Some(b) && (dist(b, tonic) == 3 || dist(b, tonic) == 8 || dist(b, tonic) == 10)) {
            false
        } else {
            s1
        };
        let s3 = if !half_diminished && !diminished && (contains_seq(lower, "m7"@) || contains_seq(lower, "maj7"@)) {
            false
        } else {
            s2
        };
        if s3 {
            (sharp_four, seq![flat_five])
        } else {
            (flat_five, seq![sharp_four])
        }
    } else if distance == 11 && (chord.bass matches Some(b) && dist(b, tonic) == 1) && prefer_sharps != Some(true) {
        (Degree { accidental: -1i8, degree: RomanDegree::I }, seq![Degree { accidental: 0, degree: RomanDegree::Vii }])
    } else if distance == 1 && (next matches Some(n) && dist(n.root, tonic) == 0) {
        (Degree { accidental: -1i8, degree: RomanDegree::Ii }, Seq::empty())
    } else {
        let prefer = match prefer_sharps {
            Some(b) => b,
            None => false,
        };
        let base = best_degree(distance, Some(prefer));
        let alternate = best_degree(distance, Some(!prefer));
        (base, if base != alternate {
            seq![alternate]
        } else {
            Seq::empty()
        })
    }
}

/// Diatonic or commonly borrowed bass (`bIII`, `bVI`, `bVII`) spelled as a
/// scale degree, flats preferred; `None` for the other chromatic notes.
pub open spec fn diatonic_or_borrowed(bass: SpelledNote, tonic: SpelledNote) -> Option<SpelledNote> {
    let d = dist(bass, tonic);
    if d == 1 || d == 6 {
        None
    } else {
        Some(degree_note(best_degree(d, Some(false)), tonic))
    }
}

/// Text before the first `/`.
pub open spec fn first_part(s: Seq<char>) -> Seq<char> {
    s.take(index_of_char(s, '/'))
}

/// Text between the first and second `/`, if there is a `/`.
pub open spec fn second_part(s: Seq<char>) -> Option<Seq<char>> {
    if s.contains('/') {
        let rest = s.skip(index_of_char(s, '/') + 1);
        Some(rest.take(index_of_char(rest, '/')))
    } else {
        None
    }
}

/// An absolute chord label such as `E7(9,#11)/G#` rewritten with scale
/// degrees of `tonic`; left unchanged when its root is not a note.
pub open spec fn absolute_roman(symbol: Seq<char>, tonic: SpelledNote) -> Seq<char> {
    let root_part = first_part(symbol);
    match note_name_len(root_part) {
        Some(n) => match parsed_note(root_part.take(n as int)) {
            Some(root) => {
                let roman_root = degree_text(spelled_degree(root, tonic)) + root_part.skip(n as int);
                match second_part(symbol) {
                    Some(b) => match parsed_note(b) {
                        Some(bass) => roman_root + "/"@ + degree_text(spelled_degree(bass, tonic)),
                        None => roman_root,
                    },
                    None => roman_root,
                }
            },
            None => symbol,
        },
        None => symbol,
    }
}

/// Classification of a sus hybrid heard as a dominant over its bass: a
/// suspension in the global key, not a modal borrowing of its upper chord.
pub open spec fn sus_classification(kind: HybridKind, effective_root: Option<SpelledNote>, tonic: SpelledNote, mode: TonalMode) -> ClassificationView {
    if kind != HybridKind::SusFourNine && kind != HybridKind::SusFourSevenFlatNine {
        crate::analysis::harmony::empty_classification()
    } else {
        match effective_root {
            Some(root) => ClassificationView {
                local_degree: Some(spelled_degree(root, tonic)),
                perspective: Some(
                    TonalPerspective {
                        global_tonic: tonic,
                        local_tonic: tonic,
                        local_tonic_degree: spelled_degree(tonic, tonic),
                        scope: TonalScope::Global,
                        mode,
                    },
                ),
                ..with_family(role_classification(HarmonicRole::Dominant), InterpretationFamily::SuspendedDominant)
            },
            None => crate::analysis::harmony::empty_classification(),
        }
    }
}

pub fn functional_hybrid_classification(candidate: &HybridCandidate, tonic: SpelledNote, global_mode: TonalMode) -> (r: HarmonicClassification)
    ensures
        r@ == sus_classification(candidate.analysis.kind, candidate.analysis.effective_root, tonic, global_mode),
{
    if !matches!(candidate.analysis.kind, HybridKind::SusFourNine | HybridKind::SusFourSevenFlatNine) {
        return HarmonicClassification::default();
    }
    let effective_root = match candidate.analysis.effective_root {
        Some(root) => root,
        None => {
            return HarmonicClassification::default();
        },
    };
    // `Dm7/G` describes a suspension over G, not a D-minor borrowing.
    let mut classification = HarmonicClassification::with_role(HarmonicRole::Dominant);
    classification.local_degree = Some(degree_from_spelling(effective_root, tonic));
    classification.add_family(InterpretationFamily::SuspendedDominant);
    classification.perspective = Some(
        TonalPerspective {
            global_tonic: tonic,
            local_tonic: tonic,
            local_tonic_degree: degree_from_spelling(tonic, tonic),
            scope: TonalScope::Global,
            mode: global_mode,
        },
    );
    classification
}

impl Romanizer {
    pub fn diatonic_or_borrowed_bass(&self, bass: SpelledNote, tonic: SpelledNote) -> (r: Option<SpelledNote>)
        ensures
            r == diatonic_or_borrowed(bass, tonic),
    {
        let distance = semitone_distance_of(bass, tonic);
        if distance == 1 || distance == 6 {
            return None;
        }
        let degree = calc_degree_base(distance, Some(false));
        proof {
            lemma_best_degree_is(degree, distance as int, Some(false));
        }
        Some(spell_degree_note(degree, tonic))
    }

    pub fn determine_degree_name(
        &self,
        distance: u8,
        tonic: SpelledNote,
        chord: &ParsedChord,
        previous: Option<&ParsedChord>,
        next: Option<&ParsedChord>,
        prefer_sharps: Option<bool>,
    ) -> (r: (Degree, Vec<Degree>))
        ensures
            r.0 == degree_choice(distance as int, tonic, *chord, next, prefer_sharps).0,
            r.1@ == degree_choice(distance as int, tonic, *chord, next, prefer_sharps).1,
    {
        if distance == 6 {
            let lower = lower_chars(&to_chars(chord.quality.as_str()));
            let half_diminished = contains_str(&lower, "m7-5") || contains_str(&lower, "m7b5");
            let diminished = contains_str(&lower, "dim");
            let mut target_is_sharp = match prefer_sharps {
                Some(b) => b,
                None => true,
            };
            if half_diminished || diminished {
                target_is_sharp = true;
            } else if match next {
                Some(n) => semitone_distance_of(n.root, tonic) == 5,
                None => false,
            } {
                target_is_sharp = false;
            }
            if match chord.bass {
                Some(b) => {
                    let d = semitone_distance_of(b, tonic);
                    d == 3 || d == 8 || d == 10
                },
                None => false,
            } {
                target_is_sharp = false;
            }
            if !half_diminished && !diminished && (contains_str(&lower, "m7") || contains_str(&lower, "maj7")) {
                target_is_sharp = false;
            }
            let sharp = Degree::new(1, RomanDegree::Iv);
            let flat = Degree::new(-1, RomanDegree::V);
            let r = if target_is_sharp {
                (sharp, vec![flat])
            } else {
                (flat, vec![sharp])
            };
            assert(r.1@ =~= degree_choice(distance as int, tonic, *chord, next, prefer_sharps).1);
            return r;
        }
        let flat_bass = match chord.bass {
            Some(b) => semitone_distance_of(b, tonic) == 1,
            None => false,
        };
        if distance == 11 && flat_bass && !matches!(prefer_sharps, Some(true)) {
            let r = (Degree::new(-1, RomanDegree::I), vec![Degree::new(0, RomanDegree::Vii)]);
            assert(r.1@ =~= degree_choice(distance as int, tonic, *chord, next, prefer_sharps).1);
            return r;
        }
        let to_tonic = match next {
            Some(n) => semitone_distance_of(n.root, tonic) == 0,
            None => false,
        };
        if distance == 1 && to_tonic {
            return (Degree::new(-1, RomanDegree::Ii), Vec::new());
        }
        let prefer = match prefer_sharps {
            Some(b) => b,
            None => false,
        };
        let base = calc_degree_base(distance, Some(prefer));
        let alternate = calc_degree_base(distance, Some(!prefer));
        proof {
            lemma_best_degree_is(base, distance as int, Some(prefer));
            lemma_best_degree_is(alternate, distance as int, Some(!prefer));
        }
        let alternates = if base != alternate {
            vec![alternate]
        } else {
            Vec::new()
        };
        assert(alternates@ =~= degree_choice(distance as int, tonic, *chord, next, prefer_sharps).1);
        (base, alternates)
    }

    /// Rewrite an absolute label such as `G7(9,#11)/B` in scale degrees.
    pub fn romanize_absolute_symbol(&self, symbol: &str, tonic: SpelledNote) -> (r: String)
        ensures
            r@ == absolute_roman(symbol@, tonic),
    {
        let s = to_chars(symbol);
        let slash = crate::text::find_char(&s, 0, '/');
        assert(s@.subrange(0, s@.len() as int) =~= s@);
        let root_part = crate::text::string_of(&s, 0, slash);
        assert(root_part@ == first_part(symbol@));
        let (root_text, suffix) = match split_note_and_suffix(root_part.as_str()) {
            Some(parts) => parts,
            None => {
                return String::from_str(symbol);
            },
        };
        let root = match SpelledNote::parse(root_text.as_str()) {
            Ok(n) => n,
            Err(_) => {
                return String::from_str(symbol);
            },
        };
        let mut roman_root = degree_from_spelling(root, tonic).to_string();
        roman_root.append(suffix.as_str());
        proof {
            let n = note_name_len(root_part@).unwrap();
            assert(root_text@ == root_part@.take(n as int));
            assert(parsed_note(root_part@.take(n as int)) == Some(root));
            assert(roman_root@ == degree_text(spelled_degree(root, tonic)) + root_part@.skip(n as int));
        }
        if slash < s.len() {
            let second_end = crate::text::find_char(&s, slash + 1, '/');
            let bass_text = crate::text::string_of(&s, slash + 1, second_end);
            proof {
                let rest = symbol@.skip(slash + 1);
                assert(s@.subrange(slash + 1, s@.len() as int) =~= rest);
                assert(bass_text@ =~= rest.take(index_of_char(rest, '/')));
                assert(symbol@.contains('/'));
            }
            if let Ok(bass) = SpelledNote::parse(bass_text.as_str()) {
                let ghost before = roman_root@;
                crate::text::push_char(&mut roman_root, '/');
                proof {
                    reveal_strlit("/");
                    assert(roman_root@ =~= before + "/"@);
                }
                let b = degree_from_spelling(bass, tonic).to_string();
                roman_root.append(b.as_str());
                assert(second_part(symbol@) == Some(bass_text@));
                assert(roman_root@ == absolute_roman(symbol@, tonic));
            } else {
                assert(roman_root@ == absolute_roman(symbol@, tonic));
            }
        } else {
            assert(!symbol@.contains('/'));
        }
        roman_root
    }
}

/// Upward semitone distance from `reference` to `target`.
fn semitone_distance_of(target: SpelledNote, reference: SpelledNote) -> (r: u8)
    ensures
        r == dist(target, reference),
        r < 12,
{
    crate::speller::semitone_distance(target, reference)
}


/// Abstract form of an alternate label.
pub struct AlternateView {
    pub label: Seq<char>,
    pub kind: AlternateKind,
}

impl View for AlternateLabel {
    type V = AlternateView;

    open spec fn view(&self) -> AlternateView {
        AlternateView { label: self.label@, kind: self.kind }
    }
}

pub open spec fn alt_views(s: Seq<AlternateLabel>) -> Seq<AlternateView> {
    s.map_values(|a: AlternateLabel| a@)
}

/// Abstract form of a functional reading of a slash chord.
pub struct FunctionalView {
    pub label: Seq<char>,
    pub hybrid_kind: HybridKind,
    pub intrinsic_score: int,
    pub rule_id: Seq<char>,
    pub blackadder: Option<InterpretationView>,
    pub classification: ClassificationView,
    pub effective_root: Option<SpelledNote>,
    pub evidence: Seq<EvidenceView>,
}

#[derive(Clone, Debug)]
/// A candidate's label in scale degrees, with its classification.
pub struct FunctionalInterpretation {
    pub label: String,
    pub hybrid_kind: HybridKind,
    /// Score in hundredths.
    pub intrinsic_score: i64,
    pub rule_id: String,
    pub blackadder: Option<BlackadderInterpretation>,
    pub classification: HarmonicClassification,
    pub effective_root: Option<SpelledNote>,
    pub evidence: Vec<ScoreEvidence>,
}

impl View for FunctionalInterpretation {
    type V = FunctionalView;

    open spec fn view(&self) -> FunctionalView {
        FunctionalView {
            label: self.label@,
            hybrid_kind: self.hybrid_kind,
            intrinsic_score: self.intrinsic_score as int,
            rule_id: self.rule_id@,
            blackadder: match self.blackadder {
                Some(b) => Some(b@),
                None => None,
            },
            classification: self.classification@,
            effective_root: self.effective_root,
            evidence: self.evidence@.map_values(|e: ScoreEvidence| e@),
        }
    }
}

pub open spec fn functional_views(s: Seq<FunctionalInterpretation>) -> Seq<FunctionalView> {
    s.map_values(|f: FunctionalInterpretation| f@)
}

/// The functional reading of a candidate that has a display label.
pub open spec fn functional_of(c: CandidateView, tonic: SpelledNote, mode: TonalMode) -> FunctionalView {
    FunctionalView {
        label: absolute_roman(c.analysis.alter.unwrap(), tonic),
        hybrid_kind: c.analysis.kind,
        intrinsic_score: c.intrinsic_score,
        rule_id: c.rule_id,
        blackadder: c.analysis.blackadder,
        classification: match c.analysis.blackadder {
            Some(b) => b.classification,
            None => sus_classification(c.analysis.kind, c.analysis.effective_root, tonic, mode),
        },
        effective_root: c.analysis.effective_root,
        evidence: c.evidence,
    }
}

/// Functional readings of the labelled candidates, in candidate order.
pub open spec fn functional_list(cs: Seq<CandidateView>, tonic: SpelledNote, mode: TonalMode) -> Seq<FunctionalView>
    decreases cs.len(),
{
    if cs.len() == 0 {
        Seq::empty()
    } else {
        let rest = functional_list(cs.drop_last(), tonic, mode);
        if cs.last().analysis.alter is Some {
            rest.push(functional_of(cs.last(), tonic, mode))
        } else {
            rest
        }
    }
}

/// Alternates extended by the functional labels, each once.
pub open spec fn with_functional_labels(alts: Seq<AlternateView>, fs: Seq<FunctionalView>) -> Seq<AlternateView>
    decreases fs.len(),
{
    if fs.len() == 0 {
        alts
    } else {
        let before = with_functional_labels(alts, fs.drop_last());
        let label = fs.last().label;
        if exists|k: int| 0 <= k < before.len() && (#[trigger] before[k]).kind == AlternateKind::FunctionalInterpretation
            && before[k].label == label {
            before
        } else {
            before.push(AlternateView { label, kind: AlternateKind::FunctionalInterpretation })
        }
    }
}

/// Flat spelling of a `bII` bass paired with a `bI` root, so `F#/G#` in G
/// reads `Gb/Ab` rather than mixing flats and sharps.
pub open spec fn paired_flat_bass(chord: ParsedChord, base: Degree, tonic: SpelledNote) -> Option<SpelledNote> {
    match chord.bass {
        Some(b) => if base == (Degree { accidental: -1i8, degree: RomanDegree::I }) && dist(b, tonic) == 1 {
            Some(degree_note(Degree { accidental: -1i8, degree: RomanDegree::Ii }, tonic))
        } else {
            None
        },
        None => None,
    }
}

/// A sus candidate respelled over the paired flat bass.
pub open spec fn paired_candidate(c: CandidateView, paired: Option<SpelledNote>) -> CandidateView {
    match paired {
        Some(p) => if c.analysis.kind == HybridKind::SusFourNine {
            CandidateView {
                analysis: AnalysisView {
                    alter: Some(note_text(p) + "9sus4"@),
                    bass_preference: Some(false),
                    effective_root: Some(p),
                    ..c.analysis
                },
                ..c
            }
        } else if c.analysis.kind == HybridKind::SusFourSevenFlatNine {
            CandidateView {
                analysis: AnalysisView {
                    alter: Some(note_text(p) + "7sus4(b9)"@),
                    bass_preference: Some(false),
                    effective_root: Some(p),
                    ..c.analysis
                },
                ..c
            }
        } else {
            c
        },
        None => c,
    }
}

pub open spec fn simplified(n: SpelledNote) -> SpelledNote {
    if -2 < n.accidental < 2 {
        n
    } else {
        pitch_class_name(n.spec_pitch_class(), Some(n.accidental > 0))
    }
}

/// The spelled bass: from the chord formula for an inversion; by the
/// reading's preference, the paired flat bass, or as a diatonic or borrowed
/// degree for a hybrid; as written otherwise.
pub open spec fn fixed_bass(
    chord: ParsedChord,
    bass: SpelledNote,
    analysis: AnalysisView,
    root_fixed: SpelledNote,
    tonic: SpelledNote,
    paired: Option<SpelledNote>,
    behavior: BehaviorProfile,
) -> SpelledNote {
    let fallback = match diatonic_or_borrowed(bass, tonic) {
        Some(n) => n,
        None => bass,
    };
    if !analysis.is_hybrid {
        let tones = spelled_tones_of(chord, root_fixed, behavior);
        if tones.contains_key(bass.spec_pitch_class() as u8) {
            tones[bass.spec_pitch_class() as u8]
        } else {
            fallback
        }
    } else if analysis.bass_preference is Some {
        pitch_class_name(bass.spec_pitch_class(), analysis.bass_preference)
    } else if paired is Some {
        paired.unwrap()
    } else {
        fallback
    }
}

/// Abstract form of the labels of one chord.
pub struct LabelsView {
    pub roman: Seq<char>,
    pub alternate_labels: Seq<Seq<char>>,
    pub alternates: Seq<AlternateView>,
    pub degree_root: Degree,
    pub degree_bass: Option<Degree>,
    pub roman_root_bass: Option<Seq<char>>,
    pub is_hybrid: bool,
    pub hybrid_kind: Option<HybridKind>,
    pub slash_classification: SlashClassification,
    pub hybrid_candidates: Seq<CandidateView>,
    pub functional_interpretations: Seq<FunctionalView>,
    pub alter: Option<Seq<char>>,
    pub theoretical_symbol: Seq<char>,
    pub normalized_symbol: Seq<char>,
}

#[derive(Clone, Debug)]
/// Roman numeral, spellings and local readings of one chord in a key.
pub struct ChordLabels {
    pub tonic: SpelledNote,
    pub roman: String,
    /// Enharmonic and root-only labels, without the functional ones.
    pub alternate_labels: Vec<String>,
    pub alternates: Vec<AlternateLabel>,
    pub degree_root: Degree,
    pub degree_bass: Option<Degree>,
    pub roman_root_bass: Option<String>,
    pub is_hybrid: bool,
    pub hybrid_kind: Option<HybridKind>,
    pub slash_classification: SlashClassification,
    /// Every local reading; `hybrid_kind` is their best view.
    pub hybrid_candidates: Vec<HybridCandidate>,
    pub functional_interpretations: Vec<FunctionalInterpretation>,
    pub alter: Option<String>,
    /// Alias of `normalized_symbol`.
    pub symbol_fixed: String,
    /// Symbol spelled in the key, before optional simplification.
    pub theoretical_symbol: String,
    /// Symbol as displayed, after optional simplification.
    pub normalized_symbol: String,
}

impl View for ChordLabels {
    type V = LabelsView;

    open spec fn view(&self) -> LabelsView {
        LabelsView {
            roman: self.roman@,
            alternate_labels: self.alternate_labels@.map_values(|s: String| s@),
            alternates: alt_views(self.alternates@),
            degree_root: self.degree_root,
            degree_bass: self.degree_bass,
            roman_root_bass: match self.roman_root_bass {
                Some(s) => Some(s@),
                None => None,
            },
            is_hybrid: self.is_hybrid,
            hybrid_kind: self.hybrid_kind,
            slash_classification: self.slash_classification,
            hybrid_candidates: candidate_views(self.hybrid_candidates@),
            functional_interpretations: functional_views(self.functional_interpretations@),
            alter: match self.alter {
                Some(s) => Some(s@),
                None => None,
            },
            theoretical_symbol: self.theoretical_symbol@,
            normalized_symbol: self.normalized_symbol@,
        }
    }
}


pub open spec fn lexeme_view(l: Option<String>) -> Option<Seq<char>> {
    match l {
        Some(s) => Some(s@),
        None => None,
    }
}

/// Candidates of the chord: the context's for StrictV1 when given, else the
/// interpreter's (with key and neighbors for StrictV1, the next chord only
/// for Python019), respelled over a paired flat bass.
pub open spec fn label_candidates(
    o: RomanizerOptions,
    chord: ParsedChord,
    tonic: SpelledNote,
    previous: Option<&ParsedChord>,
    next: Option<&ParsedChord>,
    context: Option<Seq<CandidateView>>,
    paired: Option<SpelledNote>,
) -> Seq<CandidateView> {
    let raw = match o.behavior {
        BehaviorProfile::StrictV1 => match context {
            Some(cs) => cs,
            None => slash_candidates(
                chord,
                BlackadderContext { tonic: Some(tonic), previous_chord: previous, next_chord: next, observations: None },
                o.behavior,
            ),
        },
        BehaviorProfile::Python019 => slash_candidates(
            chord,
            BlackadderContext { tonic: None, previous_chord: None, next_chord: next, observations: None },
            o.behavior,
        ),
    };
    raw.map_values(|c: CandidateView| paired_candidate(c, paired))
}

/// The best candidate's reading, or the plain reading when there is none.
pub open spec fn chosen_analysis(cs: Seq<CandidateView>, next: Option<&ParsedChord>, tonic: SpelledNote, behavior: BehaviorProfile) -> AnalysisView {
    if cs.len() == 0 {
        plain_analysis()
    } else {
        cs[best_index(cs, next, Some(tonic), behavior)].analysis
    }
}

/// Alternates after a written bass: StrictV1 keeps the bass on every
/// enharmonic alternative, Python019 adds the root-only label.
pub open spec fn slash_alternates(
    behavior: BehaviorProfile,
    a0: Seq<AlternateView>,
    primary: Seq<char>,
    slash: bool,
    bass_degree: Degree,
) -> Seq<AlternateView> {
    if slash && behavior == BehaviorProfile::StrictV1 {
        a0.map_values(|a: AlternateView| AlternateView { label: a.label + "/"@ + degree_text(bass_degree), ..a })
    } else if slash && behavior == BehaviorProfile::Python019 {
        a0.push(AlternateView { label: primary, kind: AlternateKind::WithoutBass })
    } else {
        a0
    }
}

/// The symbol in the key's spelling: rendered from the parsed fields
/// (StrictV1, without a redundant bass) or edited in place (Python019).
pub open spec fn symbol_of(
    o: RomanizerOptions,
    chord: ParsedChord,
    root: SpelledNote,
    bass: Option<SpelledNote>,
    redundant: bool,
) -> Seq<char> {
    if o.behavior == BehaviorProfile::StrictV1 {
        rendered_symbol(root, chord.quality@, if redundant {
            None
        } else {
            bass
        })
    } else {
        rewritten_symbol(chord.original_symbol@, chord.root_lexeme@, Some(root), lexeme_view(chord.bass_lexeme), bass)
    }
}

pub open spec fn shown(o: RomanizerOptions, n: SpelledNote) -> SpelledNote {
    if o.simplify_accidentals {
        simplified(n)
    } else {
        n
    }
}

pub open spec fn context_views(context: Option<Vec<HybridCandidate>>) -> Option<Seq<CandidateView>> {
    match context {
        Some(cs) => Some(candidate_views(cs@)),
        None => None,
    }
}

pub open spec fn bass_fixed_of(
    o: RomanizerOptions,
    chord: ParsedChord,
    analysis: AnalysisView,
    root_fixed: SpelledNote,
    tonic: SpelledNote,
    paired: Option<SpelledNote>,
) -> Option<SpelledNote> {
    match chord.bass {
        Some(bass) => Some(fixed_bass(chord, bass, analysis, root_fixed, tonic, paired, o.behavior)),
        None => None,
    }
}

/// The choices behind the labels: degree spelling, readings, the chosen
/// reading, and the written root and bass.
pub struct LabelBasis {
    pub base: Degree,
    pub alternatives: Seq<Degree>,
    pub candidates: Seq<CandidateView>,
    pub analysis: AnalysisView,
    pub root_fixed: SpelledNote,
    pub bass_fixed: Option<SpelledNote>,
    pub redundant: bool,
    pub bass_degree: Degree,
}

pub open spec fn label_basis(
    o: RomanizerOptions,
    chord: ParsedChord,
    tonic: SpelledNote,
    previous: Option<&ParsedChord>,
    next: Option<&ParsedChord>,
    heard: Option<&ParsedChord>,
    prefer_sharps: Option<bool>,
    context: Option<Seq<CandidateView>>,
) -> LabelBasis {
    let choice = degree_choice(dist(chord.root, tonic), tonic, chord, next, prefer_sharps);
    let base = choice.0;
    let paired = paired_flat_bass(chord, base, tonic);
    let cs = label_candidates(o, chord, tonic, previous, heard, context, paired);
    let analysis = chosen_analysis(cs, heard, tonic, o.behavior);
    let root_fixed = match analysis.root_override {
        Some(r) => r,
        None => degree_note(base, tonic),
    };
    let bass_fixed = bass_fixed_of(o, chord, analysis, root_fixed, tonic, paired);
    LabelBasis {
        base,
        alternatives: choice.1,
        candidates: cs,
        analysis,
        root_fixed,
        bass_fixed,
        redundant: (chord.bass matches Some(bass) && pc(chord.root) == pc(bass)),
        bass_degree: match bass_fixed {
            Some(f) => spelled_degree(f, tonic),
            None => base,
        },
    }
}

/// The labels assembled from their basis.
pub open spec fn labels_of_basis(o: RomanizerOptions, chord: ParsedChord, tonic: SpelledNote, b: LabelBasis) -> LabelsView {
    let dq = display_quality(chord.quality@);
    let primary = degree_text(b.base) + dq;
    let a0 = b.alternatives.map_values(|d: Degree| AlternateView { label: degree_text(d) + dq, kind: AlternateKind::Enharmonic });
    let slash = chord.bass is Some && chord.original_symbol@.contains('/') && !b.redundant;
    let a2 = slash_alternates(o.behavior, a0, primary, slash, b.bass_degree);
    let fs = functional_list(b.candidates, tonic, o.default_mode);
    LabelsView {
        roman: if slash {
            primary + "/"@ + degree_text(b.bass_degree)
        } else {
            primary
        },
        alternate_labels: a2.map_values(|a: AlternateView| a.label),
        alternates: with_functional_labels(a2, fs),
        degree_root: b.base,
        degree_bass: if chord.bass is None || b.redundant {
            None
        } else {
            Some(b.bass_degree)
        },
        roman_root_bass: if chord.bass is None || b.redundant {
            None
        } else {
            Some(degree_text(b.base) + "/"@ + degree_text(b.bass_degree))
        },
        is_hybrid: b.analysis.is_hybrid,
        hybrid_kind: if b.analysis.is_hybrid {
            Some(b.analysis.kind)
        } else {
            None
        },
        slash_classification: b.analysis.slash_classification,
        hybrid_candidates: b.candidates,
        functional_interpretations: fs,
        alter: match b.analysis.alter {
            Some(a) => Some(absolute_roman(a, tonic)),
            None => None,
        },
        theoretical_symbol: symbol_of(o, chord, b.root_fixed, b.bass_fixed, b.redundant),
        normalized_symbol: symbol_of(o, chord, shown(o, b.root_fixed), match b.bass_fixed {
            Some(f) => Some(shown(o, f)),
            None => None,
        }, b.redundant),
    }
}

/// The labels of `chord` in `tonic`, given the next chord (for the degree
/// spelling) and the continuation as heard in the key (for the readings),
/// the context's spelling preference and candidates.
#[verifier::opaque]
pub open spec fn chord_labels(
    o: RomanizerOptions,
    chord: ParsedChord,
    tonic: SpelledNote,
    previous: Option<&ParsedChord>,
    next: Option<&ParsedChord>,
    heard: Option<&ParsedChord>,
    prefer_sharps: Option<bool>,
    context: Option<Seq<CandidateView>>,
) -> LabelsView {
    labels_of_basis(o, chord, tonic, label_basis(o, chord, tonic, previous, next, heard, prefer_sharps, context))
}

fn enharmonic_alternates(alternatives: &Vec<Degree>, quality: &str) -> (r: Vec<AlternateLabel>)
    ensures
        alt_views(r@) == alternatives@.map_values(
            |d: Degree| AlternateView { label: degree_text(d) + display_quality(quality@), kind: AlternateKind::Enharmonic },
        ),
{
    let mut r: Vec<AlternateLabel> = Vec::new();
    let mut i: usize = 0;
    while i < alternatives.len()
        invariant
            i <= alternatives.len(),
            r@.len() == i,
            forall|k: int| 0 <= k < i ==> (#[trigger] r@[k])@ == (AlternateView {
                label: degree_text(alternatives@[k]) + display_quality(quality@),
                kind: AlternateKind::Enharmonic,
            }),
        decreases alternatives.len() - i,
    {
        r.push(AlternateLabel { label: format_roman(alternatives[i], quality), kind: AlternateKind::Enharmonic });
        i = i + 1;
    }
    assert(alt_views(r@) =~= alternatives@.map_values(
        |d: Degree| AlternateView { label: degree_text(d) + display_quality(quality@), kind: AlternateKind::Enharmonic },
    ));
    r
}

fn pair_candidates(candidates: Vec<HybridCandidate>, paired: Option<SpelledNote>) -> (r: Vec<HybridCandidate>)
    ensures
        candidate_views(r@) == candidate_views(candidates@).map_values(|c: CandidateView| paired_candidate(c, paired)),
{
    let p = match paired {
        Some(p) => p,
        None => {
            assert(candidate_views(candidates@).map_values(|c: CandidateView| paired_candidate(c, paired)) =~= candidate_views(candidates@));
            return candidates;
        },
    };
    let ghost orig = candidates@;
    let mut input = candidates;
    let mut out: Vec<HybridCandidate> = Vec::new();
    let ghost mut k: int = 0;
    while input.len() > 0
        invariant
            0 <= k <= orig.len(),
            input@ == orig.skip(k),
            paired == Some(p),
            candidate_views(out@) == candidate_views(orig.take(k)).map_values(|c: CandidateView| paired_candidate(c, paired)),
        decreases input.len(),
    {
        let mut c = input.remove(0);
        let ghost before = c@;
        if matches!(c.analysis.kind, HybridKind::SusFourNine) {
            let mut alter = p.to_string();
            alter.append("9sus4");
            c.analysis.alter = Some(alter);
            c.analysis.bass_preference = Some(false);
            c.analysis.effective_root = Some(p);
        } else if matches!(c.analysis.kind, HybridKind::SusFourSevenFlatNine) {
            let mut alter = p.to_string();
            alter.append("7sus4(b9)");
            c.analysis.alter = Some(alter);
            c.analysis.bass_preference = Some(false);
            c.analysis.effective_root = Some(p);
        }
        assert(c@ == paired_candidate(before, paired));
        let ghost prev = out@;
        out.push(c);
        proof {
            assert(orig.skip(k)[0] == orig[k]);
            assert(orig.skip(k + 1) =~= orig.skip(k).remove(0));
            assert(candidate_views(out@) =~= candidate_views(prev).push(c@));
            assert(candidate_views(orig.take(k + 1)).map_values(|c: CandidateView| paired_candidate(c, paired)) =~= candidate_views(
                orig.take(k),
            ).map_values(|c: CandidateView| paired_candidate(c, paired)).push(paired_candidate(orig[k]@, paired)));
            k = k + 1;
        }
    }
    assert(orig.take(k) =~= orig);
    out
}

fn bass_suffixed(alternates: Vec<AlternateLabel>, bass_degree: Degree) -> (r: Vec<AlternateLabel>)
    ensures
        alt_views(r@) == alt_views(alternates@).map_values(
            |a: AlternateView| AlternateView { label: a.label + "/"@ + degree_text(bass_degree), ..a },
        ),
{
    let suffix = degree_text_string(bass_degree);
    let mut r: Vec<AlternateLabel> = Vec::new();
    let mut i: usize = 0;
    while i < alternates.len()
        invariant
            i <= alternates.len(),
            suffix@ == "/"@ + degree_text(bass_degree),
            r@.len() == i,
            forall|k: int| 0 <= k < i ==> (#[trigger] r@[k])@ == (AlternateView {
                label: alternates@[k].label@ + "/"@ + degree_text(bass_degree),
                kind: alternates@[k].kind,
            }),
        decreases alternates.len() - i,
    {
        let mut label = alternates[i].label.clone();
        label.append(suffix.as_str());
        assert(label@ =~= alternates@[i as int].label@ + "/"@ + degree_text(bass_degree));
        r.push(AlternateLabel { label, kind: alternates[i].kind });
        i = i + 1;
    }
    assert(alt_views(r@) =~= alt_views(alternates@).map_values(
        |a: AlternateView| AlternateView { label: a.label + "/"@ + degree_text(bass_degree), ..a },
    ));
    r
}

/// `/` followed by the degree's text.
fn degree_text_string(d: Degree) -> (r: String)
    ensures
        r@ == "/"@ + degree_text(d),
{
    let mut r = String::from_str("/");
    let t = d.to_string();
    r.append(t.as_str());
    r
}

fn label_texts(alternates: &Vec<AlternateLabel>) -> (r: Vec<String>)
    ensures
        r@.map_values(|s: String| s@) == alt_views(alternates@).map_values(|a: AlternateView| a.label),
{
    let mut r: Vec<String> = Vec::new();
    let mut i: usize = 0;
    while i < alternates.len()
        invariant
            i <= alternates.len(),
            r@.len() == i,
            forall|k: int| 0 <= k < i ==> (#[trigger] r@[k])@ == alternates@[k].label@,
        decreases alternates.len() - i,
    {
        r.push(alternates[i].label.clone());
        i = i + 1;
    }
    assert(r@.map_values(|s: String| s@) =~= alt_views(alternates@).map_values(|a: AlternateView| a.label));
    r
}

fn add_functional_labels(alternates: &mut Vec<AlternateLabel>, fs: &Vec<FunctionalInterpretation>)
    ensures
        alt_views(final(alternates)@) == with_functional_labels(alt_views(old(alternates)@), functional_views(fs@)),
{
    let ghost start = alt_views(alternates@);
    let mut i: usize = 0;
    assert(functional_views(fs@).take(0) =~= Seq::<FunctionalView>::empty());
    while i < fs.len()
        invariant
            i <= fs.len(),
            alt_views(alternates@) == with_functional_labels(start, functional_views(fs@).take(i as int)),
        decreases fs.len() - i,
    {
        let label = &fs[i].label;
        let mut present = false;
        let mut j: usize = 0;
        while j < alternates.len()
            invariant
                j <= alternates.len(),
                present == exists|k: int| 0 <= k < j && (#[trigger] alternates@[k]).kind == AlternateKind::FunctionalInterpretation
                    && alternates@[k].label@ == label@,
            decreases alternates.len() - j,
        {
            if matches!(alternates[j].kind, AlternateKind::FunctionalInterpretation) && alternates[j].label == *label {
                present = true;
            }
            j = j + 1;
        }
        let ghost before = alt_views(alternates@);
        proof {
            let fv = functional_views(fs@);
            assert(fv.take(i + 1).drop_last() =~= fv.take(i as int));
            assert(fv.take(i + 1).last().label == label@);
            if present {
                let k = choose|k: int| 0 <= k < alternates@.len() && (#[trigger] alternates@[k]).kind == AlternateKind::FunctionalInterpretation
                    && alternates@[k].label@ == label@;
                assert(before[k].kind == AlternateKind::FunctionalInterpretation && before[k].label == label@);
            } else {
                assert forall|k: int| 0 <= k < before.len() implies !((#[trigger] before[k]).kind
                    == AlternateKind::FunctionalInterpretation && before[k].label == label@) by {
                    assert(before[k] == alternates@[k]@);
                }
            }
        }
        if !present {
            alternates.push(AlternateLabel { label: label.clone(), kind: AlternateKind::FunctionalInterpretation });
            assert(alt_views(alternates@) =~= before.push(AlternateView { label: label@, kind: AlternateKind::FunctionalInterpretation }));
        }
        i = i + 1;
    }
    assert(functional_views(fs@).take(fs@.len() as int) =~= functional_views(fs@));
}

impl Romanizer {
    fn functional_interpretations(&self, candidates: &Vec<HybridCandidate>, tonic: SpelledNote) -> (r: Vec<FunctionalInterpretation>)
        ensures
            functional_views(r@) == functional_list(candidate_views(candidates@), tonic, self.spec_options().default_mode),
    {
        let ghost cs = candidate_views(candidates@);
        let mut r: Vec<FunctionalInterpretation> = Vec::new();
        let mut i: usize = 0;
        assert(cs.take(0) =~= Seq::<CandidateView>::empty());
        while i < candidates.len()
            invariant
                i <= candidates.len(),
                cs == candidate_views(candidates@),
                functional_views(r@) == functional_list(cs.take(i as int), tonic, self.spec_options().default_mode),
            decreases candidates.len() - i,
        {
            let c = &candidates[i];
            let ghost before = functional_views(r@);
            proof {
                assert(cs.take(i + 1).drop_last() =~= cs.take(i as int));
                assert(cs.take(i + 1).last() == c@);
            }
            if let Some(symbol) = &c.analysis.alter {
                let classification = match &c.analysis.blackadder {
                    Some(reading) => reading.classification.duplicate(),
                    None => functional_hybrid_classification(c, tonic, self.options.default_mode),
                };
                let f = FunctionalInterpretation {
                    label: self.romanize_absolute_symbol(symbol.as_str(), tonic),
                    hybrid_kind: c.analysis.kind,
                    intrinsic_score: c.intrinsic_score,
                    rule_id: c.rule_id.clone(),
                    blackadder: match &c.analysis.blackadder {
                        Some(b) => Some(b.duplicate()),
                        None => None,
                    },
                    classification,
                    effective_root: c.analysis.effective_root,
                    evidence: duplicate_evidence(&c.evidence),
                };
                assert(f@ == functional_of(c@, tonic, self.options.default_mode));
                r.push(f);
                assert(functional_views(r@) =~= before.push(f@));
            }
            i = i + 1;
        }
        assert(cs.take(candidates.len() as int) =~= cs);
        r
    }

    fn spell_bass(
        &self,
        chord: &ParsedChord,
        bass: SpelledNote,
        analysis: &HybridAnalysis,
        root_fixed: SpelledNote,
        tonic: SpelledNote,
        paired: Option<SpelledNote>,
    ) -> (r: SpelledNote)
        requires
            chord.bass == Some(bass),
            slash_formula_fits(*chord, self.spec_options().behavior),
        ensures
            r == fixed_bass(*chord, bass, analysis@, root_fixed, tonic, paired, self.spec_options().behavior),
    {
        let fallback = match self.diatonic_or_borrowed_bass(bass, tonic) {
            Some(n) => n,
            None => bass,
        };
        if !analysis.is_hybrid {
            // An inversion's bass is spelled as the chord tone it is.
            let tones = spelled_tones_for(chord, root_fixed, self.options.behavior);
            match tones.get(&bass.pitch_class().value()) {
                Some(n) => *n,
                None => fallback,
            }
        } else if analysis.bass_preference.is_some() {
            name_of_pitch_class(bass.pitch_class(), analysis.bass_preference)
        } else if let Some(p) = paired {
            // `bI` over `bII`: keep the two spellings paired.
            p
        } else {
            fallback
        }
    }

    fn label_candidates_for(
        &self,
        chord: &ParsedChord,
        tonic: SpelledNote,
        previous: Option<&ParsedChord>,
        next: Option<&ParsedChord>,
        context: Option<Vec<HybridCandidate>>,
        paired: Option<SpelledNote>,
    ) -> (r: Vec<HybridCandidate>)
        requires
            slash_formula_fits(*chord, self.spec_options().behavior),
        ensures
            candidate_views(r@) == label_candidates(self.spec_options(), *chord, tonic, previous, next, context_views(context), paired),
    {
        proof {
            use_type_invariant(self);
        }
        let raw = match self.options.behavior {
            BehaviorProfile::StrictV1 => match context {
                Some(cs) => cs,
                None => self.interpreter.analyze_slash_candidates_with_context(
                    chord,
                    BlackadderContext { tonic: Some(tonic), previous_chord: previous, next_chord: next, observations: None },
                ),
            },
            BehaviorProfile::Python019 => self.interpreter.analyze_slash_candidates(chord, next),
        };
        pair_candidates(raw, paired)
    }

    fn chosen_reading(&self, candidates: &Vec<HybridCandidate>, next: Option<&ParsedChord>, tonic: SpelledNote) -> (r: HybridAnalysis)
        ensures
            r@ == chosen_analysis(candidate_views(candidates@), next, tonic, self.spec_options().behavior),
    {
        proof {
            use_type_invariant(self);
        }
        if candidates.len() == 0 {
            HybridAnalysis::default()
        } else {
            let best = self.interpreter.best_candidate(candidates, next, Some(tonic));
            candidates[best].analysis.duplicate()
        }
    }

    fn symbol_text(&self, chord: &ParsedChord, root: SpelledNote, bass: Option<SpelledNote>, redundant: bool) -> (r: String)
        ensures
            r@ == symbol_of(self.spec_options(), *chord, root, bass, redundant),
    {
        match self.options.behavior {
            BehaviorProfile::StrictV1 => render_symbol(root, chord.quality.as_str(), if redundant {
                None
            } else {
                bass
            }),
            BehaviorProfile::Python019 => rewrite_symbol(
                chord.original_symbol.as_str(),
                chord.root_lexeme.as_str(),
                Some(root),
                match &chord.bass_lexeme {
                    Some(l) => Some(l.as_str()),
                    None => None,
                },
                bass,
            ),
        }
    }

    fn shown_note(&self, n: SpelledNote) -> (r: SpelledNote)
        ensures
            r == shown(self.spec_options(), n),
    {
        if self.options.simplify_accidentals {
            simplify_spelling(n)
        } else {
            n
        }
    }

    fn slash_alternates_for(
        &self,
        alternates: Vec<AlternateLabel>,
        primary: &String,
        slash: bool,
        bass_degree: Degree,
    ) -> (r: Vec<AlternateLabel>)
        ensures
            alt_views(r@) == slash_alternates(self.spec_options().behavior, alt_views(alternates@), primary@, slash, bass_degree),
    {
        if !slash {
            return alternates;
        }
        match self.options.behavior {
            // A written bass is part of the notation, so enharmonic
            // alternatives keep it too.
            BehaviorProfile::StrictV1 => bass_suffixed(alternates, bass_degree),
            // The compatibility profile also offers the root-only label.
            BehaviorProfile::Python019 => {
                let mut alternates = alternates;
                let ghost before = alt_views(alternates@);
                alternates.push(AlternateLabel { label: primary.clone(), kind: AlternateKind::WithoutBass });
                assert(alt_views(alternates@) =~= before.push(AlternateView { label: primary@, kind: AlternateKind::WithoutBass }));
                alternates
            },
        }
    }

    /// The basis of the labels: degree spelling, readings, the chosen
    /// reading, and the written root and bass.
    #[verifier::rlimit(40)]
    fn basis_of(
        &self,
        chord: &ParsedChord,
        tonic: SpelledNote,
        previous: Option<&ParsedChord>,
        next: Option<&ParsedChord>,
        heard: Option<&ParsedChord>,
        prefer_sharps: Option<bool>,
        context: Option<Vec<HybridCandidate>>,
    ) -> (r: (Degree, Vec<Degree>, Vec<HybridCandidate>, HybridAnalysis, SpelledNote, Option<SpelledNote>, bool, Degree))
        requires
            slash_formula_fits(*chord, self.spec_options().behavior),
        ensures
            ({
                let b = label_basis(self.spec_options(), *chord, tonic, previous, next, heard, prefer_sharps, context_views(context));
                &&& r.0 == b.base
                &&& r.1@ == b.alternatives
                &&& candidate_views(r.2@) == b.candidates
                &&& r.3@ == b.analysis
                &&& r.4 == b.root_fixed
                &&& r.5 == b.bass_fixed
                &&& r.6 == b.redundant
                &&& r.7 == b.bass_degree
            }),
    {
        // A root spelling and its enharmonic alternatives: context chooses
        // the spelling, never the pitch class.
        let distance = semitone_distance_of(chord.root, tonic);
        let (base_degree, alternatives) = self.determine_degree_name(distance, tonic, chord, previous, next, prefer_sharps);
        let paired = match chord.bass {
            Some(b) => if base_degree == Degree::new(-1, RomanDegree::I) && semitone_distance_of(b, tonic) == 1 {
                Some(spell_degree_note(Degree::new(-1, RomanDegree::Ii), tonic))
            } else {
                None
            },
            None => None,
        };
        // Local readings, reused from the context when it has them.
        let candidates = self.label_candidates_for(chord, tonic, previous, heard, context, paired);
        let analysis = self.chosen_reading(&candidates, heard, tonic);
        // Written root and bass: an inversion's bass from the formula, a
        // hybrid's from its function and the key.
        let root_fixed = match analysis.root_override {
            Some(r) => r,
            None => spell_degree_note(base_degree, tonic),
        };
        let mut redundant = false;
        let mut bass_fixed: Option<SpelledNote> = None;
        let mut bass_degree = base_degree;
        if let Some(bass) = chord.bass {
            redundant = chord.root.pitch_class().value() == bass.pitch_class().value();
            let fixed = self.spell_bass(chord, bass, &analysis, root_fixed, tonic, paired);
            bass_fixed = Some(fixed);
            bass_degree = degree_from_spelling(fixed, tonic);
        }
        (base_degree, alternatives, candidates, analysis, root_fixed, bass_fixed, redundant, bass_degree)
    }

    /// Roman numeral, spellings and local readings of `chord` in `tonic`.
    ///
    /// `next` is the following chord, which can decide the degree spelling;
    /// `heard` is the continuation the readings are scored against, as
    /// heard in the key (its root spelled as a scale degree of `tonic`);
    /// `prefer_sharps` and `context` are the progression context's spelling
    /// preference and candidates.
    #[verifier::rlimit(80)]
    pub fn romanize_chord(
        &self,
        chord: &ParsedChord,
        tonic: SpelledNote,
        previous: Option<&ParsedChord>,
        next: Option<&ParsedChord>,
        heard: Option<&ParsedChord>,
        prefer_sharps: Option<bool>,
        context: Option<Vec<HybridCandidate>>,
    ) -> (r: ChordLabels)
        requires
            slash_formula_fits(*chord, self.spec_options().behavior),
        ensures
            r@ == chord_labels(self.spec_options(), *chord, tonic, previous, next, heard, prefer_sharps, context_views(context)),
            r.tonic == tonic,
            r.symbol_fixed@ == r.normalized_symbol@,
    {
        proof {
            reveal(chord_labels);
        }
        let ghost ctx_views = context_views(context);
        let (base_degree, alternatives, candidates, analysis, root_fixed, bass_fixed, redundant, bass_degree) = self.basis_of(
            chord,
            tonic,
            previous,
            next,
            heard,
            prefer_sharps,
            context,
        );
        let ghost b = label_basis(self.spec_options(), *chord, tonic, previous, next, heard, prefer_sharps, ctx_views);
        let primary = format_roman(base_degree, chord.quality.as_str());
        let alternates = enharmonic_alternates(&alternatives, chord.quality.as_str());
        // The primary label; a bass on the root's pitch class is dropped.
        let slash = chord.bass.is_some() && crate::text::contains_char(&to_chars(chord.original_symbol.as_str()), '/')
            && !redundant;
        let mut roman = primary.clone();
        let suffix = degree_text_string(bass_degree);
        if slash {
            roman.append(suffix.as_str());
            assert(roman@ =~= primary@ + "/"@ + degree_text(bass_degree));
        }
        let mut alternates = self.slash_alternates_for(alternates, &primary, slash, bass_degree);
        let has_bass_label = chord.bass.is_some() && !redundant;
        let degree_bass = if has_bass_label {
            Some(bass_degree)
        } else {
            None
        };
        let roman_root_bass = if has_bass_label {
            let mut t = base_degree.to_string();
            t.append(suffix.as_str());
            assert(t@ =~= degree_text(base_degree) + "/"@ + degree_text(bass_degree));
            Some(t)
        } else {
            None
        };
        // Symbols: the theoretical spelling, and the display spelling after
        // optional simplification.
        let theoretical_symbol = self.symbol_text(chord, root_fixed, bass_fixed, redundant);
        let bass_shown = match bass_fixed {
            Some(f) => Some(self.shown_note(f)),
            None => None,
        };
        let normalized_symbol = self.symbol_text(chord, self.shown_note(root_fixed), bass_shown, redundant);
        // Functional readings as typed alternates; the flat label list
        // leaves them out.
        let functional = self.functional_interpretations(&candidates, tonic);
        let alternate_labels = label_texts(&alternates);
        add_functional_labels(&mut alternates, &functional);
        let alter = match &analysis.alter {
            Some(a) => Some(self.romanize_absolute_symbol(a.as_str(), tonic)),
            None => None,
        };
        let r = ChordLabels {
            tonic,
            roman,
            alternate_labels,
            alternates,
            degree_root: base_degree,
            degree_bass,
            roman_root_bass,
            is_hybrid: analysis.is_hybrid,
            hybrid_kind: if analysis.is_hybrid {
                Some(analysis.kind)
            } else {
                None
            },
            slash_classification: analysis.slash_classification,
            hybrid_candidates: candidates,
            functional_interpretations: functional,
            alter,
            symbol_fixed: normalized_symbol.clone(),
            theoretical_symbol,
            normalized_symbol,
        };
        assert(r@ == labels_of_basis(self.spec_options(), *chord, tonic, b));
        r
    }
}


/// The next chord as heard in `tonic`: its root respelled as the default
/// scale degree, so that accidental spelling alone cannot change a rule.
pub open spec fn heard_in_key(n: ParsedChord, tonic: SpelledNote) -> ParsedChord {
    ParsedChord { root: degree_note(best_degree(dist(n.root, tonic), None), tonic), ..n }
}

pub proof fn lemma_points_alike(c: CandidateView, n1: ParsedChord, n2: ParsedChord, tonic: Option<SpelledNote>, behavior: BehaviorProfile)
    requires
        heard_alike(n1, n2),
    ensures
        contextual_points(c, Some(&n1), tonic, behavior) == contextual_points(c, Some(&n2), tonic, behavior),
{
    assert(crate::structure::dominant_for(n1, behavior) == crate::structure::dominant_for(n2, behavior));
    assert(crate::structure::tonic_for(n1, behavior) == crate::structure::tonic_for(n2, behavior));
}

pub proof fn lemma_best_alike(cs: Seq<CandidateView>, n1: ParsedChord, n2: ParsedChord, tonic: Option<SpelledNote>, behavior: BehaviorProfile)
    requires
        heard_alike(n1, n2),
    ensures
        best_index(cs, Some(&n1), tonic, behavior) == best_index(cs, Some(&n2), tonic, behavior),
    decreases cs.len(),
{
    if cs.len() > 1 {
        lemma_best_alike(cs.drop_last(), n1, n2, tonic, behavior);
        let j = best_index(cs.drop_last(), Some(&n1), tonic, behavior);
        lemma_points_alike(cs.last(), n1, n2, tonic, behavior);
        lemma_points_alike(cs[j], n1, n2, tonic, behavior);
    }
}

proof fn lemma_candidates_alike(chord: ParsedChord, n1: ParsedChord, n2: ParsedChord)
    requires
        heard_alike(n1, n2),
    ensures
        slash_candidates(
            chord,
            BlackadderContext { tonic: None, previous_chord: None, next_chord: Some(&n1), observations: None },
            BehaviorProfile::Python019,
        ) == slash_candidates(
            chord,
            BlackadderContext { tonic: None, previous_chord: None, next_chord: Some(&n2), observations: None },
            BehaviorProfile::Python019,
        ),
{
    let b = BehaviorProfile::Python019;
    assert(crate::structure::dominant_for(n1, b) == crate::structure::dominant_for(n2, b));
    assert(crate::structure::tonic_for(n1, b) == crate::structure::tonic_for(n2, b));
    if chord.bass is Some {
        assert(crate::analysis::interpreter::legacy_blackadder(chord, Some(&n1), b)
            == crate::analysis::interpreter::legacy_blackadder(chord, Some(&n2), b));
        assert(crate::analysis::interpreter::legacy_half_diminished(chord, Some(&n1), b)
            == crate::analysis::interpreter::legacy_half_diminished(chord, Some(&n2), b));
    }
}

/// Labels depend on the continuation only as it is heard.
pub proof fn lemma_labels_heard_alike(
    o: RomanizerOptions,
    chord: ParsedChord,
    tonic: SpelledNote,
    previous: Option<&ParsedChord>,
    next: Option<&ParsedChord>,
    n1: ParsedChord,
    n2: ParsedChord,
    prefer_sharps: Option<bool>,
    context: Option<Seq<CandidateView>>,
)
    requires
        heard_alike(n1, n2),
        o.behavior == BehaviorProfile::StrictV1 ==> context is Some,
    ensures
        chord_labels(o, chord, tonic, previous, next, Some(&n1), prefer_sharps, context) == chord_labels(
            o,
            chord,
            tonic,
            previous,
            next,
            Some(&n2),
            prefer_sharps,
            context,
        ),
{
    reveal(chord_labels);
    let choice = degree_choice(dist(chord.root, tonic), tonic, chord, next, prefer_sharps);
    let paired = paired_flat_bass(chord, choice.0, tonic);
    if o.behavior == BehaviorProfile::Python019 {
        lemma_candidates_alike(chord, n1, n2);
    }
    let cs = label_candidates(o, chord, tonic, previous, Some(&n1), context, paired);
    assert(cs == label_candidates(o, chord, tonic, previous, Some(&n2), context, paired));
    lemma_best_alike(cs, n1, n2, Some(tonic), o.behavior);
    assert(chosen_analysis(cs, Some(&n1), tonic, o.behavior) == chosen_analysis(cs, Some(&n2), tonic, o.behavior));
}

#[derive(Clone, Debug)]
/// Complete output for one chord event: its labels in the key, its local
/// readings, its scored readings in the progression, and the cadence
/// markers the context attaches to it.
pub struct RomanizedChord {
    /// The parsed input, including its untouched `original_symbol`.
    pub chord: ParsedChord,
    pub tonic: SpelledNote,
    pub roman: String,
    /// Enharmonic and root-only labels, without the functional ones.
    pub alternate_labels: Vec<String>,
    pub alternates: Vec<AlternateLabel>,
    pub degree_root: Degree,
    pub degree_bass: Option<Degree>,
    pub roman_root_bass: Option<String>,
    pub is_hybrid: bool,
    pub hybrid_kind: Option<HybridKind>,
    pub slash_classification: SlashClassification,
    /// Every local reading; `hybrid_kind` is their best view.
    pub hybrid_candidates: Vec<HybridCandidate>,
    pub functional_interpretations: Vec<FunctionalInterpretation>,
    /// Scored meanings from the progression context.
    pub harmonic_interpretations: Vec<HarmonicInterpretation>,
    /// Union of the classifications of those meanings.
    pub harmonic_classifications: Vec<HarmonicClassification>,
    pub alter: Option<String>,
    /// Alias of `normalized_symbol`.
    pub symbol_fixed: String,
    /// Symbol spelled in the key, before optional simplification.
    pub theoretical_symbol: String,
    /// Symbol as displayed, after optional simplification.
    pub normalized_symbol: String,
    pub is_ii_v_start: bool,
    pub is_resolution_target: bool,
    pub resolution_type: Option<ResolutionType>,
}

impl RomanizedChord {
    /// The labels part of the result.
    pub open spec fn labels(&self) -> LabelsView {
        LabelsView {
            roman: self.roman@,
            alternate_labels: self.alternate_labels@.map_values(|s: String| s@),
            alternates: alt_views(self.alternates@),
            degree_root: self.degree_root,
            degree_bass: self.degree_bass,
            roman_root_bass: lexeme_view(self.roman_root_bass),
            is_hybrid: self.is_hybrid,
            hybrid_kind: self.hybrid_kind,
            slash_classification: self.slash_classification,
            hybrid_candidates: candidate_views(self.hybrid_candidates@),
            functional_interpretations: functional_views(self.functional_interpretations@),
            alter: lexeme_view(self.alter),
            theoretical_symbol: self.theoretical_symbol@,
            normalized_symbol: self.normalized_symbol@,
        }
    }

    /// The progression readings part of the result.
    pub open spec fn readings(&self) -> ReadingsView {
        ReadingsView {
            interpretations: self.harmonic_interpretations@.map_values(|x: HarmonicInterpretation| x@),
            classifications: self.harmonic_classifications@.map_values(|c: HarmonicClassification| c@),
        }
    }
}

#[derive(Clone, Debug)]
/// Event-aligned output: one entry per input event.
pub enum AnnotatedEvent {
    Chord(Box<RomanizedChord>),
    NoChord { original_symbol: String, tonic: SpelledNote },
    Boundary { label: Option<String> },
}

/// The continuation event `i`'s readings are scored against, as heard in
/// its key: the context's target under StrictV1, the next chord under
/// Python019.
pub open spec fn heard_next(items: Seq<ProgressionItem>, o: RomanizerOptions, i: int) -> Option<ParsedChord> {
    let source = if o.behavior == BehaviorProfile::StrictV1 {
        target_at(items, o, i)
    } else {
        chord_at_link(items, next_link(items, link_policy(o), i))
    };
    match source {
        Some(n) => Some(heard_in_key(n, tonic_of(items[i], o.default_tonic))),
        None => None,
    }
}

/// Candidates the labels reuse from the context: all of them under
/// StrictV1, none under Python019.
pub open spec fn reused_candidates(items: Seq<ProgressionItem>, o: RomanizerOptions, i: int) -> Option<Seq<CandidateView>> {
    if o.behavior == BehaviorProfile::StrictV1 {
        candidates_at(items, o, i)
    } else {
        None
    }
}

/// Result for chord event `i` of `items`.
pub open spec fn chord_result(rc: RomanizedChord, items: Seq<ProgressionItem>, o: RomanizerOptions, i: int) -> bool {
    let fs = facts_seq(items, o);
    let pv = prev_seq(items, o);
    let nx = next_seq(items, o);
    let tonic = tonic_of(items[i], o.default_tonic);
    match items[i].symbol {
        ParsedSymbol::Chord(c) => {
            &&& same_chord(rc.chord, c)
            &&& rc.tonic == tonic
            &&& rc.labels() == chord_labels(
                o,
                c,
                tonic,
                as_ref_opt(&chord_at_link(items, prev_link(items, link_policy(o), i))),
                as_ref_opt(&chord_at_link(items, next_link(items, link_policy(o), i))),
                as_ref_opt(&heard_next(items, o, i)),
                prefer_at(fs, pv, nx, i, o.behavior),
                reused_candidates(items, o, i),
            )
            &&& rc.symbol_fixed@ == rc.normalized_symbol@
            &&& rc.readings() == node_readings(fs, pv, nx, i, o.behavior)
            &&& readings_wf(rc.readings())
            &&& rc.is_ii_v_start == starts_two_five(fs, nx, i, o.behavior)
            &&& rc.resolution_type == resolution_at(fs, pv, i, o.behavior)
            &&& rc.is_resolution_target == resolution_at(fs, pv, i, o.behavior) is Some
        },
        _ => false,
    }
}

/// Event `i` of the aligned output: the chord's result, or the N.C. with
/// its symbol and key, or the boundary with its label.
pub open spec fn event_result(e: AnnotatedEvent, items: Seq<ProgressionItem>, o: RomanizerOptions, i: int) -> bool {
    match items[i].symbol {
        ParsedSymbol::Chord(_) => e matches AnnotatedEvent::Chord(rc) && chord_result(*rc, items, o, i),
        ParsedSymbol::NoChord { original_symbol } => e matches AnnotatedEvent::NoChord { original_symbol: s, tonic }
            && s@ == original_symbol@ && tonic == tonic_of(items[i], o.default_tonic),
        ParsedSymbol::Boundary { label } => e matches AnnotatedEvent::Boundary { label: l } && lexeme_of(l)
            == lexeme_of(label),
    }
}

/// Positions of the chord events, in order.
pub open spec fn chord_positions(items: Seq<ProgressionItem>) -> Seq<int>
    decreases items.len(),
{
    if items.len() == 0 {
        Seq::empty()
    } else {
        let before = chord_positions(items.drop_last());
        if items.last().symbol is Chord {
            before.push(items.len() - 1)
        } else {
            before
        }
    }
}

fn heard_copy(n: &ParsedChord, tonic: SpelledNote) -> (r: ParsedChord)
    ensures
        heard_alike(r, heard_in_key(*n, tonic)),
{
    let degree = calc_degree_base(semitone_distance_of(n.root, tonic), None);
    proof {
        lemma_best_degree_is(degree, dist(n.root, tonic), None);
    }
    let mut r = n.duplicate();
    r.root = spell_degree_note(degree, tonic);
    r
}

impl Romanizer {
    /// The result for chord event `i`, reusing (and consuming) its local
    /// readings from the context.
    fn chord_result_at(
        &self,
        progression: &[ProgressionItem],
        context: &mut ContextAnalysis,
        i: usize,
        chord: &ParsedChord,
    ) -> (r: RomanizedChord)
        requires
            i < progression.len(),
            progression@[i as int].symbol == ParsedSymbol::Chord(*chord),
            progression_fits(progression@, self.spec_options().behavior),
            old(context).previous_chord@ == prev_seq(progression@, self.spec_options()),
            old(context).next_chord@ == next_seq(progression@, self.spec_options()),
            old(context).facts@ == facts_seq(progression@, self.spec_options()),
            old(context).candidates@.len() == progression@.len(),
            match candidates_at(progression@, self.spec_options(), i as int) {
                Some(cs) => old(context).candidates@[i as int] matches Some(v) && candidate_views(v@) == cs,
                None => old(context).candidates@[i as int] is None,
            },
        ensures
            chord_result(r, progression@, self.spec_options(), i as int),
            final(context).previous_chord@ == old(context).previous_chord@,
            final(context).next_chord@ == old(context).next_chord@,
            final(context).facts@ == old(context).facts@,
            final(context).candidates@.len() == old(context).candidates@.len(),
            forall|k: int| 0 <= k < old(context).candidates@.len() && k != i ==> final(context).candidates@[k] == old(
                context,
            ).candidates@[k],
    {
        proof {
            use_type_invariant(self);
        }
        let o = self.options;
        let ghost items = progression@;
        let tonic = item_tonic(&progression[i], o.default_tonic);
        proof {
            if o.behavior == BehaviorProfile::StrictV1 {
                assert(match items[i as int].symbol {
                    ParsedSymbol::Chord(c) => slash_formula_fits(c, BehaviorProfile::StrictV1),
                    _ => true,
                });
            }
        }
        let previous = chord_of_link(progression, context.previous_chord[i]);
        let next = chord_of_link(progression, context.next_chord[i]);
        let source = if matches!(o.behavior, BehaviorProfile::StrictV1) {
            target_for(progression, o, &context.facts, &context.next_chord, i, chord)
        } else {
            match next {
                Some(n) => Some(n.duplicate()),
                None => None,
            }
        };
        let heard_chord = match &source {
            Some(n) => Some(heard_copy(n, tonic)),
            None => None,
        };
        let heard = match &heard_chord {
            Some(n) => Some(n),
            None => None,
        };
        let prefer = prefer_at_of(&context.facts, &context.previous_chord, &context.next_chord, i, o.behavior);
        let ghost before = context.candidates@;
        let reused = if matches!(o.behavior, BehaviorProfile::StrictV1) {
            context.candidates[i].take()
        } else {
            None
        };
        assert(context.candidates@.len() == before.len());
        assert(forall|k: int| 0 <= k < before.len() && k != i ==> context.candidates@[k] == before[k]);
        let labels = self.romanize_chord(chord, tonic, previous, next, heard, prefer, reused);
        proof {
            let ghost ctx = reused_candidates(items, o, i as int);
            assert(context_views(reused) == ctx);
            if let Some(n) = heard_chord {
                lemma_labels_heard_alike(
                    o,
                    *chord,
                    tonic,
                    previous,
                    next,
                    n,
                    heard_next(items, o, i as int).unwrap(),
                    prefer,
                    ctx,
                );
            }
        }
        let readings = node_readings_of(&context.facts, &context.previous_chord, &context.next_chord, i, o.behavior);
        let resolution = resolution_at_of(&context.facts, &context.previous_chord, i, o.behavior);
        RomanizedChord {
            chord: chord.duplicate(),
            tonic,
            roman: labels.roman,
            alternate_labels: labels.alternate_labels,
            alternates: labels.alternates,
            degree_root: labels.degree_root,
            degree_bass: labels.degree_bass,
            roman_root_bass: labels.roman_root_bass,
            is_hybrid: labels.is_hybrid,
            hybrid_kind: labels.hybrid_kind,
            slash_classification: labels.slash_classification,
            hybrid_candidates: labels.hybrid_candidates,
            functional_interpretations: labels.functional_interpretations,
            harmonic_interpretations: readings.harmonic_interpretations,
            harmonic_classifications: readings.harmonic_classifications,
            alter: labels.alter,
            symbol_fixed: labels.symbol_fixed,
            theoretical_symbol: labels.theoretical_symbol,
            normalized_symbol: labels.normalized_symbol,
            is_ii_v_start: starts_two_five_of(&context.facts, &context.next_chord, i, o.behavior),
            is_resolution_target: resolution.is_some(),
            resolution_type: resolution,
        }
    }

    /// One output event per input event: chords with their labels and
    /// context, N.C. and boundaries as markers.
    ///
    /// Adjacency, local facts and scored readings come from one context
    /// pass over the whole progression; each chord's labels reuse its
    /// local readings (StrictV1) and see the next chord as heard in the key.
    pub fn annotate_events(&self, progression: &[ProgressionItem]) -> (r: Vec<AnnotatedEvent>)
        requires
            progression_fits(progression@, self.spec_options().behavior),
        ensures
            r.len() == progression.len(),
            forall|i: int| 0 <= i < progression.len() ==> event_result(#[trigger] r@[i], progression@, self.spec_options(), i),
    {
        proof {
            use_type_invariant(self);
        }
        let o = self.options;
        let ghost items = progression@;
        let mut context = analyze_context(progression, o, &self.interpreter);
        let mut results: Vec<AnnotatedEvent> = Vec::new();
        let mut i: usize = 0;
        while i < progression.len()
            invariant
                i <= progression.len(),
                items == progression@,
                o == self.spec_options(),
                progression_fits(items, o.behavior),
                context.previous_chord@ == prev_seq(items, o),
                context.next_chord@ == next_seq(items, o),
                context.facts@ == facts_seq(items, o),
                context.candidates@.len() == items.len(),
                forall|k: int| #![trigger context.candidates@[k]] i <= k < items.len() ==> match candidates_at(items, o, k) {
                    Some(cs) => context.candidates@[k] matches Some(v) && candidate_views(v@) == cs,
                    None => context.candidates@[k] is None,
                },
                results.len() == i,
                forall|k: int| 0 <= k < i ==> event_result(#[trigger] results@[k], items, o, k),
            decreases progression.len() - i,
        {
            match &progression[i].symbol {
                ParsedSymbol::Chord(chord) => {
                    let result = self.chord_result_at(progression, &mut context, i, chord);
                    results.push(AnnotatedEvent::Chord(Box::new(result)));
                },
                ParsedSymbol::NoChord { original_symbol } => {
                    let tonic = item_tonic(&progression[i], o.default_tonic);
                    results.push(AnnotatedEvent::NoChord { original_symbol: original_symbol.clone(), tonic });
                },
                ParsedSymbol::Boundary { label } => {
                    results.push(
                        AnnotatedEvent::Boundary {
                            label: match label {
                                Some(l) => Some(l.clone()),
                                None => None,
                            },
                        },
                    );
                },
            }
            i = i + 1;
        }
        results
    }

    /// The chord events only, in order; N.C. and boundaries still shape the
    /// context.
    pub fn annotate_progression(&self, progression: &[ProgressionItem]) -> (r: Vec<RomanizedChord>)
        requires
            progression_fits(progression@, self.spec_options().behavior),
        ensures
            r.len() == chord_positions(progression@).len(),
            forall|j: int| 0 <= j < r.len() ==> chord_result(
                #[trigger] r@[j],
                progression@,
                self.spec_options(),
                chord_positions(progression@)[j],
            ),
    {
        proof {
            use_type_invariant(self);
        }
        let o = self.options;
        let ghost items = progression@;
        let mut context = analyze_context(progression, o, &self.interpreter);
        let mut results: Vec<RomanizedChord> = Vec::new();
        let mut i: usize = 0;
        while i < progression.len()
            invariant
                i <= progression.len(),
                items == progression@,
                o == self.spec_options(),
                progression_fits(items, o.behavior),
                context.previous_chord@ == prev_seq(items, o),
                context.next_chord@ == next_seq(items, o),
                context.facts@ == facts_seq(items, o),
                context.candidates@.len() == items.len(),
                forall|k: int| #![trigger context.candidates@[k]] i <= k < items.len() ==> match candidates_at(items, o, k) {
                    Some(cs) => context.candidates@[k] matches Some(v) && candidate_views(v@) == cs,
                    None => context.candidates@[k] is None,
                },
                results.len() == chord_positions(items.take(i as int)).len(),
                forall|j: int| 0 <= j < results.len() ==> chord_result(
                    #[trigger] results@[j],
                    items,
                    o,
                    chord_positions(items.take(i as int))[j],
                ),
            decreases progression.len() - i,
        {
            proof {
                assert(items.take(i + 1).drop_last() =~= items.take(i as int));
            }
            if let ParsedSymbol::Chord(chord) = &progression[i].symbol {
                let result = self.chord_result_at(progression, &mut context, i, chord);
                results.push(result);
            }
            i = i + 1;
        }
        assert(items.take(i as int) =~= items);
        results
    }

    /// Build the candidate lattice of the progression, for 1-best or k-best
    /// decoding.
    pub fn build_lattice(&self, progression: &[ProgressionItem]) -> (r: AnalysisLattice)
        requires
            progression_fits(progression@, self.spec_options().behavior),
        ensures
            exists|events: Seq<AnnotatedEvent>|
                #[trigger] annotated(progression@, self.spec_options(), events) && r@ == built_lattice(
                    progression@,
                    events,
                    self.spec_options(),
                ),
            progression.len() <= 0x4_0000_0000_0000 ==> decodable(r@),
    {
        let events = self.annotate_events(progression);
        let r = AnalysisLattice::from_annotated_events(progression, events.as_slice(), self.options());
        assert(annotated(progression@, self.spec_options(), events@));
        r
    }

    /// The `k` best interpretation paths of the progression.
    pub fn analyze_top_k(&self, progression: &[ProgressionItem], k: usize) -> (r: Vec<AnalysisPath>)
        requires
            progression_fits(progression@, self.spec_options().behavior),
            progression.len() <= 0x4_0000_0000_0000,
        ensures
            exists|events: Seq<AnnotatedEvent>|
                #[trigger] annotated(progression@, self.spec_options(), events) && decoded(
                    built_lattice(progression@, events, self.spec_options()),
                    Seq::empty(),
                    k as int,
                    path_views(r@),
                ),
    {
        let lattice = self.build_lattice(progression);
        lattice.decode_top_k(k)
    }

    /// The `k` best interpretation paths; notation-only variants never take
    /// a place, as the built-in lattice holds semantic states only.
    pub fn analyze_top_k_interpretations(&self, progression: &[ProgressionItem], k: usize) -> (r: Vec<AnalysisPath>)
        requires
            progression_fits(progression@, self.spec_options().behavior),
            progression.len() <= 0x4_0000_0000_0000,
        ensures
            exists|events: Seq<AnnotatedEvent>|
                #[trigger] annotated(progression@, self.spec_options(), events) && decoded(
                    built_lattice(progression@, events, self.spec_options()),
                    Seq::empty(),
                    k as int,
                    path_views(r@),
                ),
    {
        let lattice = self.build_lattice(progression);
        lattice.decode_top_k_interpretations(k)
    }
}

/// Two results agree on the parsed chord, the key, every label, the
/// readings and the cadence markers.
pub open spec fn results_agree(a: RomanizedChord, b: RomanizedChord) -> bool {
    &&& a.chord.original_symbol@ == b.chord.original_symbol@
    &&& a.chord.root == b.chord.root
    &&& a.chord.root_lexeme@ == b.chord.root_lexeme@
    &&& a.chord.quality@ == b.chord.quality@
    &&& a.chord.quality_parsed.parts() == b.chord.quality_parsed.parts()
    &&& a.chord.bass == b.chord.bass
    &&& lexeme_of(a.chord.bass_lexeme) == lexeme_of(b.chord.bass_lexeme)
    &&& a.tonic == b.tonic
    &&& a.labels() == b.labels()
    &&& a.symbol_fixed@ == b.symbol_fixed@
    &&& a.readings() == b.readings()
    &&& a.is_ii_v_start == b.is_ii_v_start
    &&& a.is_resolution_target == b.is_resolution_target
    &&& a.resolution_type == b.resolution_type
}

/// The chord positions are the chord events, in increasing order.
pub proof fn lemma_chord_positions(items: Seq<ProgressionItem>)
    ensures
        forall|j: int|
            0 <= j < chord_positions(items).len() ==> 0 <= #[trigger] chord_positions(items)[j] < items.len()
                && items[chord_positions(items)[j]].symbol is Chord,
        forall|a: int, b: int|
            0 <= a < b < chord_positions(items).len() ==> #[trigger] chord_positions(items)[a]
                < #[trigger] chord_positions(items)[b],
        forall|i: int| 0 <= i < items.len() && (#[trigger] items[i]).symbol is Chord ==> chord_positions(items).contains(i),
    decreases items.len(),
{
    if items.len() > 0 {
        let pre = items.drop_last();
        lemma_chord_positions(pre);
        let p0 = chord_positions(pre);
        let p = chord_positions(items);
        assert forall|j: int| 0 <= j < p0.len() implies items[p0[j]] == pre[p0[j]] by {}
        assert forall|i: int| 0 <= i < items.len() && (#[trigger] items[i]).symbol is Chord implies p.contains(i) by {
            if i < items.len() - 1 {
                assert(pre[i] == items[i]);
                assert(p0.contains(i));
                let w = choose|w: int| 0 <= w < p0.len() && p0[w] == i;
                assert(p[w] == i);
            } else {
                assert(p[p.len() - 1] == i);
            }
        }
    }
}

/// The compact output is the event output with N.C. and boundaries dropped:
/// its `j`-th result agrees with the `j`-th chord event, chord events are
/// exactly the chord positions, and each result's `symbol_fixed` is its
/// `normalized_symbol`.
pub proof fn lemma_progression_is_filtered_events(
    items: Seq<ProgressionItem>,
    o: RomanizerOptions,
    events: Seq<AnnotatedEvent>,
    rs: Seq<RomanizedChord>,
)
    requires
        annotated(items, o, events),
        rs.len() == chord_positions(items).len(),
        forall|j: int| 0 <= j < rs.len() ==> chord_result(#[trigger] rs[j], items, o, chord_positions(items)[j]),
    ensures
        forall|j: int|
            0 <= j < rs.len() ==> (events[chord_positions(items)[j]] matches AnnotatedEvent::Chord(rc) && results_agree(
                *rc,
                #[trigger] rs[j],
            )) && rs[j].symbol_fixed@ == rs[j].normalized_symbol@,
        forall|i: int| 0 <= i < events.len() && (#[trigger] events[i]) is Chord ==> chord_positions(items).contains(i),
{
    lemma_chord_positions(items);
    let pos = chord_positions(items);
    assert forall|j: int| 0 <= j < rs.len() implies (events[pos[j]] matches AnnotatedEvent::Chord(rc) && results_agree(
        *rc,
        #[trigger] rs[j],
    )) && rs[j].symbol_fixed@ == rs[j].normalized_symbol@ by {
        let e = pos[j];
        assert(0 <= e < items.len() && items[e].symbol is Chord);
        assert(event_result(events[e], items, o, e));
        assert(chord_result(rs[j], items, o, e));
        assert(rs[j].labels().normalized_symbol == rs[j].normalized_symbol@);
    }
    assert forall|i: int| 0 <= i < events.len() && (#[trigger] events[i]) is Chord implies pos.contains(i) by {
        assert(event_result(events[i], items, o, i));
        assert(items[i].symbol is Chord);
    }
}

/// `events` is an annotation of `items`: one event per item, each the
/// result that `annotate_events` describes.
pub open spec fn annotated(items: Seq<ProgressionItem>, o: RomanizerOptions, events: Seq<AnnotatedEvent>) -> bool {
    &&& events.len() == items.len()
    &&& forall|i: int| 0 <= i < items.len() ==> event_result(#[trigger] events[i], items, o, i)
}
} // verus!
