//! Scored explanations of ordinary chromatic chords.
//!
//! One observed chord may have several explanations: E-flat major in C can
//! be parallel-minor mixture or a chromatic mediant. The rules only look at
//! the chord, its key and its immediate neighbors, and never claim a
//! modulation from one unusual chord; ranking the explanations is left to
//! the caller.

use vstd::prelude::*;
use crate::analysis::blackadder::{dist, mode_of_class, pc, perspective_of};
use crate::analysis::context::{push_reading, readings_wf, step_note, NodeFacts, NodeReadings, ReadingsView};
use crate::analysis::harmony::{
    new_reading, reading_wf, role_classification, with_evidence, ClassificationView, DominantRelation,
    HarmonicClassification, HarmonicInterpretation, HarmonicRole, HarmonicSource, InterpretationFamily, ReadingView,
    TonalMode,
};
use crate::analysis::blackadder::tonal_perspective;
use crate::domain::note::SpelledNote;
use crate::domain::chord::ParsedChord;
use crate::analysis::key::{role_in_key, TonalKey};
use crate::domain::quality::{QualityClass, SeventhQuality};
use crate::speller::{degree_from_spelling, semitone_distance, spelled_degree};

verus! {

/// A classification heard from the global key.
pub open spec fn global_view(c: NodeFacts, role: HarmonicRole, sources: Seq<HarmonicSource>, families: Seq<InterpretationFamily>) -> ClassificationView {
    ClassificationView {
        local_degree: Some(spelled_degree(c.effective_root, c.tonic)),
        sources,
        families,
        perspective: Some(perspective_of(c.tonic, c.tonic, c.global_mode)),
        ..role_classification(role)
    }
}

/// A stable major or minor chord that is not a dominant.
pub open spec fn stable_tonic(x: NodeFacts) -> bool {
    (x.quality == QualityClass::Major || x.quality == QualityClass::Minor) && !x.is_dominant
}

/// A stable chord on the global tonic.
pub open spec fn tonic_chord(x: NodeFacts, c: NodeFacts) -> bool {
    pc(x.effective_root) == pc(c.tonic) && stable_tonic(x)
}

pub open spec fn full_diminished(c: NodeFacts) -> bool {
    c.quality == QualityClass::Diminished && c.seventh == Some(SeventhQuality::Diminished)
}

/// The diminished seventh on `c` contains pitch class `x`.
pub open spec fn diminished_contains(c: NodeFacts, x: int) -> bool {
    let d = (x - pc(c.effective_root)) % 12;
    d == 0 || d == 3 || d == 6 || d == 9
}

/// A rootless `V7(b9)` resolving to the next chord: the diminished
/// seventh's four members put the target a semitone above any of them.
#[verifier::opaque]
pub open spec fn rootless_to_target(c: NodeFacts, n: NodeFacts) -> Option<ReadingView> {
    let d = dist(n.effective_root, c.effective_root);
    if full_diminished(c) && (d == 1 || d == 4 || d == 7 || d == 10) {
        Some(
            new_reading(
                "builtin.ordinary.diminished.rootless_dominant_to_target"@,
                170,
                "Fully diminished seventh matches a rootless V7(b9) resolving to the next chord"@,
                ClassificationView {
                    dominant_relation: Some(DominantRelation::FifthRelated),
                    local_degree: Some(spelled_degree(step_note(n.effective_root, 4, 7), n.effective_root)),
                    families: seq![InterpretationFamily::RootlessDominantNinth],
                    perspective: Some(perspective_of(c.tonic, n.effective_root, mode_of_class(n.quality))),
                    ..role_classification(HarmonicRole::Dominant)
                },
            ),
        )
    } else {
        None
    }
}

/// A rootless `V7(b9)` whose omitted root appears next (`I°7-IIm`).
#[verifier::opaque]
pub open spec fn rootless_root_restored(c: NodeFacts, n: NodeFacts) -> Option<ReadingView> {
    let d = dist(n.effective_root, c.effective_root);
    let lt = step_note(n.effective_root, 3, 5);
    if full_diminished(c) && (d == 2 || d == 5 || d == 8 || d == 11) {
        Some(
            new_reading(
                "builtin.ordinary.diminished.rootless_dominant_root_restored"@,
                105,
                "Fully diminished seventh can be a rootless V7(b9) whose omitted root appears next"@,
                ClassificationView {
                    dominant_relation: Some(DominantRelation::FifthRelated),
                    local_degree: Some(spelled_degree(n.effective_root, lt)),
                    families: seq![InterpretationFamily::RootlessDominantNinth],
                    perspective: Some(perspective_of(c.tonic, lt, TonalMode::Unknown)),
                    ..role_classification(HarmonicRole::Dominant)
                },
            ),
        )
    } else {
        None
    }
}

/// A diminished seventh sharing the global tonic, before the global `ii`.
#[verifier::opaque]
pub open spec fn diminished_tonic_substitute(c: NodeFacts, n: NodeFacts) -> Option<ReadingView> {
    if full_diminished(c) && dist(n.effective_root, c.tonic) == 2 && n.quality == QualityClass::Minor
        && diminished_contains(c, pc(c.tonic)) {
        Some(
            new_reading(
                "builtin.ordinary.diminished.tonic_substitute"@,
                70,
                "Diminished seventh shares the global tonic and can act as a weak tonic substitute before ii"@,
                global_view(
                    c,
                    HarmonicRole::Tonic,
                    seq![HarmonicSource::Chromatic],
                    seq![InterpretationFamily::TonicSubstitute],
                ),
            ),
        )
    } else {
        None
    }
}

/// A diminished seventh between two chords a chromatic step apart, or over
/// a repeated root before a whole-tone step (an inner passing voice).
#[verifier::opaque]
pub open spec fn diminished_passing(c: NodeFacts, p: NodeFacts, n: NodeFacts) -> Option<ReadingView> {
    let into = dist(c.effective_root, p.effective_root);
    let out = dist(n.effective_root, c.effective_root);
    let chromatic = (into == 1 && out == 1) || (into == 11 && out == 11);
    let stationary = pc(p.effective_root) == pc(c.effective_root) && (dist(n.effective_root, p.effective_root) == 2
        || dist(n.effective_root, p.effective_root) == 10);
    if full_diminished(c) && (chromatic || stationary) {
        let families = if stationary {
            seq![InterpretationFamily::PassingDiminished, InterpretationFamily::SplitVoiceLeading]
        } else {
            seq![InterpretationFamily::PassingDiminished]
        };
        let cl = global_view(c, HarmonicRole::NonFunctional, seq![HarmonicSource::Chromatic], families);
        Some(
            if chromatic {
                new_reading(
                    "builtin.ordinary.diminished.chromatic_passing"@,
                    165,
                    "Diminished seventh connects two surrounding roots by chromatic passing motion"@,
                    cl,
                )
            } else {
                new_reading(
                    "builtin.ordinary.diminished.inner_voice_passing"@,
                    90,
                    "Diminished seventh may carry a chromatic passing inner voice between surrounding harmonies"@,
                    cl,
                )
            },
        )
    } else {
        None
    }
}

/// A diminished seventh decorating a repeated harmony whose root it holds.
#[verifier::opaque]
pub open spec fn diminished_common_tone(c: NodeFacts, p: NodeFacts, n: NodeFacts) -> Option<ReadingView> {
    if full_diminished(c) && pc(p.effective_root) == pc(n.effective_root) && p.quality == n.quality && p.seventh
        == n.seventh && diminished_contains(c, pc(p.effective_root)) {
        Some(
            new_reading(
                "builtin.ordinary.diminished.common_tone_neighbor"@,
                170,
                "Diminished seventh decorates a repeated harmony while retaining a common tone"@,
                global_view(
                    c,
                    HarmonicRole::NonFunctional,
                    seq![HarmonicSource::Chromatic],
                    seq![
                        InterpretationFamily::CommonToneDiminished,
                        InterpretationFamily::AuxiliaryDiminished,
                        InterpretationFamily::Incidental,
                    ],
                ),
            ),
        )
    } else {
        None
    }
}

/// Parallel-minor vocabulary heard from a major tonic: the role, whether
/// it is subdominant-minor, and the explanation.
pub open spec fn borrowed_from_minor(c: NodeFacts) -> Option<(HarmonicRole, bool, Seq<char>)> {
    let rd = dist(c.effective_root, c.tonic);
    let q = c.quality;
    if rd == 0 && q == QualityClass::Minor {
        Some((HarmonicRole::Tonic, false, "Minor tonic borrowed from the parallel minor key"@))
    } else if rd == 2 && (q == QualityClass::HalfDiminished || q == QualityClass::Diminished) {
        Some((HarmonicRole::Predominant, true, "Minor-mode supertonic used as a borrowed predominant"@))
    } else if rd == 3 && q == QualityClass::Major && c.seventh != Some(SeventhQuality::Minor) {
        Some((HarmonicRole::Tonic, false, "Flat-mediant major chord borrowed from the parallel minor key"@))
    } else if rd == 5 && q == QualityClass::Minor {
        Some((HarmonicRole::Subdominant, true, "Minor subdominant borrowed from the parallel minor key"@))
    } else if rd == 7 && q == QualityClass::Minor {
        Some((HarmonicRole::Dominant, false, "Minor dominant borrowed from the parallel minor key"@))
    } else if rd == 8 && q == QualityClass::Major && c.seventh != Some(SeventhQuality::Minor) {
        Some((HarmonicRole::Subdominant, true, "Flat-submediant major chord borrowed from the parallel minor key"@))
    } else if rd == 10 && q == QualityClass::Major && c.seventh == Some(SeventhQuality::Minor) {
        Some((HarmonicRole::Subdominant, false, "Flat-seven dominant-quality chord from parallel-minor vocabulary"@))
    } else {
        None
    }
}

/// Modal interchange in a major key, strengthened by a direct return to
/// (or departure from) the tonic.
#[verifier::opaque]
pub open spec fn modal_interchange(c: NodeFacts, p: Option<NodeFacts>, n: Option<NodeFacts>) -> Option<ReadingView> {
    match borrowed_from_minor(c) {
        Some(b) => if c.global_mode == TonalMode::Major {
            let cl = global_view(
                c,
                b.0,
                if b.1 {
                    seq![HarmonicSource::ParallelMinor, HarmonicSource::SubdominantMinor]
                } else {
                    seq![HarmonicSource::ParallelMinor]
                },
                if b.1 {
                    seq![InterpretationFamily::ModalInterchange, InterpretationFamily::SubdominantMinor]
                } else {
                    seq![InterpretationFamily::ModalInterchange]
                },
            );
            let x = new_reading("builtin.ordinary.modal_interchange"@, 95, b.2, cl);
            Some(
                if n matches Some(e) && tonic_chord(e, c) {
                    with_evidence(
                        x,
                        "builtin.ordinary.modal_interchange.to_tonic"@,
                        45,
                        "Borrowed harmony returns directly to the global tonic"@,
                    )
                } else if p matches Some(e) && tonic_chord(e, c) {
                    with_evidence(
                        x,
                        "builtin.ordinary.modal_interchange.from_tonic"@,
                        20,
                        "Borrowed harmony departs directly from the global tonic"@,
                    )
                } else {
                    x
                },
            )
        } else {
            None
        },
        None => None,
    }
}

/// In a major key a chord borrowed from the parallel minor keeps the
/// function its degree has in that minor key, as `role_in_key` hears any
/// chord on the same root: i and bIII are tonics, iiø a predominant, iv and
/// bVII7 subdominants, v a dominant. Only bVI departs from it, heard as a
/// subdominant (a subdominant-minor colour). In particular a minor triad on the tonic is
/// always read as a borrowed tonic, and minor triads on i, iv and v are
/// always offered as borrowings.
pub proof fn lemma_borrowed_role_follows_parallel_minor(
    c: NodeFacts,
    p: Option<NodeFacts>,
    n: Option<NodeFacts>,
    chord: ParsedChord,
)
    requires
        c.global_mode == TonalMode::Major,
        chord.root == c.effective_root,
    ensures
        dist(c.effective_root, c.tonic) != 8 ==> (modal_interchange(c, p, n) matches Some(x) ==> x.classification.role
            == role_in_key(chord, TonalKey { tonic: c.tonic, mode: TonalMode::Minor })),
        c.quality == QualityClass::Minor && (dist(c.effective_root, c.tonic) == 0 || dist(c.effective_root, c.tonic)
            == 5 || dist(c.effective_root, c.tonic) == 7) ==> modal_interchange(c, p, n) is Some,
        dist(c.effective_root, c.tonic) == 8 ==> (modal_interchange(c, p, n) matches Some(x) ==> x.classification.role
            == Some(HarmonicRole::Subdominant) && x.classification.families.contains(
            InterpretationFamily::SubdominantMinor,
        )),
        c.quality == QualityClass::Minor && dist(c.effective_root, c.tonic) == 0 ==> (modal_interchange(c, p, n) matches Some(
            x,
        ) && x.rule_id == "builtin.ordinary.modal_interchange"@ && x.classification.role == Some(HarmonicRole::Tonic)),
{
    reveal(modal_interchange);
}

/// Modal colours outside parallel Aeolian: Phrygian `bII`, Mixolydian
/// `bVII`, Lydian `#IVø`.
#[verifier::opaque]
pub open spec fn modal_colour(c: NodeFacts) -> Option<ReadingView> {
    let rd = dist(c.effective_root, c.tonic);
    let plain_major = c.quality == QualityClass::Major && c.seventh != Some(SeventhQuality::Minor);
    let colour = if rd == 1 && plain_major {
        Some((HarmonicRole::Subdominant, HarmonicSource::Phrygian, "Flat-two major harmony from parallel-Phrygian vocabulary"@))
    } else if rd == 10 && plain_major {
        Some((HarmonicRole::Subdominant, HarmonicSource::Mixolydian, "Major flat-seven harmony from Mixolydian/modal vocabulary"@))
    } else if rd == 6 && c.quality == QualityClass::HalfDiminished {
        Some((HarmonicRole::Predominant, HarmonicSource::Lydian, "Raised-four half-diminished harmony compatible with Lydian"@))
    } else {
        None
    };
    match colour {
        Some(m) => if c.global_mode == TonalMode::Major {
            Some(
                new_reading(
                    "builtin.ordinary.modal_colour"@,
                    75,
                    m.2,
                    global_view(c, m.0, seq![m.1], seq![InterpretationFamily::ModalInterchange]),
                ),
            )
        } else {
            None
        },
        None => None,
    }
}

/// `bVII7` derived from subdominant-minor voice leading.
#[verifier::opaque]
pub open spec fn flat_seven_subdominant_minor(c: NodeFacts, p: Option<NodeFacts>, n: Option<NodeFacts>) -> Option<ReadingView> {
    if dist(c.effective_root, c.tonic) == 10 && c.quality == QualityClass::Major && c.seventh == Some(SeventhQuality::Minor) {
        let x = new_reading(
            "builtin.ordinary.flat_seven_subdominant_minor"@,
            95,
            "Flat-seven dominant seventh can derive from subdominant-minor voice leading"@,
            global_view(
                c,
                HarmonicRole::Subdominant,
                seq![HarmonicSource::SubdominantMinor],
                seq![InterpretationFamily::SubdominantMinor],
            ),
        );
        Some(
            if n matches Some(e) && tonic_chord(e, c) {
                with_evidence(
                    x,
                    "builtin.ordinary.flat_seven_subdominant_minor.to_tonic"@,
                    45,
                    "Subdominant-minor flat-seven harmony returns directly to tonic"@,
                )
            } else if p matches Some(e) && tonic_chord(e, c) {
                with_evidence(
                    x,
                    "builtin.ordinary.flat_seven_subdominant_minor.from_tonic"@,
                    15,
                    "Subdominant-minor flat-seven harmony departs directly from tonic"@,
                )
            } else {
                x
            },
        )
    } else {
        None
    }
}

/// The Neapolitan `bII` before the global dominant or the tonic.
#[verifier::opaque]
pub open spec fn neapolitan(c: NodeFacts, n: Option<NodeFacts>) -> Option<ReadingView> {
    let flat_two = dist(c.effective_root, c.tonic) == 1 && c.quality == QualityClass::Major && c.seventh != Some(
        SeventhQuality::Minor,
    );
    let to_dominant = n matches Some(e) && dist(e.effective_root, c.tonic) == 7 && e.is_dominant;
    let to_tonic = n matches Some(e) && tonic_chord(e, c);
    if flat_two && (to_dominant || to_tonic) {
        let cl = global_view(c, HarmonicRole::Predominant, seq![HarmonicSource::Phrygian], seq![InterpretationFamily::Neapolitan]);
        Some(
            if to_dominant {
                new_reading(
                    "builtin.ordinary.neapolitan"@,
                    215,
                    "Flat-two major harmony prepares the global dominant as a Neapolitan"@,
                    cl,
                )
            } else {
                new_reading(
                    "builtin.ordinary.neapolitan"@,
                    125,
                    "Flat-two major harmony resolves directly to tonic in a Neapolitan/Phrygian gesture"@,
                    cl,
                )
            },
        )
    } else {
        None
    }
}

/// A major chord a third from the tonic, stronger next to the tonic.
#[verifier::opaque]
pub open spec fn chromatic_mediant(c: NodeFacts, p: Option<NodeFacts>, n: Option<NodeFacts>) -> Option<ReadingView> {
    let rd = dist(c.effective_root, c.tonic);
    let major_colour = c.quality == QualityClass::Major && c.seventh != Some(SeventhQuality::Minor);
    let touches = (p matches Some(e) && tonic_chord(e, c)) || (n matches Some(e) && tonic_chord(e, c));
    if major_colour && (rd == 3 || rd == 4 || rd == 8 || rd == 9) {
        let cl = global_view(
            c,
            HarmonicRole::NonFunctional,
            seq![HarmonicSource::Chromatic],
            seq![InterpretationFamily::ChromaticMediant],
        );
        Some(
            if touches {
                new_reading(
                    "builtin.ordinary.chromatic_mediant"@,
                    135,
                    "Major harmony a third from the tonic forms a direct chromatic-mediant relation"@,
                    cl,
                )
            } else {
                new_reading(
                    "builtin.ordinary.chromatic_mediant"@,
                    55,
                    "Major harmony is a chromatic mediant of the global tonic"@,
                    cl,
                )
            },
        )
    } else {
        None
    }
}

/// A half-diminished seventh whose root descends a semitone into the tonic
/// major seventh, keeping its three other tones.
#[verifier::opaque]
pub open spec fn half_diminished_neighbor(c: NodeFacts, n: Option<NodeFacts>) -> Option<ReadingView> {
    match n {
        Some(e) => if c.quality == QualityClass::HalfDiminished && dist(e.effective_root, c.effective_root) == 11
            && pc(e.effective_root) == pc(c.tonic) && e.quality == QualityClass::Major && e.seventh == Some(
            SeventhQuality::Major,
        ) && stable_tonic(e) {
            Some(
                new_reading(
                    "builtin.ordinary.half_diminished.common_tone_neighbor"@,
                    190,
                    "Half-diminished seventh retains three common tones while its root descends by semitone into tonic major seventh"@,
                    global_view(
                        c,
                        HarmonicRole::NonFunctional,
                        seq![HarmonicSource::Chromatic],
                        seq![InterpretationFamily::CommonToneNeighbor, InterpretationFamily::ChromaticApproach],
                    ),
                ),
            )
        } else {
            None
        },
        None => None,
    }
}

/// A diatonic triad of the major key.
pub open spec fn diatonic_major(c: NodeFacts) -> bool {
    let rd = dist(c.effective_root, c.tonic);
    ((rd == 0 || rd == 5 || rd == 7) && c.quality == QualityClass::Major) || ((rd == 2 || rd == 4 || rd == 9)
        && c.quality == QualityClass::Minor) || (rd == 11 && (c.quality == QualityClass::Diminished || c.quality
        == QualityClass::HalfDiminished))
}

/// A non-diatonic chord moving by semitone to an equal-quality chord or to
/// the tonic.
#[verifier::opaque]
pub open spec fn chromatic_approach(c: NodeFacts, n: Option<NodeFacts>) -> Option<ReadingView> {
    match n {
        Some(e) => {
            let rm = dist(e.effective_root, c.effective_root);
            let same = c.quality == e.quality && c.seventh == e.seventh;
            if (rm == 1 || rm == 11) && !diatonic_major(c) && (same || tonic_chord(e, c)) {
                let cl = global_view(
                    c,
                    HarmonicRole::NonFunctional,
                    seq![HarmonicSource::Chromatic],
                    seq![InterpretationFamily::ChromaticApproach],
                );
                Some(
                    if same {
                        new_reading(
                            "builtin.ordinary.chromatic_approach"@,
                            125,
                            "Non-diatonic chord approaches the next equal-quality chord by semitone"@,
                            cl,
                        )
                    } else {
                        new_reading(
                            "builtin.ordinary.chromatic_approach"@,
                            85,
                            "Non-diatonic chord approaches the global tonic by semitone"@,
                            cl,
                        )
                    },
                )
            } else {
                None
            }
        },
        None => None,
    }
}

pub open spec fn with_next(f: spec_fn(NodeFacts) -> Option<ReadingView>, n: Option<NodeFacts>) -> Option<ReadingView> {
    match n {
        Some(e) => f(e),
        None => None,
    }
}

/// The explanations of chord `c`, in rule order: the diminished-seventh
/// readings, modal interchange and colour, `bVII7` as subdominant minor,
/// Neapolitan, chromatic mediant, half-diminished neighbor, chromatic
/// approach.
pub open spec fn ordinary_candidates(p: Option<NodeFacts>, c: NodeFacts, n: Option<NodeFacts>) -> Seq<Option<ReadingView>> {
    seq![
        with_next(|e: NodeFacts| rootless_to_target(c, e), n),
        with_next(|e: NodeFacts| rootless_root_restored(c, e), n),
        with_next(|e: NodeFacts| diminished_tonic_substitute(c, e), n),
        match (p, n) {
            (Some(x), Some(y)) => diminished_passing(c, x, y),
            _ => None,
        },
        match (p, n) {
            (Some(x), Some(y)) => diminished_common_tone(c, x, y),
            _ => None,
        },
        modal_interchange(c, p, n),
        modal_colour(c),
        flat_seven_subdominant_minor(c, p, n),
        neapolitan(c, n),
        chromatic_mediant(c, p, n),
        half_diminished_neighbor(c, n),
        chromatic_approach(c, n),
    ]
}

/// `s` with each present reading of `xs` recorded, in order.
pub open spec fn push_all(s: ReadingsView, xs: Seq<Option<ReadingView>>) -> ReadingsView
    decreases xs.len(),
{
    if xs.len() == 0 {
        s
    } else {
        let before = push_all(s, xs.drop_last());
        match xs.last() {
            Some(x) => push_reading(before, x),
            None => before,
        }
    }
}

pub open spec fn opt_view(o: Option<HarmonicInterpretation>) -> Option<ReadingView> {
    match o {
        Some(x) => Some(x@),
        None => None,
    }
}

pub open spec fn opt_wf(o: Option<HarmonicInterpretation>) -> bool {
    match o {
        Some(x) => reading_wf(x@),
        None => true,
    }
}

fn global_classification(
    c: &NodeFacts,
    role: HarmonicRole,
    source: HarmonicSource,
    family: InterpretationFamily,
) -> (r: HarmonicClassification)
    ensures
        r@ == global_view(*c, role, seq![source], seq![family]),
{
    let mut cl = HarmonicClassification::with_role(role);
    cl.local_degree = Some(degree_from_spelling(c.effective_root, c.tonic));
    cl.perspective = Some(tonal_perspective(c.tonic, c.tonic, c.global_mode));
    cl.add_source(source);
    cl.add_family(family);
    assert(cl@.sources =~= seq![source]);
    assert(cl@.families =~= seq![family]);
    cl
}

fn is_full_diminished(c: &NodeFacts) -> (r: bool)
    ensures
        r == full_diminished(*c),
{
    matches!(c.quality, QualityClass::Diminished) && matches!(c.seventh, Some(SeventhQuality::Diminished))
}

fn diminished_contains_of(c: &NodeFacts, x: SpelledNote) -> (r: bool)
    ensures
        r == diminished_contains(*c, pc(x)),
{
    let d = semitone_distance(x, c.effective_root);
    d == 0 || d == 3 || d == 6 || d == 9
}

fn is_stable_tonic(x: &NodeFacts) -> (r: bool)
    ensures
        r == stable_tonic(*x),
{
    matches!(x.quality, QualityClass::Major | QualityClass::Minor) && !x.is_dominant
}

fn is_tonic_chord(x: &NodeFacts, c: &NodeFacts) -> (r: bool)
    ensures
        r == tonic_chord(*x, *c),
{
    x.effective_root.pitch_class().value() == c.tonic.pitch_class().value() && is_stable_tonic(x)
}

fn next_is_tonic(n: Option<NodeFacts>, c: &NodeFacts) -> (r: bool)
    ensures
        r == (n matches Some(e) && tonic_chord(e, *c)),
{
    match n {
        Some(e) => is_tonic_chord(&e, c),
        None => false,
    }
}

fn rootless_to_target_of(c: &NodeFacts, n: &NodeFacts) -> (r: Option<HarmonicInterpretation>)
    ensures
        opt_view(r) == rootless_to_target(*c, *n),
        opt_wf(r),
{
    proof {
        reveal(rootless_to_target);
    }
    let d = semitone_distance(n.effective_root, c.effective_root);
    if !(is_full_diminished(c) && (d == 1 || d == 4 || d == 7 || d == 10)) {
        return None;
    }
    let dominant_root = crate::analysis::context::step_note_of(n.effective_root, 4, 7);
    let mut cl = HarmonicClassification::with_role(HarmonicRole::Dominant);
    cl.local_degree = Some(degree_from_spelling(dominant_root, n.effective_root));
    cl.perspective = Some(tonal_perspective(c.tonic, n.effective_root, crate::analysis::blackadder::mode_of_quality(n.quality)));
    cl.dominant_relation = Some(DominantRelation::FifthRelated);
    cl.add_family(InterpretationFamily::RootlessDominantNinth);
    assert(cl@.families =~= seq![InterpretationFamily::RootlessDominantNinth]);
    assert(cl@.sources =~= Seq::<HarmonicSource>::empty());
    Some(
        HarmonicInterpretation::new(
            "builtin.ordinary.diminished.rootless_dominant_to_target",
            170,
            "Fully diminished seventh matches a rootless V7(b9) resolving to the next chord",
            cl,
        ),
    )
}

fn rootless_root_restored_of(c: &NodeFacts, n: &NodeFacts) -> (r: Option<HarmonicInterpretation>)
    ensures
        opt_view(r) == rootless_root_restored(*c, *n),
        opt_wf(r),
{
    proof {
        reveal(rootless_root_restored);
    }
    let d = semitone_distance(n.effective_root, c.effective_root);
    if !(is_full_diminished(c) && (d == 2 || d == 5 || d == 8 || d == 11)) {
        return None;
    }
    let local_tonic = crate::analysis::context::step_note_of(n.effective_root, 3, 5);
    let mut cl = HarmonicClassification::with_role(HarmonicRole::Dominant);
    cl.local_degree = Some(degree_from_spelling(n.effective_root, local_tonic));
    cl.perspective = Some(tonal_perspective(c.tonic, local_tonic, TonalMode::Unknown));
    cl.dominant_relation = Some(DominantRelation::FifthRelated);
    cl.add_family(InterpretationFamily::RootlessDominantNinth);
    assert(cl@.families =~= seq![InterpretationFamily::RootlessDominantNinth]);
    assert(cl@.sources =~= Seq::<HarmonicSource>::empty());
    Some(
        HarmonicInterpretation::new(
            "builtin.ordinary.diminished.rootless_dominant_root_restored",
            105,
            "Fully diminished seventh can be a rootless V7(b9) whose omitted root appears next",
            cl,
        ),
    )
}

fn diminished_tonic_substitute_of(c: &NodeFacts, n: &NodeFacts) -> (r: Option<HarmonicInterpretation>)
    ensures
        opt_view(r) == diminished_tonic_substitute(*c, *n),
        opt_wf(r),
{
    proof {
        reveal(diminished_tonic_substitute);
    }
    if !(is_full_diminished(c) && semitone_distance(n.effective_root, c.tonic) == 2 && matches!(
        n.quality,
        QualityClass::Minor
    ) && diminished_contains_of(c, c.tonic)) {
        return None;
    }
    Some(
        HarmonicInterpretation::new(
            "builtin.ordinary.diminished.tonic_substitute",
            70,
            "Diminished seventh shares the global tonic and can act as a weak tonic substitute before ii",
            global_classification(c, HarmonicRole::Tonic, HarmonicSource::Chromatic, InterpretationFamily::TonicSubstitute),
        ),
    )
}

fn diminished_passing_of(c: &NodeFacts, p: &NodeFacts, n: &NodeFacts) -> (r: Option<HarmonicInterpretation>)
    ensures
        opt_view(r) == diminished_passing(*c, *p, *n),
        opt_wf(r),
{
    proof {
        reveal(diminished_passing);
    }
    let into = semitone_distance(c.effective_root, p.effective_root);
    let out = semitone_distance(n.effective_root, c.effective_root);
    let chromatic = (into == 1 && out == 1) || (into == 11 && out == 11);
    let step = semitone_distance(n.effective_root, p.effective_root);
    let stationary = p.effective_root.pitch_class().value() == c.effective_root.pitch_class().value() && (step == 2
        || step == 10);
    if !(is_full_diminished(c) && (chromatic || stationary)) {
        return None;
    }
    let mut cl = global_classification(
        c,
        HarmonicRole::NonFunctional,
        HarmonicSource::Chromatic,
        InterpretationFamily::PassingDiminished,
    );
    if stationary {
        // Only voicing can prove the inner chromatic strand.
        cl.add_family(InterpretationFamily::SplitVoiceLeading);
        assert(cl@.families =~= seq![InterpretationFamily::PassingDiminished, InterpretationFamily::SplitVoiceLeading]);
    }
    if chromatic {
        Some(
            HarmonicInterpretation::new(
                "builtin.ordinary.diminished.chromatic_passing",
                165,
                "Diminished seventh connects two surrounding roots by chromatic passing motion",
                cl,
            ),
        )
    } else {
        Some(
            HarmonicInterpretation::new(
                "builtin.ordinary.diminished.inner_voice_passing",
                90,
                "Diminished seventh may carry a chromatic passing inner voice between surrounding harmonies",
                cl,
            ),
        )
    }
}

fn diminished_common_tone_of(c: &NodeFacts, p: &NodeFacts, n: &NodeFacts) -> (r: Option<HarmonicInterpretation>)
    ensures
        opt_view(r) == diminished_common_tone(*c, *p, *n),
        opt_wf(r),
{
    proof {
        reveal(diminished_common_tone);
    }
    if !(is_full_diminished(c) && p.effective_root.pitch_class().value() == n.effective_root.pitch_class().value()
        && p.quality == n.quality && p.seventh == n.seventh && diminished_contains_of(c, p.effective_root)) {
        return None;
    }
    let mut cl = global_classification(
        c,
        HarmonicRole::NonFunctional,
        HarmonicSource::Chromatic,
        InterpretationFamily::CommonToneDiminished,
    );
    cl.add_family(InterpretationFamily::AuxiliaryDiminished);
    cl.add_family(InterpretationFamily::Incidental);
    assert(cl@.families =~= seq![
        InterpretationFamily::CommonToneDiminished,
        InterpretationFamily::AuxiliaryDiminished,
        InterpretationFamily::Incidental,
    ]);
    Some(
        HarmonicInterpretation::new(
            "builtin.ordinary.diminished.common_tone_neighbor",
            170,
            "Diminished seventh decorates a repeated harmony while retaining a common tone",
            cl,
        ),
    )
}

fn borrowed_from_minor_of(c: &NodeFacts) -> (r: Option<(HarmonicRole, bool, &'static str)>)
    ensures
        match borrowed_from_minor(*c) {
            Some(b) => r matches Some(x) && x.0 == b.0 && x.1 == b.1 && x.2@ == b.2,
            None => r is None,
        },
{
    let rd = semitone_distance(c.effective_root, c.tonic);
    let minor_seventh = matches!(c.seventh, Some(SeventhQuality::Minor));
    match c.quality {
        QualityClass::Minor => if rd == 0 {
            Some((HarmonicRole::Tonic, false, "Minor tonic borrowed from the parallel minor key"))
        } else if rd == 5 {
            Some((HarmonicRole::Subdominant, true, "Minor subdominant borrowed from the parallel minor key"))
        } else if rd == 7 {
            Some((HarmonicRole::Dominant, false, "Minor dominant borrowed from the parallel minor key"))
        } else {
            None
        },
        QualityClass::HalfDiminished | QualityClass::Diminished => if rd == 2 {
            Some((HarmonicRole::Predominant, true, "Minor-mode supertonic used as a borrowed predominant"))
        } else {
            None
        },
        QualityClass::Major => if rd == 3 && !minor_seventh {
            Some((HarmonicRole::Tonic, false, "Flat-mediant major chord borrowed from the parallel minor key"))
        } else if rd == 8 && !minor_seventh {
            Some((HarmonicRole::Subdominant, true, "Flat-submediant major chord borrowed from the parallel minor key"))
        } else if rd == 10 && minor_seventh {
            Some((HarmonicRole::Subdominant, false, "Flat-seven dominant-quality chord from parallel-minor vocabulary"))
        } else {
            None
        },
        _ => None,
    }
}

fn modal_interchange_of(c: &NodeFacts, p: Option<NodeFacts>, n: Option<NodeFacts>) -> (r: Option<HarmonicInterpretation>)
    ensures
        opt_view(r) == modal_interchange(*c, p, n),
        opt_wf(r),
{
    proof {
        reveal(modal_interchange);
    }
    // Parallel-minor vocabulary is heard from a major tonic only.
    let b = match borrowed_from_minor_of(c) {
        Some(b) => b,
        None => return None,
    };
    if !matches!(c.global_mode, TonalMode::Major) {
        return None;
    }
    let mut cl = global_classification(c, b.0, HarmonicSource::ParallelMinor, InterpretationFamily::ModalInterchange);
    if b.1 {
        cl.add_source(HarmonicSource::SubdominantMinor);
        cl.add_family(InterpretationFamily::SubdominantMinor);
        assert(cl@.sources =~= seq![HarmonicSource::ParallelMinor, HarmonicSource::SubdominantMinor]);
        assert(cl@.families =~= seq![InterpretationFamily::ModalInterchange, InterpretationFamily::SubdominantMinor]);
    }
    let mut x = HarmonicInterpretation::new("builtin.ordinary.modal_interchange", 95, b.2, cl);
    // A direct return to the tonic supports the role; it is only a bonus.
    if next_is_tonic(n, c) {
        x.add_evidence(
            "builtin.ordinary.modal_interchange.to_tonic",
            45,
            "Borrowed harmony returns directly to the global tonic",
        );
    } else if next_is_tonic(p, c) {
        x.add_evidence(
            "builtin.ordinary.modal_interchange.from_tonic",
            20,
            "Borrowed harmony departs directly from the global tonic",
        );
    }
    Some(x)
}

fn modal_colour_of(c: &NodeFacts) -> (r: Option<HarmonicInterpretation>)
    ensures
        opt_view(r) == modal_colour(*c),
        opt_wf(r),
{
    proof {
        reveal(modal_colour);
    }
    let rd = semitone_distance(c.effective_root, c.tonic);
    let plain_major = matches!(c.quality, QualityClass::Major) && !matches!(c.seventh, Some(SeventhQuality::Minor));
    let colour = if rd == 1 && plain_major {
        Some((HarmonicRole::Subdominant, HarmonicSource::Phrygian, "Flat-two major harmony from parallel-Phrygian vocabulary"))
    } else if rd == 10 && plain_major {
        Some((HarmonicRole::Subdominant, HarmonicSource::Mixolydian, "Major flat-seven harmony from Mixolydian/modal vocabulary"))
    } else if rd == 6 && matches!(c.quality, QualityClass::HalfDiminished) {
        Some((HarmonicRole::Predominant, HarmonicSource::Lydian, "Raised-four half-diminished harmony compatible with Lydian"))
    } else {
        None
    };
    match colour {
        Some(m) => if matches!(c.global_mode, TonalMode::Major) {
            Some(
                HarmonicInterpretation::new(
                    "builtin.ordinary.modal_colour",
                    75,
                    m.2,
                    global_classification(c, m.0, m.1, InterpretationFamily::ModalInterchange),
                ),
            )
        } else {
            None
        },
        None => None,
    }
}

fn flat_seven_subdominant_minor_of(c: &NodeFacts, p: Option<NodeFacts>, n: Option<NodeFacts>) -> (r: Option<
    HarmonicInterpretation,
>)
    ensures
        opt_view(r) == flat_seven_subdominant_minor(*c, p, n),
        opt_wf(r),
{
    proof {
        reveal(flat_seven_subdominant_minor);
    }
    if !(semitone_distance(c.effective_root, c.tonic) == 10 && matches!(c.quality, QualityClass::Major) && matches!(
        c.seventh,
        Some(SeventhQuality::Minor)
    )) {
        return None;
    }
    let mut x = HarmonicInterpretation::new(
        "builtin.ordinary.flat_seven_subdominant_minor",
        95,
        "Flat-seven dominant seventh can derive from subdominant-minor voice leading",
        global_classification(
            c,
            HarmonicRole::Subdominant,
            HarmonicSource::SubdominantMinor,
            InterpretationFamily::SubdominantMinor,
        ),
    );
    if next_is_tonic(n, c) {
        x.add_evidence(
            "builtin.ordinary.flat_seven_subdominant_minor.to_tonic",
            45,
            "Subdominant-minor flat-seven harmony returns directly to tonic",
        );
    } else if next_is_tonic(p, c) {
        x.add_evidence(
            "builtin.ordinary.flat_seven_subdominant_minor.from_tonic",
            15,
            "Subdominant-minor flat-seven harmony departs directly from tonic",
        );
    }
    Some(x)
}

fn neapolitan_of(c: &NodeFacts, n: Option<NodeFacts>) -> (r: Option<HarmonicInterpretation>)
    ensures
        opt_view(r) == neapolitan(*c, n),
        opt_wf(r),
{
    proof {
        reveal(neapolitan);
    }
    let flat_two = semitone_distance(c.effective_root, c.tonic) == 1 && matches!(c.quality, QualityClass::Major)
        && !matches!(c.seventh, Some(SeventhQuality::Minor));
    let to_dominant = match n {
        Some(e) => semitone_distance(e.effective_root, c.tonic) == 7 && e.is_dominant,
        None => false,
    };
    let to_tonic = next_is_tonic(n, c);
    if !(flat_two && (to_dominant || to_tonic)) {
        return None;
    }
    let cl = global_classification(c, HarmonicRole::Predominant, HarmonicSource::Phrygian, InterpretationFamily::Neapolitan);
    if to_dominant {
        Some(
            HarmonicInterpretation::new(
                "builtin.ordinary.neapolitan",
                215,
                "Flat-two major harmony prepares the global dominant as a Neapolitan",
                cl,
            ),
        )
    } else {
        Some(
            HarmonicInterpretation::new(
                "builtin.ordinary.neapolitan",
                125,
                "Flat-two major harmony resolves directly to tonic in a Neapolitan/Phrygian gesture",
                cl,
            ),
        )
    }
}

fn chromatic_mediant_of(c: &NodeFacts, p: Option<NodeFacts>, n: Option<NodeFacts>) -> (r: Option<HarmonicInterpretation>)
    ensures
        opt_view(r) == chromatic_mediant(*c, p, n),
        opt_wf(r),
{
    proof {
        reveal(chromatic_mediant);
    }
    let rd = semitone_distance(c.effective_root, c.tonic);
    let major_colour = matches!(c.quality, QualityClass::Major) && !matches!(c.seventh, Some(SeventhQuality::Minor));
    if !(major_colour && (rd == 3 || rd == 4 || rd == 8 || rd == 9)) {
        return None;
    }
    let touches = next_is_tonic(p, c) || next_is_tonic(n, c);
    let cl = global_classification(
        c,
        HarmonicRole::NonFunctional,
        HarmonicSource::Chromatic,
        InterpretationFamily::ChromaticMediant,
    );
    if touches {
        Some(
            HarmonicInterpretation::new(
                "builtin.ordinary.chromatic_mediant",
                135,
                "Major harmony a third from the tonic forms a direct chromatic-mediant relation",
                cl,
            ),
        )
    } else {
        Some(
            HarmonicInterpretation::new(
                "builtin.ordinary.chromatic_mediant",
                55,
                "Major harmony is a chromatic mediant of the global tonic",
                cl,
            ),
        )
    }
}

fn half_diminished_neighbor_of(c: &NodeFacts, n: Option<NodeFacts>) -> (r: Option<HarmonicInterpretation>)
    ensures
        opt_view(r) == half_diminished_neighbor(*c, n),
        opt_wf(r),
{
    proof {
        reveal(half_diminished_neighbor);
    }
    let e = match n {
        Some(e) => e,
        None => return None,
    };
    if !(matches!(c.quality, QualityClass::HalfDiminished) && semitone_distance(e.effective_root, c.effective_root) == 11
        && e.effective_root.pitch_class().value() == c.tonic.pitch_class().value() && matches!(
        e.quality,
        QualityClass::Major
    ) && matches!(e.seventh, Some(SeventhQuality::Major)) && is_stable_tonic(&e)) {
        return None;
    }
    let mut cl = global_classification(
        c,
        HarmonicRole::NonFunctional,
        HarmonicSource::Chromatic,
        InterpretationFamily::CommonToneNeighbor,
    );
    cl.add_family(InterpretationFamily::ChromaticApproach);
    assert(cl@.families =~= seq![InterpretationFamily::CommonToneNeighbor, InterpretationFamily::ChromaticApproach]);
    Some(
        HarmonicInterpretation::new(
            "builtin.ordinary.half_diminished.common_tone_neighbor",
            190,
            "Half-diminished seventh retains three common tones while its root descends by semitone into tonic major seventh",
            cl,
        ),
    )
}

fn is_diatonic_major(c: &NodeFacts) -> (r: bool)
    ensures
        r == diatonic_major(*c),
{
    let rd = semitone_distance(c.effective_root, c.tonic);
    ((rd == 0 || rd == 5 || rd == 7) && matches!(c.quality, QualityClass::Major)) || ((rd == 2 || rd == 4 || rd == 9)
        && matches!(c.quality, QualityClass::Minor)) || (rd == 11 && matches!(
        c.quality,
        QualityClass::Diminished | QualityClass::HalfDiminished
    ))
}

fn chromatic_approach_of(c: &NodeFacts, n: Option<NodeFacts>) -> (r: Option<HarmonicInterpretation>)
    ensures
        opt_view(r) == chromatic_approach(*c, n),
        opt_wf(r),
{
    proof {
        reveal(chromatic_approach);
    }
    let e = match n {
        Some(e) => e,
        None => return None,
    };
    let rm = semitone_distance(e.effective_root, c.effective_root);
    let same = c.quality == e.quality && c.seventh == e.seventh;
    if !((rm == 1 || rm == 11) && !is_diatonic_major(c) && (same || is_tonic_chord(&e, c))) {
        return None;
    }
    let cl = global_classification(
        c,
        HarmonicRole::NonFunctional,
        HarmonicSource::Chromatic,
        InterpretationFamily::ChromaticApproach,
    );
    if same {
        Some(
            HarmonicInterpretation::new(
                "builtin.ordinary.chromatic_approach",
                125,
                "Non-diatonic chord approaches the next equal-quality chord by semitone",
                cl,
            ),
        )
    } else {
        Some(
            HarmonicInterpretation::new(
                "builtin.ordinary.chromatic_approach",
                85,
                "Non-diatonic chord approaches the global tonic by semitone",
                cl,
            ),
        )
    }
}

/// The explanations of chord `c` in rule order (see [`ordinary_candidates`]).
pub fn ordinary_candidates_of(p: Option<NodeFacts>, c: &NodeFacts, n: Option<NodeFacts>) -> (r: Vec<Option<HarmonicInterpretation>>)
    ensures
        r@.map_values(|o: Option<HarmonicInterpretation>| opt_view(o)) == ordinary_candidates(p, *c, n),
        forall|k: int| 0 <= k < r@.len() ==> opt_wf(#[trigger] r@[k]),
{
    let (x0, x1, x2) = match n {
        Some(e) => (rootless_to_target_of(c, &e), rootless_root_restored_of(c, &e), diminished_tonic_substitute_of(c, &e)),
        None => (None, None, None),
    };
    let (x3, x4) = match (p, n) {
        (Some(x), Some(y)) => (diminished_passing_of(c, &x, &y), diminished_common_tone_of(c, &x, &y)),
        _ => (None, None),
    };
    let r = vec![
        x0,
        x1,
        x2,
        x3,
        x4,
        modal_interchange_of(c, p, n),
        modal_colour_of(c),
        flat_seven_subdominant_minor_of(c, p, n),
        neapolitan_of(c, n),
        chromatic_mediant_of(c, p, n),
        half_diminished_neighbor_of(c, n),
        chromatic_approach_of(c, n),
    ];
    assert(r@.map_values(|o: Option<HarmonicInterpretation>| opt_view(o)) =~= ordinary_candidates(p, *c, n));
    r
}

/// Record the explanations of chord `c`, in order, each once.
pub fn add_ordinary(r: &mut NodeReadings, p: Option<NodeFacts>, c: NodeFacts, n: Option<NodeFacts>)
    requires
        readings_wf(old(r)@),
    ensures
        final(r)@ == push_all(old(r)@, ordinary_candidates(p, c, n)),
        readings_wf(final(r)@),
{
    let candidates = ordinary_candidates_of(p, &c, n);
    let ghost xs = ordinary_candidates(p, c, n);
    let ghost s0 = r@;
    let mut i: usize = 0;
    while i < candidates.len()
        invariant
            i <= candidates.len(),
            candidates@.map_values(|o: Option<HarmonicInterpretation>| opt_view(o)) == xs,
            forall|k: int| 0 <= k < candidates@.len() ==> opt_wf(#[trigger] candidates@[k]),
            r@ == push_all(s0, xs.take(i as int)),
            readings_wf(r@),
        decreases candidates.len() - i,
    {
        proof {
            assert(xs.take(i + 1).drop_last() =~= xs.take(i as int));
            assert(xs.take(i + 1).last() == xs[i as int]);
            assert(xs[i as int] == opt_view(candidates@[i as int]));
        }
        match &candidates[i] {
            Some(x) => r.push(x.duplicate()),
            None => {},
        }
        i = i + 1;
    }
    assert(xs.take(candidates.len() as int) =~= xs);
}

} // verus!
