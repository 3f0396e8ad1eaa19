//! Common, multi-axis harmonic classification.
//!
//! A label such as "backdoor" does not describe the same kind of fact as
//! "predominant" or "whole tone": the first is a dominant-to-target
//! relationship, the second a broad harmonic role, the third a possible
//! pitch source. Independent axes let musically compatible statements
//! coexist instead of competing inside one flat enum.

use vstd::prelude::*;
use crate::domain::degree::Degree;
use crate::domain::note::SpelledNote;
use crate::analysis::evidence::{EvidenceView, ScoreEvidence};

verus! {

#[derive(Clone, Copy, Debug, Eq, Hash, PartialEq, Structural)]
/// Broad role heard from one tonal perspective.
pub enum HarmonicRole {
    Tonic,
    Predominant,
    Dominant,
    Subdominant,
    NonFunctional,
}

#[derive(Clone, Copy, Debug, Eq, Hash, PartialEq, Structural)]
/// How a dominant-related sonority approaches its local target.
pub enum DominantRelation {
    /// Root a perfect fifth above the target (ordinary V-to-I motion).
    FifthRelated,
    /// Root a tritone away from the dominant; resolves down by semitone.
    TritoneSubstitute,
    /// Flat-seven dominant approaching the target from a whole tone below.
    Backdoor,
    /// Diminished or half-diminished chord a semitone below its target.
    LeadingTone,
}

#[derive(Clone, Copy, Debug, Eq, Hash, PartialEq, Structural)]
/// Pitch vocabulary or modal borrowing that can supply a sonority.
pub enum HarmonicSource {
    ParallelMinor,
    Phrygian,
    Dorian,
    Mixolydian,
    Lydian,
    /// A relation justified by root or voice-leading motion rather than by
    /// one seven-note parent collection.
    Chromatic,
    SubdominantMinor,
    LydianDominant,
    LocrianNaturalTwo,
    WholeTone,
}

#[derive(Clone, Copy, Debug, Eq, Hash, PartialEq, Structural)]
/// User-facing families derived from the independent analytical axes.
/// Families overlap: one candidate may be both `Backdoor` and
/// `SubdominantMinor`.
pub enum InterpretationFamily {
    AppliedCadence,
    SecondaryDominantDeceptive,
    AppliedLeadingTone,
    RootlessDominantNinth,
    AugmentedSixth,
    Backdoor,
    TritoneSubstitute,
    SubdominantMinor,
    ModalInterchange,
    Neapolitan,
    ChromaticMediant,
    ChromaticApproach,
    CommonToneNeighbor,
    ChromaticApproachBass,
    ConstantStructure,
    PassingDiminished,
    CommonToneDiminished,
    AuxiliaryDiminished,
    TonicSubstitute,
    TritoneSubstituteRelatedTwo,
    AlternateKeySequence,
    SuspendedDominant,
    /// Chord symbols suggest a functional reading, but the preceding
    /// sonority also supplies strong linear evidence.
    VoiceLeadingRequired,
    WholeTone,
    SplitVoiceLeading,
    Incidental,
}

#[derive(Clone, Copy, Debug, Eq, Hash, PartialEq, Structural)]
pub enum TonalScope {
    /// The local target is the caller-supplied key center.
    Global,
    /// A non-tonic degree is temporarily treated as a local tonic.
    Tonicization,
    /// A cadence and its span establish a key other than the home key.
    Modulation,
}

#[derive(Clone, Copy, Debug, Eq, Hash, PartialEq, Structural)]
pub enum TonalMode {
    Major,
    Minor,
    Unknown,
}

#[derive(Clone, Copy, Debug, Eq, Hash, PartialEq, Structural)]
/// The key frame from which one interpretation makes sense.
pub struct TonalPerspective {
    pub global_tonic: SpelledNote,
    pub local_tonic: SpelledNote,
    /// Local tonic expressed in the global key, e.g. `II` for the D in
    /// C major's `Em7b5-A7-Dm7`.
    pub local_tonic_degree: Degree,
    pub scope: TonalScope,
    pub mode: TonalMode,
}

/// Abstract form of a classification: its lists as sequences.
pub struct ClassificationView {
    pub role: Option<HarmonicRole>,
    pub dominant_relation: Option<DominantRelation>,
    pub local_degree: Option<Degree>,
    pub sources: Seq<HarmonicSource>,
    pub families: Seq<InterpretationFamily>,
    pub perspective: Option<TonalPerspective>,
}

#[derive(Clone, Debug, Eq, Hash, PartialEq)]
/// Orthogonal facts attached to a candidate. Empty axes mean "not
/// established", not "false".
pub struct HarmonicClassification {
    pub role: Option<HarmonicRole>,
    pub dominant_relation: Option<DominantRelation>,
    /// Chord root as heard inside `perspective.local_tonic`.
    pub local_degree: Option<Degree>,
    pub sources: Vec<HarmonicSource>,
    pub families: Vec<InterpretationFamily>,
    pub perspective: Option<TonalPerspective>,
}

impl View for HarmonicClassification {
    type V = ClassificationView;

    open spec fn view(&self) -> ClassificationView {
        ClassificationView {
            role: self.role,
            dominant_relation: self.dominant_relation,
            local_degree: self.local_degree,
            sources: self.sources@,
            families: self.families@,
            perspective: self.perspective,
        }
    }
}

/// The classification with nothing established.
pub open spec fn empty_classification() -> ClassificationView {
    ClassificationView {
        role: None,
        dominant_relation: None,
        local_degree: None,
        sources: Seq::empty(),
        families: Seq::empty(),
        perspective: None,
    }
}

/// `c` with `role` set.
pub open spec fn role_classification(role: HarmonicRole) -> ClassificationView {
    ClassificationView { role: Some(role), ..empty_classification() }
}

/// `s` with `x` appended unless already present.
pub open spec fn with_item<T>(s: Seq<T>, x: T) -> Seq<T> {
    if s.contains(x) {
        s
    } else {
        s.push(x)
    }
}

pub open spec fn with_source(c: ClassificationView, source: HarmonicSource) -> ClassificationView {
    ClassificationView { sources: with_item(c.sources, source), ..c }
}

pub open spec fn with_family(c: ClassificationView, family: InterpretationFamily) -> ClassificationView {
    ClassificationView { families: with_item(c.families, family), ..c }
}

impl Default for HarmonicClassification {
    fn default() -> (r: Self)
        ensures
            r@ == empty_classification(),
    {
        HarmonicClassification {
            role: None,
            dominant_relation: None,
            local_degree: None,
            sources: Vec::new(),
            families: Vec::new(),
            perspective: None,
        }
    }
}

impl HarmonicClassification {
    pub fn with_role(role: HarmonicRole) -> (r: Self)
        ensures
            r@ == role_classification(role),
    {
        HarmonicClassification {
            role: Some(role),
            dominant_relation: None,
            local_degree: None,
            sources: Vec::new(),
            families: Vec::new(),
            perspective: None,
        }
    }

    /// A copy with the same facts.
    pub fn duplicate(&self) -> (r: Self)
        ensures
            r@ == self@,
    {
        let sources = self.sources.clone();
        let families = self.families.clone();
        assert(sources@ =~= self.sources@);
        assert(families@ =~= self.families@);
        HarmonicClassification {
            role: self.role,
            dominant_relation: self.dominant_relation,
            local_degree: self.local_degree,
            sources,
            families,
            perspective: self.perspective,
        }
    }

    /// Record a pitch source once.
    pub fn add_source(&mut self, source: HarmonicSource)
        ensures
            final(self)@ == with_source(old(self)@, source),
    {
        let mut i: usize = 0;
        while i < self.sources.len()
            invariant
                i <= self.sources.len(),
                forall|k: int| 0 <= k < i ==> self.sources@[k] != source,
            decreases self.sources.len() - i,
        {
            if self.sources[i] == source {
                assert(self.sources@.contains(source));
                return;
            }
            i = i + 1;
        }
        self.sources.push(source);
    }

    /// Record a family once.
    pub fn add_family(&mut self, family: InterpretationFamily)
        ensures
            final(self)@ == with_family(old(self)@, family),
    {
        let mut i: usize = 0;
        while i < self.families.len()
            invariant
                i <= self.families.len(),
                forall|k: int| 0 <= k < i ==> self.families@[k] != family,
            decreases self.families.len() - i,
        {
            if self.families[i] == family {
                assert(self.families@.contains(family));
                return;
            }
            i = i + 1;
        }
        self.families.push(family);
    }
}

/// Classifications with the same facts on every axis, lists in order.
pub fn same_classification(a: &HarmonicClassification, b: &HarmonicClassification) -> (r: bool)
    ensures
        r == (a@ == b@),
{
    if a.role != b.role || a.dominant_relation != b.dominant_relation || a.local_degree != b.local_degree
        || a.perspective != b.perspective {
        return false;
    }
    if a.sources.len() != b.sources.len() || a.families.len() != b.families.len() {
        return false;
    }
    let mut i: usize = 0;
    while i < a.sources.len()
        invariant
            i <= a.sources.len(),
            a.sources.len() == b.sources.len(),
            forall|k: int| 0 <= k < i ==> a.sources@[k] == b.sources@[k],
        decreases a.sources.len() - i,
    {
        if a.sources[i] != b.sources[i] {
            return false;
        }
        i = i + 1;
    }
    let mut j: usize = 0;
    while j < a.families.len()
        invariant
            j <= a.families.len(),
            a.families.len() == b.families.len(),
            forall|k: int| 0 <= k < j ==> a.families@[k] == b.families@[k],
        decreases a.families.len() - j,
    {
        if a.families[j] != b.families[j] {
            return false;
        }
        j = j + 1;
    }
    assert(a.sources@ =~= b.sources@);
    assert(a.families@ =~= b.families@);
    true
}

/// Abstract form of a scored reading.
pub struct ReadingView {
    pub intrinsic_score: int,
    pub rule_id: Seq<char>,
    pub classification: ClassificationView,
    pub evidence: Seq<EvidenceView>,
}

#[derive(Clone, Debug)]
/// One scored meaning of an ordinary chord, with the evidence behind its
/// score (hundredths of a point).
pub struct HarmonicInterpretation {
    pub intrinsic_score: i128,
    pub rule_id: String,
    pub classification: HarmonicClassification,
    pub evidence: Vec<ScoreEvidence>,
}

impl View for HarmonicInterpretation {
    type V = ReadingView;

    open spec fn view(&self) -> ReadingView {
        ReadingView {
            intrinsic_score: self.intrinsic_score as int,
            rule_id: self.rule_id@,
            classification: self.classification@,
            evidence: self.evidence@.map_values(|e: ScoreEvidence| e@),
        }
    }
}

/// A reading whose score is its one rule's contribution.
pub open spec fn new_reading(rule_id: Seq<char>, score: int, explanation: Seq<char>, c: ClassificationView) -> ReadingView {
    ReadingView {
        intrinsic_score: score,
        rule_id,
        classification: c,
        evidence: seq![EvidenceView { rule_id, contribution: score, explanation }],
    }
}

/// `x` with one more contribution added to its score.
pub open spec fn with_evidence(x: ReadingView, rule_id: Seq<char>, contribution: int, explanation: Seq<char>) -> ReadingView {
    ReadingView {
        intrinsic_score: x.intrinsic_score + contribution,
        evidence: x.evidence.push(EvidenceView { rule_id, contribution, explanation }),
        ..x
    }
}

/// Scores stay within what their contributions (each at most three
/// points) can add up to.
pub open spec fn reading_wf(x: ReadingView) -> bool {
    x.evidence.len() >= 1 && 0 <= x.intrinsic_score <= 300 * x.evidence.len()
}

impl HarmonicInterpretation {
    pub fn new(rule_id: &str, intrinsic_score: i64, explanation: &str, classification: HarmonicClassification) -> (r: Self)
        requires
            0 <= intrinsic_score <= 300,
        ensures
            r@ == new_reading(rule_id@, intrinsic_score as int, explanation@, classification@),
            reading_wf(r@),
    {
        let evidence = vec![ScoreEvidence::new(rule_id, intrinsic_score, explanation)];
        let r = HarmonicInterpretation {
            intrinsic_score: intrinsic_score as i128,
            rule_id: String::from_str(rule_id),
            classification,
            evidence,
        };
        assert(r@.evidence =~= seq![EvidenceView { rule_id: rule_id@, contribution: intrinsic_score as int, explanation: explanation@ }]);
        r
    }

    pub fn add_evidence(&mut self, rule_id: &str, contribution: i64, explanation: &str)
        requires
            reading_wf(old(self)@),
            0 <= contribution <= 300,
        ensures
            final(self)@ == with_evidence(old(self)@, rule_id@, contribution as int, explanation@),
            reading_wf(final(self)@),
    {
        let n = self.evidence.len();
        assert(self.intrinsic_score <= 300 * n) by (nonlinear_arith)
            requires
                self.intrinsic_score <= 300 * self@.evidence.len(),
                self@.evidence.len() == n,
        ;
        assert(300 * (n as int) <= 300 * (usize::MAX as int)) by (nonlinear_arith)
            requires
                n <= usize::MAX,
        ;
        self.intrinsic_score = self.intrinsic_score + contribution as i128;
        let ghost before = self.evidence@;
        self.evidence.push(ScoreEvidence::new(rule_id, contribution, explanation));
        assert(self@.evidence =~= old(self)@.evidence.push(EvidenceView { rule_id: rule_id@, contribution: contribution as int, explanation: explanation@ }));
    }

    /// A copy with the same score, rule, classification and evidence.
    pub fn duplicate(&self) -> (r: Self)
        ensures
            r@ == self@,
    {
        HarmonicInterpretation {
            intrinsic_score: self.intrinsic_score,
            rule_id: self.rule_id.clone(),
            classification: self.classification.duplicate(),
            evidence: crate::analysis::evidence::duplicate_evidence(&self.evidence),
        }
    }
}

} // verus!
