//! Reader-facing labels projected from the selected harmonic path.
//!
//! The analysis types keep competing meanings apart; this module gives a
//! compact 1-best presentation of each chord, ready for text markers.

use vstd::prelude::*;
use crate::analysis::blackadder::{dist, BlackadderFunction, BlackadderInterpretation, BlackadderStructure, InterpretationView};
use crate::analysis::candidates::{built_lattice, rc_at};
use crate::analysis::context::progression_fits;
use crate::analysis::harmony::{
    ClassificationView, DominantRelation, HarmonicClassification, HarmonicRole, HarmonicSource, InterpretationFamily,
    TonalMode, TonalPerspective, TonalScope,
};
use crate::analysis::interpreter::SlashClassification;
use crate::analysis::lattice::{decoded, path_views, AnalysisLattice, AnalysisPath, PathSelection, PathView, SelectionView};
use crate::domain::chord::{ParsedChord, ProgressionItem};
use crate::domain::degree::{degree_text, Degree};
use crate::domain::quality::QualityClass;
use crate::romanizer::{
    annotated, chord_positions, chord_result, lemma_chord_positions, results_agree, AnnotatedEvent, RomanizedChord, Romanizer,
};
use crate::text::{is_prefix, lower_seq};

verus! {

/// Abstract form of a display.
pub struct DisplayView {
    pub event_index: int,
    pub symbol: Seq<char>,
    pub theoretical_symbol: Seq<char>,
    pub global_label: Seq<char>,
    pub local_label: Option<Seq<char>>,
    pub function_label: Option<Seq<char>>,
    pub role_label: Option<Seq<char>>,
    pub analysis_label: Seq<char>,
    pub combined_label: Seq<char>,
}

#[derive(Clone, Debug, Eq, PartialEq)]
/// Compact labels for one chord on the selected 1-best path.
pub struct AnalysisDisplay {
    /// Original event index, kept across N.C. and boundaries.
    pub event_index: usize,
    /// Display spelling of the chord symbol.
    pub symbol: String,
    /// Theory-correct spelling before accidental simplification.
    pub theoretical_symbol: String,
    /// Degree in the global key.
    pub global_label: String,
    /// Degree inside a temporary key, with its global target.
    pub local_label: Option<String>,
    /// Specific relation such as `subV/IV`, `V/ii`, `SDm`, `D` or `T`.
    pub function_label: Option<String>,
    /// Coarse role: `T`, `PD`, `D`, `S` or `NF`.
    pub role_label: Option<String>,
    /// Bracket content without the chord symbol.
    pub analysis_label: String,
    /// Ready-to-render form such as `Eaug/Bb [bV7(9,#11)|subV/IV]`.
    pub combined_label: String,
}

pub open spec fn text_view(o: Option<String>) -> Option<Seq<char>> {
    match o {
        Some(s) => Some(s@),
        None => None,
    }
}

impl View for AnalysisDisplay {
    type V = DisplayView;

    open spec fn view(&self) -> DisplayView {
        DisplayView {
            event_index: self.event_index as int,
            symbol: self.symbol@,
            theoretical_symbol: self.theoretical_symbol@,
            global_label: self.global_label@,
            local_label: text_view(self.local_label),
            function_label: text_view(self.function_label),
            role_label: text_view(self.role_label),
            analysis_label: self.analysis_label@,
            combined_label: self.combined_label@,
        }
    }
}

// ---------------------------------------------------------------------
// Text rewriting.

/// Leading colons removed.
pub open spec fn trim_colons(s: Seq<char>) -> Seq<char>
    decreases s.len(),
{
    if s.len() > 0 && s[0] == ':' {
        trim_colons(s.skip(1))
    } else {
        s
    }
}

/// Every occurrence of `p` replaced by `r`, scanning left to right.
pub open spec fn replace_all(s: Seq<char>, p: Seq<char>, r: Seq<char>) -> Seq<char>
    decreases s.len(),
{
    if s.len() == 0 {
        s
    } else if p.len() > 0 && is_prefix(p, s) {
        r + replace_all(s.skip(p.len() as int), p, r)
    } else {
        seq![s[0]] + replace_all(s.skip(1), p, r)
    }
}

pub const MAJ: &'static str = "maj";
pub const MA: &'static str = "ma";
pub const BIG_M: &'static str = "M";
pub const MINOR: &'static str = "minor";
pub const MIN: &'static str = "min";
pub const SMALL_M: &'static str = "m";

/// `q` without the first of the prefixes `minor`, `min`, `m` it has.
pub open spec fn strip_minor(q: Seq<char>) -> Seq<char> {
    if is_prefix(MINOR@, q) {
        q.skip(MINOR@.len() as int)
    } else if is_prefix(MIN@, q) {
        q.skip(MIN@.len() as int)
    } else if is_prefix(SMALL_M@, q) {
        q.skip(SMALL_M@.len() as int)
    } else {
        q
    }
}

/// Roman degree plus the written quality, compacted: `maj`/`ma` become
/// `M`, and a minor chord shows a lower-case degree without its `m`.
pub open spec fn compact_roman(d: Degree, chord: ParsedChord) -> Seq<char> {
    let q = replace_all(replace_all(trim_colons(chord.quality@), MAJ@, BIG_M@), MA@, BIG_M@);
    let class = chord.quality_parsed.class;
    if class == QualityClass::Minor {
        lower_seq(degree_text(d)) + strip_minor(q)
    } else if class == QualityClass::Diminished || class == QualityClass::HalfDiminished {
        lower_seq(degree_text(d)) + q
    } else {
        degree_text(d) + q
    }
}

pub const SIX: &'static str = "6";
pub const SIX_FOUR: &'static str = "64";

/// Figured-bass suffix of a triad inversion.
pub open spec fn inversion_figure(chord: ParsedChord) -> Option<Seq<char>> {
    match chord.bass {
        Some(b) => {
            let d = dist(b, chord.root);
            if d == 3 || d == 4 {
                Some(SIX@)
            } else if 6 <= d <= 8 {
                Some(SIX_FOUR@)
            } else {
                None
            }
        },
        None => None,
    }
}

/// The chord's degree in the global key.
pub open spec fn global_label(rc: RomanizedChord) -> Seq<char> {
    match rc.alter {
        Some(a) => a@,
        None => if rc.slash_classification == SlashClassification::Inversion && rc.chord.quality_parsed.seventh is None
            && inversion_figure(rc.chord) is Some {
            compact_roman(rc.degree_root, rc.chord) + inversion_figure(rc.chord).unwrap()
        } else {
            compact_roman(rc.degree_root, rc.chord)
        },
    }
}

/// The local tonic's degree, lower case in minor.
pub open spec fn target_degree(p: TonalPerspective) -> Seq<char> {
    if p.mode == TonalMode::Minor {
        lower_seq(degree_text(p.local_tonic_degree))
    } else {
        degree_text(p.local_tonic_degree)
    }
}

pub const ROLE_T: &'static str = "T";
pub const ROLE_PD: &'static str = "PD";
pub const ROLE_D: &'static str = "D";
pub const ROLE_S: &'static str = "S";
pub const ROLE_NF: &'static str = "NF";

pub open spec fn role_text(r: HarmonicRole) -> Seq<char> {
    match r {
        HarmonicRole::Tonic => ROLE_T@,
        HarmonicRole::Predominant => ROLE_PD@,
        HarmonicRole::Dominant => ROLE_D@,
        HarmonicRole::Subdominant => ROLE_S@,
        HarmonicRole::NonFunctional => ROLE_NF@,
    }
}

pub const LOCAL_MAJOR: &'static str = "I";
pub const LOCAL_MINOR: &'static str = "i";
pub const SLASH: &'static str = "/";

pub open spec fn local_tonic_text(p: TonalPerspective) -> Seq<char> {
    if p.mode == TonalMode::Minor {
        LOCAL_MINOR@
    } else {
        LOCAL_MAJOR@
    }
}

/// The chord's degree inside a temporary key, with the key's target.
pub open spec fn local_label(chord: ParsedChord, c: ClassificationView) -> Option<Seq<char>> {
    match c.perspective {
        None => None,
        Some(p) => if p.scope == TonalScope::Global {
            None
        } else if c.role == Some(HarmonicRole::Tonic) {
            Some(local_tonic_text(p) + SLASH@ + target_degree(p))
        } else {
            match c.local_degree {
                Some(d) => Some(compact_roman(d, chord) + SLASH@ + target_degree(p)),
                None => None,
            }
        },
    }
}

pub const SUB_V: &'static str = "subV/";
pub const AUG_V: &'static str = "V+/";
pub const V_OF: &'static str = "V/";
pub const BACKDOOR_V: &'static str = "backdoorV/";
pub const VII_OF: &'static str = "vii/";
pub const SDM: &'static str = "SDm";
pub const CT: &'static str = "CT";
pub const PASSDIM: &'static str = "passdim";

pub open spec fn with_target(prefix: Seq<char>, p: Option<TonalPerspective>) -> Option<Seq<char>> {
    match p {
        Some(p) => Some(prefix + target_degree(p)),
        None => None,
    }
}

/// The function of a selected Blackadder reading.
pub open spec fn blackadder_function_label(b: InterpretationView) -> Option<Seq<char>> {
    let p = b.classification.perspective;
    match b.function {
        Some(BlackadderFunction::TritoneSubstitute) => with_target(SUB_V@, p),
        Some(BlackadderFunction::SecondaryDominant) => if b.structure == BlackadderStructure::AugmentedTriadOverBass {
            with_target(AUG_V@, p)
        } else {
            with_target(V_OF@, p)
        },
        Some(BlackadderFunction::Dominant) => with_target(V_OF@, p),
        Some(BlackadderFunction::BackdoorDominant) => with_target(BACKDOOR_V@, p),
        Some(BlackadderFunction::SubdominantMinor) => Some(SDM@),
        Some(BlackadderFunction::Predominant) => Some(ROLE_PD@),
        None => None,
    }
}

/// The function of a classification.
pub open spec fn class_function_label(c: ClassificationView) -> Option<Seq<char>> {
    let local = c.perspective matches Some(p) && p.scope != TonalScope::Global;
    if c.families.contains(InterpretationFamily::CommonToneNeighbor) {
        Some(CT@)
    } else if c.families.contains(InterpretationFamily::PassingDiminished) {
        Some(PASSDIM@)
    } else if c.sources.contains(HarmonicSource::SubdominantMinor) {
        Some(SDM@)
    } else if c.role == Some(HarmonicRole::Dominant) && local {
        match c.dominant_relation {
            Some(DominantRelation::TritoneSubstitute) => with_target(SUB_V@, c.perspective),
            Some(DominantRelation::FifthRelated) => with_target(V_OF@, c.perspective),
            Some(DominantRelation::Backdoor) => with_target(BACKDOOR_V@, c.perspective),
            Some(DominantRelation::LeadingTone) => with_target(VII_OF@, c.perspective),
            None => Some(ROLE_D@),
        }
    } else if c.role == Some(HarmonicRole::Tonic) && local {
        let p = c.perspective.unwrap();
        Some(local_tonic_text(p) + SLASH@ + target_degree(p))
    } else {
        match c.role {
            Some(r) => Some(role_text(r)),
            None => None,
        }
    }
}

/// The function label: the selected Blackadder reading's when there is
/// one, otherwise the classification's.
pub open spec fn function_label(sel: Option<SelectionView>, c: Option<ClassificationView>) -> Option<Seq<char>> {
    if sel matches Some(s) && s.blackadder is Some {
        blackadder_function_label(sel.unwrap().blackadder.unwrap())
    } else {
        match c {
            Some(c) => class_function_label(c),
            None => None,
        }
    }
}

/// The classification shown: the selected Blackadder reading's, else the
/// selection's first, else the chord's first.
pub open spec fn selected_classification(rc: RomanizedChord, sel: Option<SelectionView>) -> Option<ClassificationView> {
    let own = if rc.harmonic_classifications@.len() > 0 {
        Some(rc.harmonic_classifications@[0]@)
    } else {
        None
    };
    match sel {
        Some(s) => match s.blackadder {
            Some(b) => Some(b.classification),
            None => if s.classifications.len() > 0 {
                Some(s.classifications[0])
            } else {
                own
            },
        },
        None => own,
    }
}

pub const BAR: &'static str = "|";
pub const OPEN: &'static str = " [";
pub const CLOSE: &'static str = "]";

/// The display of chord event `e` given its selection on the best path.
pub open spec fn display_view(e: int, rc: RomanizedChord, sel: Option<SelectionView>) -> DisplayView {
    let gl = global_label(rc);
    let c = selected_classification(rc, sel);
    let local = match c {
        Some(x) => local_label(rc.chord, x),
        None => None,
    };
    let role = match c {
        Some(x) => match x.role {
            Some(r) => Some(role_text(r)),
            None => None,
        },
        None => None,
    };
    let func = function_label(sel, c);
    let applied_predominant = c matches Some(x) && x.role == Some(HarmonicRole::Predominant) && (x.perspective matches Some(
        p,
    ) && p.scope != TonalScope::Global);
    let primary = if applied_predominant && local is Some {
        local.unwrap()
    } else {
        gl
    };
    let analysis = match func {
        Some(f) => if f != primary {
            primary + BAR@ + f
        } else {
            primary
        },
        None => primary,
    };
    DisplayView {
        event_index: e,
        symbol: rc.normalized_symbol@,
        theoretical_symbol: rc.theoretical_symbol@,
        global_label: gl,
        local_label: local,
        function_label: func,
        role_label: role,
        analysis_label: analysis,
        combined_label: rc.normalized_symbol@ + OPEN@ + analysis + CLOSE@,
    }
}

/// Index of the first selection of event `e` at or after `i`, or `-1`.
pub open spec fn selection_from(sels: Seq<SelectionView>, e: int, i: int) -> int
    decreases sels.len() - i,
{
    if i < 0 || i >= sels.len() {
        -1
    } else if sels[i].event_index == e {
        i
    } else {
        selection_from(sels, e, i + 1)
    }
}

/// The path's selection at event `e`, if it has one.
pub open spec fn selection_for(path: Option<PathView>, e: int) -> Option<SelectionView> {
    match path {
        Some(p) => {
            let j = selection_from(p.selections, e, 0);
            if j < 0 {
                None
            } else {
                Some(p.selections[j])
            }
        },
        None => None,
    }
}

/// One display per chord event, labelled from `path`.
pub open spec fn displays(items: Seq<ProgressionItem>, events: Seq<AnnotatedEvent>, path: Option<PathView>) -> Seq<DisplayView> {
    chord_positions(items).map_values(|e: int| display_view(e, rc_at(events, e), selection_for(path, e)))
}


// ---------------------------------------------------------------------
// Executable labels.

fn trim_colons_of(v: &Vec<char>) -> (r: Vec<char>)
    ensures
        r@ == trim_colons(v@),
{
    let mut i: usize = 0;
    assert(v@.skip(0) =~= v@);
    while i < v.len() && v[i] == ':'
        invariant
            i <= v.len(),
            trim_colons(v@) == trim_colons(v@.skip(i as int)),
        decreases v.len() - i,
    {
        assert(v@.skip(i as int).skip(1) =~= v@.skip(i + 1));
        i = i + 1;
    }
    let r = crate::text::slice_chars(v, i, v.len());
    assert(r@ =~= v@.skip(i as int));
    r
}

fn replace_text(v: &Vec<char>, p: &str, rep: &str) -> (r: Vec<char>)
    ensures
        r@ == replace_all(v@, p@, rep@),
{
    let plen = p.unicode_len();
    let rv = crate::text::to_chars(rep);
    let mut out: Vec<char> = Vec::new();
    let mut i: usize = 0;
    assert(v@.skip(0) =~= v@);
    while i < v.len()
        invariant
            plen == p@.len(),
            rv@ == rep@,
            i <= v.len(),
            out@ + replace_all(v@.skip(i as int), p@, rep@) == replace_all(v@, p@, rep@),
        decreases v.len() - i,
    {
        let ghost rest = v@.skip(i as int);
        assert(v@.subrange(i as int, v.len() as int) =~= rest);
        if plen > 0 && crate::text::matches_at(v, i, p) {
            let ghost before = out@;
            let mut k: usize = 0;
            while k < rv.len()
                invariant
                    k <= rv.len(),
                    out@ == before + rv@.take(k as int),
                decreases rv.len() - k,
            {
                out.push(rv[k]);
                assert(rv@.take(k + 1) =~= rv@.take(k as int).push(rv@[k as int]));
                k = k + 1;
            }
            assert(rv@.take(rv.len() as int) =~= rv@);
            assert(rest.skip(plen as int) =~= v@.skip(i + plen));
            assert(out@ + replace_all(v@.skip(i + plen), p@, rep@) =~= before + replace_all(rest, p@, rep@));
            i = i + plen;
        } else {
            let ghost before = out@;
            out.push(v[i]);
            assert(rest.skip(1) =~= v@.skip(i + 1));
            assert(out@ + replace_all(v@.skip(i + 1), p@, rep@) =~= before + replace_all(rest, p@, rep@));
            i = i + 1;
        }
    }
    assert(v@.skip(v.len() as int) =~= Seq::<char>::empty());
    assert(out@ + Seq::<char>::empty() =~= out@);
    out
}

fn strip_minor_of(q: &Vec<char>) -> (r: Vec<char>)
    ensures
        r@ == strip_minor(q@),
{
    assert(q@.subrange(0, q.len() as int) =~= q@);
    if crate::text::matches_at(q, 0, MINOR) {
        let r = crate::text::slice_chars(q, MINOR.unicode_len(), q.len());
        assert(r@ =~= q@.skip(MINOR@.len() as int));
        r
    } else if crate::text::matches_at(q, 0, MIN) {
        let r = crate::text::slice_chars(q, MIN.unicode_len(), q.len());
        assert(r@ =~= q@.skip(MIN@.len() as int));
        r
    } else if crate::text::matches_at(q, 0, SMALL_M) {
        let r = crate::text::slice_chars(q, SMALL_M.unicode_len(), q.len());
        assert(r@ =~= q@.skip(SMALL_M@.len() as int));
        r
    } else {
        crate::domain::quality::copy_values(q)
    }
}

fn lower_string(s: &String) -> (r: String)
    ensures
        r@ == lower_seq(s@),
{
    let v = crate::text::lower_chars(&crate::text::to_chars(s.as_str()));
    crate::text::string_of(&v, 0, v.len())
}

fn compact_roman_of(degree: Degree, chord: &ParsedChord) -> (r: String)
    ensures
        r@ == compact_roman(degree, *chord),
{
    let text = degree.to_string();
    let raw = crate::text::to_chars(chord.quality.as_str());
    let q = replace_text(&replace_text(&trim_colons_of(&raw), MAJ, BIG_M), MA, BIG_M);
    let class = chord.quality_parsed.class;
    if class == QualityClass::Minor {
        let mut r = lower_string(&text);
        let stripped = strip_minor_of(&q);
        crate::text::append_chars(&mut r, &stripped, 0, stripped.len());
        assert(stripped@.subrange(0, stripped.len() as int) =~= stripped@);
        r
    } else if class == QualityClass::Diminished || class == QualityClass::HalfDiminished {
        let mut r = lower_string(&text);
        crate::text::append_chars(&mut r, &q, 0, q.len());
        assert(q@.subrange(0, q.len() as int) =~= q@);
        r
    } else {
        let mut r = text;
        crate::text::append_chars(&mut r, &q, 0, q.len());
        assert(q@.subrange(0, q.len() as int) =~= q@);
        r
    }
}

fn inversion_figure_of(chord: &ParsedChord) -> (r: Option<&'static str>)
    ensures
        match r {
            Some(t) => inversion_figure(*chord) == Some(t@),
            None => inversion_figure(*chord) is None,
        },
{
    match chord.bass {
        Some(b) => {
            let d = crate::speller::semitone_distance(b, chord.root);
            assert(d == dist(b, chord.root));
            if d == 3 || d == 4 {
                Some(SIX)
            } else if 6 <= d && d <= 8 {
                Some(SIX_FOUR)
            } else {
                None
            }
        },
        None => None,
    }
}

fn global_label_of(rc: &RomanizedChord) -> (r: String)
    ensures
        r@ == global_label(*rc),
{
    if let Some(a) = &rc.alter {
        return a.clone();
    }
    if rc.slash_classification == SlashClassification::Inversion && rc.chord.quality_parsed.seventh.is_none() {
        if let Some(figure) = inversion_figure_of(&rc.chord) {
            let mut r = compact_roman_of(rc.degree_root, &rc.chord);
            r.append(figure);
            return r;
        }
    }
    compact_roman_of(rc.degree_root, &rc.chord)
}

fn target_degree_of(p: &TonalPerspective) -> (r: String)
    ensures
        r@ == target_degree(*p),
{
    let text = p.local_tonic_degree.to_string();
    if p.mode == TonalMode::Minor {
        lower_string(&text)
    } else {
        text
    }
}

fn role_text_of(r: HarmonicRole) -> (t: &'static str)
    ensures
        t@ == role_text(r),
{
    match r {
        HarmonicRole::Tonic => ROLE_T,
        HarmonicRole::Predominant => ROLE_PD,
        HarmonicRole::Dominant => ROLE_D,
        HarmonicRole::Subdominant => ROLE_S,
        HarmonicRole::NonFunctional => ROLE_NF,
    }
}

fn local_tonic_of(p: &TonalPerspective) -> (t: &'static str)
    ensures
        t@ == local_tonic_text(*p),
{
    if p.mode == TonalMode::Minor {
        LOCAL_MINOR
    } else {
        LOCAL_MAJOR
    }
}

fn local_label_of(chord: &ParsedChord, c: &HarmonicClassification) -> (r: Option<String>)
    ensures
        text_view(r) == local_label(*chord, c@),
{
    let p = match &c.perspective {
        Some(p) => p,
        None => return None,
    };
    if p.scope == TonalScope::Global {
        return None;
    }
    let mut local = if c.role == Some(HarmonicRole::Tonic) {
        String::from_str(local_tonic_of(p))
    } else {
        match c.local_degree {
            Some(d) => compact_roman_of(d, chord),
            None => return None,
        }
    };
    local.append(SLASH);
    let target = target_degree_of(p);
    local.append(target.as_str());
    Some(local)
}

fn with_target_of(prefix: &str, p: &Option<TonalPerspective>) -> (r: Option<String>)
    ensures
        text_view(r) == with_target(prefix@, *p),
{
    match p {
        Some(p) => {
            let mut s = String::from_str(prefix);
            let target = target_degree_of(p);
            s.append(target.as_str());
            Some(s)
        },
        None => None,
    }
}

fn blackadder_function_label_of(b: &BlackadderInterpretation) -> (r: Option<String>)
    ensures
        text_view(r) == blackadder_function_label(b@),
{
    let p = &b.classification.perspective;
    match b.function {
        Some(BlackadderFunction::TritoneSubstitute) => with_target_of(SUB_V, p),
        Some(BlackadderFunction::SecondaryDominant) => if b.structure == BlackadderStructure::AugmentedTriadOverBass {
            with_target_of(AUG_V, p)
        } else {
            with_target_of(V_OF, p)
        },
        Some(BlackadderFunction::Dominant) => with_target_of(V_OF, p),
        Some(BlackadderFunction::BackdoorDominant) => with_target_of(BACKDOOR_V, p),
        Some(BlackadderFunction::SubdominantMinor) => Some(String::from_str(SDM)),
        Some(BlackadderFunction::Predominant) => Some(String::from_str(ROLE_PD)),
        None => None,
    }
}

fn has_family_of(v: &Vec<InterpretationFamily>, f: InterpretationFamily) -> (r: bool)
    ensures
        r == v@.contains(f),
{
    let mut i: usize = 0;
    while i < v.len()
        invariant
            i <= v.len(),
            forall|k: int| 0 <= k < i ==> v@[k] != f,
        decreases v.len() - i,
    {
        if v[i] == f {
            return true;
        }
        i = i + 1;
    }
    false
}

fn has_source_of(v: &Vec<HarmonicSource>, f: HarmonicSource) -> (r: bool)
    ensures
        r == v@.contains(f),
{
    let mut i: usize = 0;
    while i < v.len()
        invariant
            i <= v.len(),
            forall|k: int| 0 <= k < i ==> v@[k] != f,
        decreases v.len() - i,
    {
        if v[i] == f {
            return true;
        }
        i = i + 1;
    }
    false
}

fn class_function_label_of(c: &HarmonicClassification) -> (r: Option<String>)
    ensures
        text_view(r) == class_function_label(c@),
{
    let local = match c.perspective {
        Some(p) => p.scope != TonalScope::Global,
        None => false,
    };
    if has_family_of(&c.families, InterpretationFamily::CommonToneNeighbor) {
        Some(String::from_str(CT))
    } else if has_family_of(&c.families, InterpretationFamily::PassingDiminished) {
        Some(String::from_str(PASSDIM))
    } else if has_source_of(&c.sources, HarmonicSource::SubdominantMinor) {
        Some(String::from_str(SDM))
    } else if c.role == Some(HarmonicRole::Dominant) && local {
        match c.dominant_relation {
            Some(DominantRelation::TritoneSubstitute) => with_target_of(SUB_V, &c.perspective),
            Some(DominantRelation::FifthRelated) => with_target_of(V_OF, &c.perspective),
            Some(DominantRelation::Backdoor) => with_target_of(BACKDOOR_V, &c.perspective),
            Some(DominantRelation::LeadingTone) => with_target_of(VII_OF, &c.perspective),
            None => Some(String::from_str(ROLE_D)),
        }
    } else if c.role == Some(HarmonicRole::Tonic) && local {
        match &c.perspective {
            Some(p) => {
                let mut s = String::from_str(local_tonic_of(p));
                s.append(SLASH);
                let target = target_degree_of(p);
                s.append(target.as_str());
                Some(s)
            },
            None => None,
        }
    } else {
        match c.role {
            Some(role) => Some(String::from_str(role_text_of(role))),
            None => None,
        }
    }
}

pub open spec fn selection_view(s: Option<&PathSelection>) -> Option<SelectionView> {
    match s {
        Some(x) => Some(x@),
        None => None,
    }
}

fn selected_classification_of<'a>(rc: &'a RomanizedChord, sel: Option<&'a PathSelection>) -> (r: Option<
    &'a HarmonicClassification,
>)
    ensures
        match r {
            Some(c) => selected_classification(*rc, selection_view(sel)) == Some(c@),
            None => selected_classification(*rc, selection_view(sel)) is None,
        },
{
    if let Some(s) = sel {
        if let Some(b) = &s.blackadder {
            return Some(&b.classification);
        }
        if s.harmonic_classifications.len() > 0 {
            return Some(&s.harmonic_classifications[0]);
        }
    }
    if rc.harmonic_classifications.len() > 0 {
        Some(&rc.harmonic_classifications[0])
    } else {
        None
    }
}

fn display_for_selection(event_index: usize, result: &RomanizedChord, selection: Option<&PathSelection>) -> (r:
    AnalysisDisplay)
    ensures
        r@ == display_view(event_index as int, *result, selection_view(selection)),
{
    let global = global_label_of(result);
    let classification = selected_classification_of(result, selection);
    let local = match classification {
        Some(c) => local_label_of(&result.chord, c),
        None => None,
    };
    let role = match classification {
        Some(c) => match c.role {
            Some(r) => Some(String::from_str(role_text_of(r))),
            None => None,
        },
        None => None,
    };
    let blackadder_selected = match selection {
        Some(s) => s.blackadder.is_some(),
        None => false,
    };
    let function = if blackadder_selected {
        match selection {
            Some(s) => match &s.blackadder {
                Some(b) => blackadder_function_label_of(b),
                None => None,
            },
            None => None,
        }
    } else {
        match classification {
            Some(c) => class_function_label_of(c),
            None => None,
        }
    };
    let applied_predominant = match classification {
        Some(c) => c.role == Some(HarmonicRole::Predominant) && match c.perspective {
            Some(p) => p.scope != TonalScope::Global,
            None => false,
        },
        None => false,
    };
    let primary = if applied_predominant && local.is_some() {
        match &local {
            Some(l) => l.clone(),
            None => global.clone(),
        }
    } else {
        global.clone()
    };
    let analysis = match &function {
        Some(f) => if *f != primary {
            let mut a = primary.clone();
            a.append(BAR);
            a.append(f.as_str());
            a
        } else {
            primary.clone()
        },
        None => primary.clone(),
    };
    let mut combined = result.normalized_symbol.clone();
    combined.append(OPEN);
    combined.append(analysis.as_str());
    combined.append(CLOSE);
    AnalysisDisplay {
        event_index,
        symbol: result.normalized_symbol.clone(),
        theoretical_symbol: result.theoretical_symbol.clone(),
        global_label: global,
        local_label: local,
        function_label: function,
        role_label: role,
        analysis_label: analysis,
        combined_label: combined,
    }
}

/// The path's first selection of event `e`.
fn find_selection(path: &AnalysisPath, e: usize) -> (r: Option<&PathSelection>)
    ensures
        selection_view(r) == selection_for(Some(path@), e as int),
{
    let ghost sels = path@.selections;
    let mut i: usize = 0;
    while i < path.selections.len()
        invariant
            sels == path@.selections,
            i <= path.selections.len(),
            selection_from(sels, e as int, 0) == selection_from(sels, e as int, i as int),
        decreases path.selections.len() - i,
    {
        if path.selections[i].event_index == e {
            return Some(&path.selections[i]);
        }
        i = i + 1;
    }
    None
}

impl Romanizer {
    /// One compact display per chord event; N.C. and boundaries are left
    /// out while `event_index` keeps input alignment. The labels come from
    /// the top-ranked interpretation path.
    pub fn display_progression(&self, progression: &[ProgressionItem]) -> (r: Vec<AnalysisDisplay>)
        requires
            progression_fits(progression@, self.spec_options().behavior),
            progression.len() <= 0x4_0000_0000_0000,
        ensures
            exists|events: Seq<AnnotatedEvent>, paths: Seq<PathView>|
                #[trigger] annotated(progression@, self.spec_options(), events) && #[trigger] decoded(
                    built_lattice(progression@, events, self.spec_options()),
                    Seq::empty(),
                    1,
                    paths,
                ) && r@.map_values(|d: AnalysisDisplay| d@) == displays(
                    progression@,
                    events,
                    if paths.len() > 0 {
                        Some(paths[0])
                    } else {
                        None
                    },
                ),
    {
        let ghost items = progression@;
        let events = self.annotate_events(progression);
        let lattice = AnalysisLattice::from_annotated_events(progression, events.as_slice(), self.options());
        let paths = lattice.decode_top_k_interpretations(1);
        let path: Option<&AnalysisPath> = if paths.len() > 0 {
            Some(&paths[0])
        } else {
            None
        };
        let ghost pv = path_views(paths@);
        let ghost best = if pv.len() > 0 {
            Some(pv[0])
        } else {
            None
        };
        assert(best == match path {
            Some(p) => Some(p@),
            None => None,
        });
        let mut out: Vec<AnalysisDisplay> = Vec::new();
        let mut i: usize = 0;
        assert(items.take(0) =~= Seq::<ProgressionItem>::empty());
        while i < events.len()
            invariant
                items == progression@,
                events.len() == progression.len(),
                forall|k: int| 0 <= k < progression.len() ==> crate::romanizer::event_result(
                    #[trigger] events@[k],
                    items,
                    self.spec_options(),
                    k,
                ),
                best == match path {
                    Some(p) => Some(p@),
                    None => None,
                },
                i <= events.len(),
                out@.map_values(|d: AnalysisDisplay| d@) == chord_positions(items.take(i as int)).map_values(
                    |e: int| display_view(e, rc_at(events@, e), selection_for(best, e)),
                ),
            decreases events.len() - i,
        {
            let ghost pre = chord_positions(items.take(i as int));
            let ghost before = out@.map_values(|d: AnalysisDisplay| d@);
            proof {
                assert(items.take(i + 1).drop_last() =~= items.take(i as int));
                assert(items.take(i + 1).last() == items[i as int]);
                assert(crate::romanizer::event_result(events@[i as int], items, self.spec_options(), i as int));
            }
            match &events[i] {
                AnnotatedEvent::Chord(rc) => {
                    let result: &RomanizedChord = &**rc;
                    let selection = match path {
                        Some(p) => find_selection(p, i),
                        None => None,
                    };
                    let d = display_for_selection(i, result, selection);
                    proof {
                        assert(items[i as int].symbol is Chord);
                        assert(chord_positions(items.take(i + 1)) == pre.push(i as int));
                        assert(rc_at(events@, i as int) == *result);
                        assert(selection_view(selection) == selection_for(best, i as int));
                    }
                    out.push(d);
                    proof {
                        assert(out@.map_values(|d: AnalysisDisplay| d@) =~= before.push(d@));
                        assert(chord_positions(items.take(i + 1)).map_values(
                            |e: int| display_view(e, rc_at(events@, e), selection_for(best, e)),
                        ) =~= pre.map_values(|e: int| display_view(e, rc_at(events@, e), selection_for(best, e))).push(d@));
                    }
                },
                _ => {
                    proof {
                        assert(!(items[i as int].symbol is Chord));
                        assert(chord_positions(items.take(i + 1)) == pre);
                    }
                },
            }
            i = i + 1;
        }
        assert(items.take(events.len() as int) =~= items);
        assert(annotated(progression@, self.spec_options(), events@));
        out
    }
}


/// The displays line up with the compact annotation: one per chord, in
/// order, at its event index, showing that chord's normalized and
/// theoretical symbols, with the combined label `symbol [analysis]`.
pub proof fn lemma_display_matches_annotation(
    items: Seq<ProgressionItem>,
    o: crate::romanizer::RomanizerOptions,
    events: Seq<AnnotatedEvent>,
    path: Option<PathView>,
    rs: Seq<RomanizedChord>,
)
    requires
        annotated(items, o, events),
        rs.len() == chord_positions(items).len(),
        forall|j: int| 0 <= j < rs.len() ==> chord_result(#[trigger] rs[j], items, o, chord_positions(items)[j]),
    ensures
        displays(items, events, path).len() == rs.len(),
        forall|j: int|
            0 <= j < rs.len() ==> {
                let d = #[trigger] displays(items, events, path)[j];
                &&& d.event_index == chord_positions(items)[j]
                &&& d.symbol == rs[j].normalized_symbol@
                &&& d.theoretical_symbol == rs[j].theoretical_symbol@
                &&& d.combined_label == d.symbol + OPEN@ + d.analysis_label + CLOSE@
            },
{
    crate::romanizer::lemma_progression_is_filtered_events(items, o, events, rs);
    let pos = chord_positions(items);
    assert forall|j: int| 0 <= j < rs.len() implies {
        let d = #[trigger] displays(items, events, path)[j];
        &&& d.event_index == pos[j]
        &&& d.symbol == rs[j].normalized_symbol@
        &&& d.theoretical_symbol == rs[j].theoretical_symbol@
        &&& d.combined_label == d.symbol + OPEN@ + d.analysis_label + CLOSE@
    } by {
        assert(events[pos[j]] matches AnnotatedEvent::Chord(rc) && results_agree(*rc, rs[j]));
        let rc = rc_at(events, pos[j]);
        assert(rc.labels() == rs[j].labels());
        assert(rc.labels().normalized_symbol == rc.normalized_symbol@);
    }
}

} // verus!
