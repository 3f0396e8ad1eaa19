//! Candidate lattice and ranked path decoding.
//!
//! A layer holds the alternative interpretations of one chord event; the
//! edges between adjacent layers carry evidence about moving from one
//! candidate to the next. A path's score is the sum of its candidates'
//! emission scores and of the transition scores along it (hundredths of a
//! point). Paths rank by score, highest first, then by their candidate ids.
//! Decoding keeps the `k` best prefixes for every terminal candidate, which
//! yields the `k` best complete paths.

use vstd::prelude::*;
use vstd::set_lib::{lemma_int_range, lemma_len_subset, set_int_range};
use crate::analysis::blackadder::{evidence_views, BlackadderInterpretation, InterpretationView};
use crate::analysis::evidence::{EvidenceView, ScoreEvidence};
use crate::analysis::harmony::{ClassificationView, HarmonicClassification};
use crate::analysis::interpreter::HybridKind;
use crate::domain::degree::Degree;
use crate::domain::note::SpelledNote;

verus! {

#[derive(Clone, Copy, Debug, Eq, PartialEq, Structural)]
/// Why a candidate exists in a layer.
pub enum InterpretationKind {
    PrimaryDegree,
    /// Notation-only state; built-in lattices keep enharmonic spellings on
    /// the chord's alternates instead.
    EnharmonicDegree,
    /// Notation-only state; a written bass is never dropped from a path.
    RootWithoutBass,
    /// One scored meaning of an ordinary chord.
    ContextualHarmony,
    FunctionalHybrid,
}

/// Abstract form of a candidate.
pub struct StateView {
    pub id: Seq<char>,
    pub event_index: int,
    pub label: Seq<char>,
    pub tonic: SpelledNote,
    pub degree_root: Option<Degree>,
    pub kind: InterpretationKind,
    pub emission_score: int,
    pub evidence: Seq<EvidenceView>,
    pub hybrid_kind: Option<HybridKind>,
    pub effective_root: Option<SpelledNote>,
    pub blackadder: Option<InterpretationView>,
    pub classifications: Seq<ClassificationView>,
}

pub open spec fn reading_view(b: Option<BlackadderInterpretation>) -> Option<InterpretationView> {
    match b {
        Some(x) => Some(x@),
        None => None,
    }
}

pub open spec fn classification_views(s: Seq<HarmonicClassification>) -> Seq<ClassificationView> {
    s.map_values(|c: HarmonicClassification| c@)
}

#[derive(Clone, Debug, PartialEq)]
/// One possible interpretation of one chord event.
pub struct InterpretationCandidate {
    /// Unique within its lattice.
    pub id: String,
    pub event_index: usize,
    pub label: String,
    pub tonic: SpelledNote,
    pub degree_root: Option<Degree>,
    pub kind: InterpretationKind,
    /// Score from this event alone, in hundredths.
    pub emission_score: i128,
    pub evidence: Vec<ScoreEvidence>,
    pub hybrid_kind: Option<HybridKind>,
    pub effective_root: Option<SpelledNote>,
    pub blackadder: Option<BlackadderInterpretation>,
    pub harmonic_classifications: Vec<HarmonicClassification>,
}

impl View for InterpretationCandidate {
    type V = StateView;

    open spec fn view(&self) -> StateView {
        StateView {
            id: self.id@,
            event_index: self.event_index as int,
            label: self.label@,
            tonic: self.tonic,
            degree_root: self.degree_root,
            kind: self.kind,
            emission_score: self.emission_score as int,
            evidence: evidence_views(self.evidence@),
            hybrid_kind: self.hybrid_kind,
            effective_root: self.effective_root,
            blackadder: reading_view(self.blackadder),
            classifications: classification_views(self.harmonic_classifications@),
        }
    }
}

/// Abstract form of a layer.
pub struct LayerView {
    pub event_index: int,
    pub segment_id: int,
    pub candidates: Seq<StateView>,
}

#[derive(Clone, Debug, PartialEq)]
/// All candidates of one chord event.
pub struct CandidateLayer {
    pub event_index: usize,
    /// Context boundaries start a new segment; no edge crosses them.
    pub segment_id: usize,
    pub candidates: Vec<InterpretationCandidate>,
}

impl View for CandidateLayer {
    type V = LayerView;

    open spec fn view(&self) -> LayerView {
        LayerView {
            event_index: self.event_index as int,
            segment_id: self.segment_id as int,
            candidates: self.candidates@.map_values(|c: InterpretationCandidate| c@),
        }
    }
}

/// Abstract form of an edge.
pub struct EdgeView {
    pub from: Seq<char>,
    pub to: Seq<char>,
    pub score: int,
    pub evidence: Seq<EvidenceView>,
}

#[derive(Clone, Debug, PartialEq)]
/// Pairwise evidence between candidates of adjacent layers.
pub struct CandidateTransition {
    pub from_candidate: String,
    pub to_candidate: String,
    /// Score in hundredths.
    pub score: i128,
    pub evidence: Vec<ScoreEvidence>,
}

impl View for CandidateTransition {
    type V = EdgeView;

    open spec fn view(&self) -> EdgeView {
        EdgeView {
            from: self.from_candidate@,
            to: self.to_candidate@,
            score: self.score as int,
            evidence: evidence_views(self.evidence@),
        }
    }
}

/// Abstract form of a lattice.
pub struct LatticeView {
    pub rule_set_version: Seq<char>,
    pub layers: Seq<LayerView>,
    pub transitions: Seq<Seq<EdgeView>>,
}

#[derive(Clone, Debug, PartialEq)]
/// A layered directed graph of interpretations for a progression.
pub struct AnalysisLattice {
    pub rule_set_version: String,
    pub layers: Vec<CandidateLayer>,
    /// One list per gap between layers; an empty list at a segment change.
    pub transitions: Vec<Vec<CandidateTransition>>,
}

impl View for AnalysisLattice {
    type V = LatticeView;

    open spec fn view(&self) -> LatticeView {
        LatticeView {
            rule_set_version: self.rule_set_version@,
            layers: self.layers@.map_values(|l: CandidateLayer| l@),
            transitions: self.transitions@.map_values(
                |es: Vec<CandidateTransition>| es@.map_values(|e: CandidateTransition| e@),
            ),
        }
    }
}

/// Abstract form of a constraint.
pub struct ConstraintView {
    pub event_index: int,
    pub candidate_id: Seq<char>,
}

#[derive(Clone, Debug, Eq, PartialEq)]
/// Pin one event to one candidate while decoding.
pub struct CandidateConstraint {
    pub event_index: usize,
    pub candidate_id: String,
}

impl View for CandidateConstraint {
    type V = ConstraintView;

    open spec fn view(&self) -> ConstraintView {
        ConstraintView { event_index: self.event_index as int, candidate_id: self.candidate_id@ }
    }
}

pub open spec fn constraint_views(s: Seq<CandidateConstraint>) -> Seq<ConstraintView> {
    s.map_values(|c: CandidateConstraint| c@)
}

// ---------------------------------------------------------------------
// The scoring model.

pub open spec fn cand(l: LatticeView, t: int, c: int) -> StateView {
    l.layers[t].candidates[c]
}

/// Whether layer `t` starts a segment: no transition reaches it.
pub open spec fn starts_segment(l: LatticeView, t: int) -> bool {
    t == 0 || l.layers[t - 1].segment_id != l.layers[t].segment_id
}

/// Index of the first edge from `from` to `to` at or after `i`, or `-1`.
pub open spec fn edge_from(edges: Seq<EdgeView>, from: Seq<char>, to: Seq<char>, i: int) -> int
    decreases edges.len() - i,
{
    if i < 0 || i >= edges.len() {
        -1
    } else if edges[i].from == from && edges[i].to == to {
        i
    } else {
        edge_from(edges, from, to, i + 1)
    }
}

/// The edge taken from candidate `p` of layer `t - 1` to candidate `c` of
/// layer `t`: the first listed edge between their ids.
pub open spec fn incoming(l: LatticeView, t: int, p: int, c: int) -> Option<EdgeView> {
    if starts_segment(l, t) {
        None
    } else {
        let edges = l.transitions[t - 1];
        let j = edge_from(edges, cand(l, t - 1, p).id, cand(l, t, c).id, 0);
        if j < 0 {
            None
        } else {
            Some(edges[j])
        }
    }
}

pub open spec fn transition_score(l: LatticeView, t: int, p: int, c: int) -> int {
    match incoming(l, t, p, c) {
        Some(e) => e.score,
        None => 0,
    }
}

pub open spec fn transition_evidence(l: LatticeView, t: int, p: int, c: int) -> Seq<EvidenceView> {
    match incoming(l, t, p, c) {
        Some(e) => e.evidence,
        None => Seq::empty(),
    }
}

/// Candidate `c` of layer `t` reached from candidate `p`: its emission and
/// the transition into it.
pub open spec fn step_score(l: LatticeView, t: int, p: int, c: int) -> int {
    cand(l, t, c).emission_score + transition_score(l, t, p, c)
}

/// The candidate before position `t` of a prefix (unused at `t == 0`).
pub open spec fn before_of(ch: Seq<usize>, t: int) -> int {
    if t == 0 {
        0
    } else {
        ch[t - 1] as int
    }
}

/// Score of the prefix that chooses candidate `ch[t]` at each layer `t`.
pub open spec fn prefix_score(l: LatticeView, ch: Seq<usize>) -> int
    decreases ch.len(),
{
    if ch.len() == 0 {
        0
    } else {
        let t = ch.len() - 1;
        prefix_score(l, ch.drop_last()) + step_score(l, t, before_of(ch, t), ch[t] as int)
    }
}

/// Index of the first constraint on event `e` at or after `i`, or `-1`.
pub open spec fn constraint_from(cons: Seq<ConstraintView>, e: int, i: int) -> int
    decreases cons.len() - i,
{
    if i < 0 || i >= cons.len() {
        -1
    } else if cons[i].event_index == e {
        i
    } else {
        constraint_from(cons, e, i + 1)
    }
}

/// A candidate is allowed unless the first constraint on its event pins
/// another candidate id.
pub open spec fn allowed(s: StateView, cons: Seq<ConstraintView>) -> bool {
    let j = constraint_from(cons, s.event_index, 0);
    j < 0 || cons[j].candidate_id == s.id
}

/// Every choice names a candidate of its layer.
pub open spec fn in_lattice(l: LatticeView, ch: Seq<usize>) -> bool {
    &&& ch.len() <= l.layers.len()
    &&& forall|u: int| 0 <= u < ch.len() ==> (#[trigger] ch[u] as int) < l.layers[u].candidates.len()
}

/// A prefix of allowed candidates, one per layer from the first.
pub open spec fn valid_prefix(l: LatticeView, cons: Seq<ConstraintView>, ch: Seq<usize>) -> bool {
    &&& in_lattice(l, ch)
    &&& forall|u: int| 0 <= u < ch.len() ==> allowed(cand(l, u, #[trigger] ch[u] as int), cons)
}

/// Valid prefixes through layer `t` that end at candidate `s`.
pub open spec fn state_pool(l: LatticeView, cons: Seq<ConstraintView>, t: int, s: int) -> spec_fn(Seq<usize>) -> bool {
    |ch: Seq<usize>| valid_prefix(l, cons, ch) && ch.len() == t + 1 && ch[t] as int == s
}

/// Valid complete paths.
pub open spec fn path_pool(l: LatticeView, cons: Seq<ConstraintView>) -> spec_fn(Seq<usize>) -> bool {
    |ch: Seq<usize>| valid_prefix(l, cons, ch) && ch.len() == l.layers.len()
}

pub open spec fn ids_of(l: LatticeView, ch: Seq<usize>) -> Seq<Seq<char>> {
    Seq::new(ch.len(), |u: int| cand(l, u, ch[u] as int).id)
}

// ---------------------------------------------------------------------
// Lexicographic order.

/// Lexicographic order over `lt`; a proper prefix comes first.
pub open spec fn lex_lt<T>(a: Seq<T>, b: Seq<T>, lt: spec_fn(T, T) -> bool) -> bool
    decreases a.len(),
{
    if b.len() == 0 {
        false
    } else if a.len() == 0 {
        true
    } else if a[0] != b[0] {
        lt(a[0], b[0])
    } else {
        lex_lt(a.drop_first(), b.drop_first(), lt)
    }
}

pub open spec fn strict_total<T>(lt: spec_fn(T, T) -> bool) -> bool {
    &&& forall|x: T| !#[trigger] lt(x, x)
    &&& forall|x: T, y: T, z: T| #[trigger] lt(x, y) && #[trigger] lt(y, z) ==> lt(x, z)
    &&& forall|x: T, y: T| x != y ==> #[trigger] lt(x, y) || #[trigger] lt(y, x)
}

/// Characters by code point, the order of their UTF-8 encodings.
pub open spec fn char_order() -> spec_fn(char, char) -> bool {
    |x: char, y: char| (x as int) < (y as int)
}

pub open spec fn text_lt(a: Seq<char>, b: Seq<char>) -> bool {
    lex_lt(a, b, char_order())
}

pub open spec fn text_order() -> spec_fn(Seq<char>, Seq<char>) -> bool {
    |x: Seq<char>, y: Seq<char>| text_lt(x, y)
}

/// Id sequences in lexicographic order of their ids.
pub open spec fn ids_lt(a: Seq<Seq<char>>, b: Seq<Seq<char>>) -> bool {
    lex_lt(a, b, text_order())
}

proof fn lemma_lex_irrefl<T>(a: Seq<T>, lt: spec_fn(T, T) -> bool)
    ensures
        !lex_lt(a, a, lt),
    decreases a.len(),
{
    if a.len() > 0 {
        lemma_lex_irrefl(a.drop_first(), lt);
    }
}

proof fn lemma_lex_trans<T>(a: Seq<T>, b: Seq<T>, c: Seq<T>, lt: spec_fn(T, T) -> bool)
    requires
        strict_total(lt),
        lex_lt(a, b, lt),
        lex_lt(b, c, lt),
    ensures
        lex_lt(a, c, lt),
    decreases a.len(),
{
    if a.len() > 0 && b.len() > 0 && c.len() > 0 {
        if a[0] == b[0] && b[0] == c[0] {
            lemma_lex_trans(a.drop_first(), b.drop_first(), c.drop_first(), lt);
        } else if a[0] != b[0] && b[0] != c[0] {
            assert(lt(a[0], b[0]) && lt(b[0], c[0]));
            assert(lt(a[0], c[0]));
            assert(a[0] != c[0]);
        }
    }
}

proof fn lemma_lex_total<T>(a: Seq<T>, b: Seq<T>, lt: spec_fn(T, T) -> bool)
    requires
        strict_total(lt),
        a != b,
    ensures
        lex_lt(a, b, lt) || lex_lt(b, a, lt),
    decreases a.len(),
{
    if a.len() > 0 && b.len() > 0 {
        if a[0] == b[0] {
            if a.drop_first() == b.drop_first() {
                assert(a =~= seq![a[0]] + a.drop_first());
                assert(b =~= seq![b[0]] + b.drop_first());
            }
            lemma_lex_total(a.drop_first(), b.drop_first(), lt);
        } else {
            assert(lt(a[0], b[0]) || lt(b[0], a[0]));
        }
    } else if a.len() == 0 && b.len() == 0 {
        assert(a =~= b);
    }
}

proof fn lemma_lex_strict_total<T>(lt: spec_fn(T, T) -> bool)
    requires
        strict_total(lt),
    ensures
        strict_total(|x: Seq<T>, y: Seq<T>| lex_lt(x, y, lt)),
{
    let o = |x: Seq<T>, y: Seq<T>| lex_lt(x, y, lt);
    assert forall|x: Seq<T>| !#[trigger] o(x, x) by {
        lemma_lex_irrefl(x, lt);
    }
    assert forall|x: Seq<T>, y: Seq<T>, z: Seq<T>| #[trigger] o(x, y) && #[trigger] o(y, z) implies o(x, z) by {
        lemma_lex_trans(x, y, z, lt);
    }
    assert forall|x: Seq<T>, y: Seq<T>| x != y implies #[trigger] o(x, y) || #[trigger] o(y, x) by {
        lemma_lex_total(x, y, lt);
    }
}

/// Appending one element to two sequences of one length keeps their order.
proof fn lemma_lex_push<T>(a: Seq<T>, b: Seq<T>, x: T, lt: spec_fn(T, T) -> bool)
    requires
        a.len() == b.len(),
    ensures
        lex_lt(a.push(x), b.push(x), lt) == lex_lt(a, b, lt),
    decreases a.len(),
{
    let (ax, bx) = (a.push(x), b.push(x));
    if a.len() == 0 {
        assert(ax.drop_first() =~= Seq::<T>::empty());
        assert(bx.drop_first() =~= Seq::<T>::empty());
        assert(!lex_lt(ax.drop_first(), bx.drop_first(), lt));
        assert(ax[0] == bx[0]);
    } else {
        assert(ax[0] == a[0] && bx[0] == b[0]);
        assert(ax.drop_first() =~= a.drop_first().push(x));
        assert(bx.drop_first() =~= b.drop_first().push(x));
        lemma_lex_push(a.drop_first(), b.drop_first(), x, lt);
    }
}

proof fn lemma_char_order()
    ensures
        strict_total(char_order()),
{
    assert forall|x: char, y: char| x != y implies #[trigger] char_order()(x, y) || #[trigger] char_order()(y, x) by {
        assert((x as int) != (y as int));
    }
}

proof fn lemma_text_order()
    ensures
        strict_total(text_order()),
{
    lemma_char_order();
    lemma_lex_strict_total(char_order());
    let o = |x: Seq<char>, y: Seq<char>| lex_lt(x, y, char_order());
    assert(strict_total(o));
    assert forall|x: Seq<char>, y: Seq<char>| #[trigger] text_order()(x, y) == o(x, y) by {}
}

proof fn lemma_ids_order()
    ensures
        strict_total(|x: Seq<Seq<char>>, y: Seq<Seq<char>>| ids_lt(x, y)),
{
    lemma_text_order();
    lemma_lex_strict_total(text_order());
    let o = |x: Seq<Seq<char>>, y: Seq<Seq<char>>| lex_lt(x, y, text_order());
    assert(strict_total(o));
    assert forall|x: Seq<Seq<char>>, y: Seq<Seq<char>>| #[trigger] ids_lt(x, y) == o(x, y) by {}
}

// ---------------------------------------------------------------------
// Ranking.

/// `a` ranks strictly before `b`: a higher score, or the same score and
/// smaller ids.
pub open spec fn ranks_before(l: LatticeView, a: Seq<usize>, b: Seq<usize>) -> bool {
    let sa = prefix_score(l, a);
    let sb = prefix_score(l, b);
    sa > sb || (sa == sb && ids_lt(ids_of(l, a), ids_of(l, b)))
}

proof fn lemma_rank_irrefl(l: LatticeView, a: Seq<usize>)
    ensures
        !ranks_before(l, a, a),
{
    lemma_lex_irrefl(ids_of(l, a), text_order());
}

proof fn lemma_rank_trans(l: LatticeView, a: Seq<usize>, b: Seq<usize>, c: Seq<usize>)
    requires
        ranks_before(l, a, b),
        ranks_before(l, b, c),
    ensures
        ranks_before(l, a, c),
{
    lemma_text_order();
    if prefix_score(l, a) == prefix_score(l, b) && prefix_score(l, b) == prefix_score(l, c) {
        lemma_lex_trans(ids_of(l, a), ids_of(l, b), ids_of(l, c), text_order());
    }
}

/// If `a` ranks before `c`, every `b` ranks after `a` or before `c`.
proof fn lemma_rank_split(l: LatticeView, a: Seq<usize>, b: Seq<usize>, c: Seq<usize>)
    requires
        ranks_before(l, a, c),
    ensures
        ranks_before(l, a, b) || ranks_before(l, b, c),
{
    lemma_text_order();
    let (ia, ib, ic) = (ids_of(l, a), ids_of(l, b), ids_of(l, c));
    if !ranks_before(l, a, b) && !ranks_before(l, b, c) {
        assert(prefix_score(l, a) == prefix_score(l, b) && prefix_score(l, b) == prefix_score(l, c));
        if ia == ib {
            assert(ids_lt(ib, ic));
        } else {
            lemma_lex_total(ia, ib, text_order());
            assert(ids_lt(ib, ia));
            lemma_lex_trans(ib, ia, ic, text_order());
        }
    }
}

/// Extending two prefixes that end at one candidate by one more candidate
/// keeps their rank.
proof fn lemma_rank_extend(l: LatticeView, a: Seq<usize>, b: Seq<usize>, s: usize)
    requires
        a.len() == b.len(),
        a.len() >= 1,
        a.last() == b.last(),
    ensures
        ranks_before(l, a.push(s), b.push(s)) == ranks_before(l, a, b),
{
    let t = a.len() as int;
    assert(a.push(s).drop_last() =~= a);
    assert(b.push(s).drop_last() =~= b);
    assert(before_of(a.push(s), t) == before_of(b.push(s), t));
    let x = cand(l, t, s as int).id;
    assert(ids_of(l, a.push(s)) =~= ids_of(l, a).push(x));
    assert(ids_of(l, b.push(s)) =~= ids_of(l, b).push(x));
    lemma_lex_push(ids_of(l, a), ids_of(l, b), x, text_order());
}


// ---------------------------------------------------------------------
// Executable comparisons and lookups.

/// `a` before `b` in lexicographic order of code points.
fn text_less(a: &String, b: &String) -> (r: bool)
    ensures
        r == text_lt(a@, b@),
{
    let va = crate::text::to_chars(a.as_str());
    let vb = crate::text::to_chars(b.as_str());
    assert(a@.skip(0) =~= a@);
    assert(b@.skip(0) =~= b@);
    let mut i: usize = 0;
    while i < va.len() && i < vb.len()
        invariant
            va@ == a@,
            vb@ == b@,
            i <= va.len(),
            i <= vb.len(),
            text_lt(a@, b@) == lex_lt(a@.skip(i as int), b@.skip(i as int), char_order()),
        decreases va.len() - i,
    {
        if va[i] != vb[i] {
            let r = va[i] < vb[i];
            assert(a@.skip(i as int)[0] == va@[i as int]);
            assert(b@.skip(i as int)[0] == vb@[i as int]);
            return r;
        }
        assert(a@.skip(i as int).drop_first() =~= a@.skip(i + 1));
        assert(b@.skip(i as int).drop_first() =~= b@.skip(i + 1));
        i = i + 1;
    }
    i < vb.len()
}

/// Index of the first edge from `from` to `to`.
fn find_edge(edges: &Vec<CandidateTransition>, from: &String, to: &String) -> (r: Option<usize>)
    ensures
        match r {
            Some(j) => edge_from(edges@.map_values(|e: CandidateTransition| e@), from@, to@, 0) == j as int,
            None => edge_from(edges@.map_values(|e: CandidateTransition| e@), from@, to@, 0) == -1,
        },
{
    let ghost ev = edges@.map_values(|e: CandidateTransition| e@);
    let mut i: usize = 0;
    while i < edges.len()
        invariant
            i <= edges.len(),
            ev == edges@.map_values(|e: CandidateTransition| e@),
            edge_from(ev, from@, to@, 0) == edge_from(ev, from@, to@, i as int),
        decreases edges.len() - i,
    {
        if edges[i].from_candidate == *from && edges[i].to_candidate == *to {
            return Some(i);
        }
        i = i + 1;
    }
    None
}

proof fn lemma_edge_from_range(edges: Seq<EdgeView>, from: Seq<char>, to: Seq<char>, i: int)
    requires
        i >= 0,
    ensures
        edge_from(edges, from, to, i) == -1 || (i <= edge_from(edges, from, to, i) < edges.len()),
    decreases edges.len() - i,
{
    if i < edges.len() && !(edges[i].from == from && edges[i].to == to) {
        lemma_edge_from_range(edges, from, to, i + 1);
    }
}

/// Whether the constraints allow the candidate.
fn candidate_allowed(candidate: &InterpretationCandidate, constraints: &[CandidateConstraint]) -> (r: bool)
    ensures
        r == allowed(candidate@, constraint_views(constraints@)),
{
    let ghost cv = constraint_views(constraints@);
    let mut i: usize = 0;
    while i < constraints.len()
        invariant
            i <= constraints.len(),
            cv == constraint_views(constraints@),
            constraint_from(cv, candidate@.event_index, 0) == constraint_from(cv, candidate@.event_index, i as int),
        decreases constraints.len() - i,
    {
        if constraints[i].event_index == candidate.event_index {
            return constraints[i].candidate_id == candidate.id;
        }
        i = i + 1;
    }
    true
}

/// A prefix under construction: its choices and its score.
struct Prefix {
    choices: Vec<usize>,
    score: i128,
}

spec fn prefix_ok(l: LatticeView, p: Prefix) -> bool {
    in_lattice(l, p.choices@) && p.score == prefix_score(l, p.choices@)
}

spec fn choices_of(s: Seq<Prefix>) -> Seq<Seq<usize>> {
    s.map_values(|p: Prefix| p.choices@)
}

/// Every score below 2^74 in magnitude.
spec fn scores_bounded(l: LatticeView) -> bool {
    &&& emissions_bounded(l)
    &&& transitions_bounded(l)
}

pub open spec fn emissions_bounded(l: LatticeView) -> bool {
    forall|t: int, c: int|
        0 <= t < l.layers.len() && 0 <= c < l.layers[t].candidates.len() ==> -0x400_0000_0000_0000_0000 <= #[trigger] cand(
            l,
            t,
            c,
        ).emission_score < 0x400_0000_0000_0000_0000
}

pub open spec fn transitions_bounded(l: LatticeView) -> bool {
    forall|t: int, j: int|
        0 <= t < l.transitions.len() && 0 <= j < l.transitions[t].len() ==> -0x400_0000_0000_0000_0000
            <= #[trigger] l.transitions[t][j].score < 0x400_0000_0000_0000_0000
}

/// The lattice shapes decoding handles: a transition list for every gap
/// inside a segment, no more layers than memory could hold, and scores
/// whose sums along a path fit in 128 bits.
pub open spec fn decodable(l: LatticeView) -> bool {
    &&& l.layers.len() <= 0x4_0000_0000_0000
    &&& forall|t: int| 1 <= t < l.layers.len() && !#[trigger] starts_segment(l, t) ==> t - 1 < l.transitions.len()
    &&& emissions_bounded(l)
    &&& transitions_bounded(l)
}

proof fn lemma_step_bounded(l: LatticeView, t: int, p: int, c: int)
    requires
        scores_bounded(l),
        decodable(l),
        0 <= t < l.layers.len(),
        0 <= c < l.layers[t].candidates.len(),
        t > 0 ==> 0 <= p < l.layers[t - 1].candidates.len(),
    ensures
        -0x800_0000_0000_0000_0000 <= step_score(l, t, p, c) <= 0x800_0000_0000_0000_0000,
{
    if !starts_segment(l, t) {
        let edges = l.transitions[t - 1];
        lemma_edge_from_range(edges, cand(l, t - 1, p).id, cand(l, t, c).id, 0);
    }
}

proof fn lemma_prefix_bounded(l: LatticeView, ch: Seq<usize>)
    requires
        scores_bounded(l),
        decodable(l),
        in_lattice(l, ch),
    ensures
        -(ch.len() as int) * 0x800_0000_0000_0000_0000 <= prefix_score(l, ch) <= (ch.len() as int) * 0x800_0000_0000_0000_0000,
    decreases ch.len(),
{
    if ch.len() > 0 {
        let t = ch.len() - 1;
        assert(in_lattice(l, ch.drop_last()));
        lemma_prefix_bounded(l, ch.drop_last());
        assert((ch[t] as int) < l.layers[t].candidates.len());
        if t > 0 {
            assert((ch[t - 1] as int) < l.layers[t - 1].candidates.len());
        }
        lemma_step_bounded(l, t, before_of(ch, t), ch[t] as int);
    }
}

/// `hi - lo` distinct integers in `idx` need at least that many entries.
proof fn lemma_range_in(idx: Seq<int>, lo: int, hi: int, extra: Option<int>)
    requires
        lo <= hi,
        forall|j: int| lo <= j < hi ==> idx.contains(j),
        extra matches Some(x) ==> idx.contains(x) && !(lo <= x < hi),
    ensures
        hi - lo + (if extra is Some { 1int } else { 0int }) <= idx.len(),
{
    broadcast use vstd::seq_lib::seq_to_set_is_finite;
    lemma_int_range(lo, hi);
    let a = match extra {
        Some(x) => set_int_range(lo, hi).insert(x),
        None => set_int_range(lo, hi),
    };
    assert(a.subset_of(idx.to_set()));
    lemma_len_subset(a, idx.to_set());
    idx.lemma_cardinality_of_set();
}

/// `r` is a best-first selection from `e` at the distinct positions `idx`:
/// as many as `k` allows, ranked, and no unselected entry ranks before a
/// selected one.
spec fn selected(l: LatticeView, e: Seq<Seq<usize>>, idx: Seq<int>, r: Seq<Seq<usize>>, k: int) -> bool {
    &&& r.len() == idx.len()
    &&& r.len() == (if k < e.len() { k } else { e.len() as int })
    &&& forall|m: int| 0 <= m < r.len() ==> 0 <= #[trigger] idx[m] < e.len() && r[m] == e[idx[m]]
    &&& idx.no_duplicates()
    &&& forall|m1: int, m2: int| 0 <= m1 < m2 < r.len() ==> !ranks_before(l, #[trigger] r[m2], #[trigger] r[m1])
    &&& forall|j: int, m: int|
        0 <= j < e.len() && !idx.contains(j) && 0 <= m < r.len() ==> !ranks_before(l, #[trigger] e[j], #[trigger] r[m])
}

/// A run of `k` entries none of which ranks after `v` keeps `v` from
/// ranking before the last of `k` selected entries.
proof fn lemma_selection_covers(
    l: LatticeView,
    e: Seq<Seq<usize>>,
    idx: Seq<int>,
    r: Seq<Seq<usize>>,
    k: int,
    off: int,
    v: Seq<usize>,
)
    requires
        selected(l, e, idx, r, k),
        k > 0,
        0 <= off,
        off + k <= e.len(),
        forall|i: int| 0 <= i < k ==> !ranks_before(l, v, #[trigger] e[off + i]),
    ensures
        r.len() == k,
        !ranks_before(l, v, r[k - 1]),
{
    if ranks_before(l, v, r[k - 1]) {
        assert forall|j: int| off <= j < off + k implies idx.contains(j) by {
            assert(!ranks_before(l, v, e[off + (j - off)]));
            lemma_rank_split(l, v, e[j], r[k - 1]);
            if !idx.contains(j) {
                assert(!ranks_before(l, e[j], r[k - 1]));
            }
        }
        let x = idx[k - 1];
        if off <= x < off + k {
            assert(!ranks_before(l, v, e[off + (x - off)]));
            lemma_rank_split(l, v, e[x], r[k - 1]);
            lemma_rank_irrefl(l, r[k - 1]);
        }
        assert(idx.contains(x));
        lemma_range_in(idx, off, off + k, Some(x));
    }
}

impl AnalysisLattice {
    /// `a` ranks before `b`.
    fn ranks_first(&self, a: &Prefix, b: &Prefix) -> (r: bool)
        requires
            prefix_ok(self@, *a),
            prefix_ok(self@, *b),
        ensures
            r == ranks_before(self@, a.choices@, b.choices@),
    {
        if a.score > b.score {
            true
        } else if a.score < b.score {
            false
        } else {
            self.ids_less(&a.choices, &b.choices)
        }
    }

    fn ids_less(&self, a: &Vec<usize>, b: &Vec<usize>) -> (r: bool)
        requires
            in_lattice(self@, a@),
            in_lattice(self@, b@),
        ensures
            r == ids_lt(ids_of(self@, a@), ids_of(self@, b@)),
    {
        let ghost (ia, ib) = (ids_of(self@, a@), ids_of(self@, b@));
        assert(ia.skip(0) =~= ia);
        assert(ib.skip(0) =~= ib);
        let mut i: usize = 0;
        while i < a.len() && i < b.len()
            invariant
                in_lattice(self@, a@),
                in_lattice(self@, b@),
                ia == ids_of(self@, a@),
                ib == ids_of(self@, b@),
                i <= a.len(),
                i <= b.len(),
                ids_lt(ia, ib) == lex_lt(ia.skip(i as int), ib.skip(i as int), text_order()),
            decreases a.len() - i,
        {
            assert((a@[i as int] as int) < self@.layers[i as int].candidates.len());
            assert((b@[i as int] as int) < self@.layers[i as int].candidates.len());
            let x = &self.layers[i].candidates[a[i]].id;
            let y = &self.layers[i].candidates[b[i]].id;
            assert(ia.skip(i as int)[0] == x@);
            assert(ib.skip(i as int)[0] == y@);
            if *x != *y {
                return text_less(x, y);
            }
            assert(ia.skip(i as int).drop_first() =~= ia.skip(i + 1));
            assert(ib.skip(i as int).drop_first() =~= ib.skip(i + 1));
            i = i + 1;
        }
        i < b.len()
    }

    /// The best `k` entries of `pool`, best first; among entries of equal
    /// rank the earlier one is taken first.
    fn select_best(&self, pool: &Vec<Prefix>, k: usize) -> (r: (Vec<Prefix>, Ghost<Seq<int>>))
        requires
            forall|j: int| 0 <= j < pool.len() ==> prefix_ok(self@, #[trigger] pool@[j]),
        ensures
            selected(self@, choices_of(pool@), r.1@, choices_of(r.0@), k as int),
            forall|m: int| 0 <= m < r.0.len() ==> prefix_ok(self@, #[trigger] r.0@[m]),
    {
        let ghost l = self@;
        let ghost e = choices_of(pool@);
        let n = pool.len();
        let want = if k < n { k } else { n };
        let mut taken: Vec<bool> = Vec::new();
        let mut f: usize = 0;
        while f < n
            invariant
                f <= n,
                taken@.len() == f,
                forall|j: int| 0 <= j < f ==> !taken@[j],
            decreases n - f,
        {
            taken.push(false);
            f = f + 1;
        }
        let mut r: Vec<Prefix> = Vec::new();
        let ghost mut idx: Seq<int> = Seq::empty();
        while r.len() < want
            invariant
                l == self@,
                e == choices_of(pool@),
                n == pool.len(),
                want == (if k < n { k } else { n }),
                forall|j: int| 0 <= j < pool.len() ==> prefix_ok(self@, #[trigger] pool@[j]),
                forall|m: int| 0 <= m < r.len() ==> prefix_ok(self@, #[trigger] r@[m]),
                r.len() <= want,
                r.len() == idx.len(),
                taken@.len() == n,
                forall|m: int| 0 <= m < r.len() ==> 0 <= #[trigger] idx[m] < n && taken@[idx[m]] && r@[m].choices@ == e[idx[m]],
                forall|j: int| 0 <= j < n && #[trigger] taken@[j] ==> idx.contains(j),
                idx.no_duplicates(),
                forall|m1: int, m2: int| 0 <= m1 < m2 < r.len() ==> !ranks_before(l, #[trigger] choices_of(r@)[m2], #[trigger] choices_of(r@)[m1]),
                forall|j: int, m: int|
                    0 <= j < n && !taken@[j] && 0 <= m < r.len() ==> !ranks_before(l, #[trigger] e[j], #[trigger] choices_of(r@)[m]),
            decreases want - r.len(),
        {
            proof {
                if !(exists|q: int| 0 <= q < n && !#[trigger] taken@[q]) {
                    assert forall|q: int| 0 <= q < n implies idx.contains(q) by {
                        assert(taken@[q]);
                    }
                    lemma_range_in(idx, 0, n as int, None);
                }
            }
            let mut best: usize = n;
            let mut j: usize = 0;
            while j < n
                invariant
                    l == self@,
                    e == choices_of(pool@),
                    n == pool.len(),
                    taken@.len() == n,
                    forall|q: int| 0 <= q < pool.len() ==> prefix_ok(self@, #[trigger] pool@[q]),
                    j <= n,
                    best == n || (best < j && !taken@[best as int]),
                    forall|q: int| 0 <= q < j && !taken@[q] ==> best < n && !ranks_before(l, #[trigger] e[q], e[best as int]),
                decreases n - j,
            {
                if !taken[j] {
                    if best == n || self.ranks_first(&pool[j], &pool[best]) {
                        proof {
                            if best < n {
                                assert forall|q: int| 0 <= q < j && !taken@[q] implies !ranks_before(
                                    l,
                                    #[trigger] e[q],
                                    e[j as int],
                                ) by {
                                    if ranks_before(l, e[q], e[j as int]) {
                                        lemma_rank_trans(l, e[q], e[j as int], e[best as int]);
                                    }
                                }
                            }
                            lemma_rank_irrefl(l, e[j as int]);
                        }
                        best = j;
                    } else {
                        assert(!ranks_before(l, e[j as int], e[best as int]));
                    }
                }
                j = j + 1;
            }
            proof {
                let w = choose|q: int| 0 <= q < n && !#[trigger] taken@[q];
                assert(!taken@[w]);
                assert(e[w] == e[w]);
                assert(best < n);
            }
            taken.set(best, true);
            let chosen = Prefix { choices: crate::domain::quality::copy_values(&pool[best].choices), score: pool[best].score };
            let ghost before_r = r@;
            r.push(chosen);
            proof {
                let old_idx = idx;
                idx = idx.push(best as int);
                assert(choices_of(r@) =~= choices_of(before_r).push(e[best as int]));
                assert forall|q: int| 0 <= q < n && #[trigger] taken@[q] implies idx.contains(q) by {
                    if q != best as int {
                        assert(old_idx.contains(q));
                        let w = choose|m: int| 0 <= m < old_idx.len() && old_idx[m] == q;
                        assert(idx[w] == q);
                    } else {
                        assert(idx[idx.len() - 1] == q);
                    }
                }
                assert forall|m1: int, m2: int| 0 <= m1 < m2 < idx.len() implies idx[m1] != idx[m2] by {
                    if m2 == idx.len() - 1 {
                        assert(taken@[old_idx[m1]] || true);
                    }
                }
            }
        }
        (r, Ghost(idx))
    }
}


// ---------------------------------------------------------------------
// Paths.

/// Abstract form of a path selection.
pub struct SelectionView {
    pub event_index: int,
    pub candidate_id: Seq<char>,
    pub label: Seq<char>,
    pub hybrid_kind: Option<HybridKind>,
    pub blackadder: Option<InterpretationView>,
    pub classifications: Seq<ClassificationView>,
    pub emission_score: int,
    pub transition_score: int,
    pub step_score: int,
    pub cumulative_score: int,
    pub evidence: Seq<EvidenceView>,
}

#[derive(Clone, Debug, PartialEq)]
/// The candidate chosen at one event of a path.
pub struct PathSelection {
    pub event_index: usize,
    pub candidate_id: String,
    pub label: String,
    pub hybrid_kind: Option<HybridKind>,
    pub blackadder: Option<BlackadderInterpretation>,
    pub harmonic_classifications: Vec<HarmonicClassification>,
    /// The candidate's own score.
    pub emission_score: i128,
    /// The score of the edge from the previous selection; zero at the first
    /// event and after a context boundary.
    pub transition_score: i128,
    /// `emission_score + transition_score`.
    pub step_score: i128,
    /// Path score through this event.
    pub cumulative_score: i128,
    /// The candidate's evidence, then the incoming edge's.
    pub evidence: Vec<ScoreEvidence>,
}

impl View for PathSelection {
    type V = SelectionView;

    open spec fn view(&self) -> SelectionView {
        SelectionView {
            event_index: self.event_index as int,
            candidate_id: self.candidate_id@,
            label: self.label@,
            hybrid_kind: self.hybrid_kind,
            blackadder: reading_view(self.blackadder),
            classifications: classification_views(self.harmonic_classifications@),
            emission_score: self.emission_score as int,
            transition_score: self.transition_score as int,
            step_score: self.step_score as int,
            cumulative_score: self.cumulative_score as int,
            evidence: evidence_views(self.evidence@),
        }
    }
}

/// Abstract form of a path.
pub struct PathView {
    pub selections: Seq<SelectionView>,
    pub total_score: int,
    pub evidence: Seq<EvidenceView>,
}

#[derive(Clone, Debug, PartialEq)]
/// One complete interpretation path and its flattened evidence trail.
pub struct AnalysisPath {
    pub selections: Vec<PathSelection>,
    pub total_score: i128,
    pub evidence: Vec<ScoreEvidence>,
}

impl View for AnalysisPath {
    type V = PathView;

    open spec fn view(&self) -> PathView {
        PathView {
            selections: self.selections@.map_values(|x: PathSelection| x@),
            total_score: self.total_score as int,
            evidence: evidence_views(self.evidence@),
        }
    }
}

pub open spec fn path_views(s: Seq<AnalysisPath>) -> Seq<PathView> {
    s.map_values(|p: AnalysisPath| p@)
}

/// The selection at position `u` of the path `ch`.
pub open spec fn selection_of(l: LatticeView, ch: Seq<usize>, u: int) -> SelectionView {
    let c = cand(l, u, ch[u] as int);
    let p = before_of(ch, u);
    SelectionView {
        event_index: c.event_index,
        candidate_id: c.id,
        label: c.label,
        hybrid_kind: c.hybrid_kind,
        blackadder: c.blackadder,
        classifications: c.classifications,
        emission_score: c.emission_score,
        transition_score: transition_score(l, u, p, ch[u] as int),
        step_score: step_score(l, u, p, ch[u] as int),
        cumulative_score: prefix_score(l, ch.take(u + 1)),
        evidence: c.evidence + transition_evidence(l, u, p, ch[u] as int),
    }
}

/// The evidence of the selections of `ch`, in order.
pub open spec fn path_evidence(l: LatticeView, ch: Seq<usize>) -> Seq<EvidenceView>
    decreases ch.len(),
{
    if ch.len() == 0 {
        Seq::empty()
    } else {
        path_evidence(l, ch.drop_last()) + selection_of(l, ch, ch.len() - 1).evidence
    }
}

pub open spec fn path_view(l: LatticeView, ch: Seq<usize>) -> PathView {
    PathView {
        selections: Seq::new(ch.len(), |u: int| selection_of(l, ch, u)),
        total_score: prefix_score(l, ch),
        evidence: path_evidence(l, ch),
    }
}

/// `r` holds the best `k` members of `pool`, best first: each is in the
/// pool, none twice, and a member left out ranks no better than the last
/// one kept, which only happens once `k` are kept.
pub open spec fn top_k_of(l: LatticeView, pool: spec_fn(Seq<usize>) -> bool, r: Seq<Seq<usize>>, k: int) -> bool {
    &&& r.len() <= k
    &&& r.no_duplicates()
    &&& forall|i: int| 0 <= i < r.len() ==> pool(#[trigger] r[i])
    &&& forall|i: int, j: int| 0 <= i < j < r.len() ==> !ranks_before(l, #[trigger] r[j], #[trigger] r[i])
    &&& forall|ch: Seq<usize>|
        #[trigger] pool(ch) && !r.contains(ch) ==> r.len() == k && (k > 0 ==> !ranks_before(l, ch, r.last()))
}

/// What decoding returns: nothing for `k == 0` or an empty lattice,
/// otherwise the views of the best `k` complete paths that the
/// constraints allow.
pub open spec fn decoded(l: LatticeView, cons: Seq<ConstraintView>, k: int, r: Seq<PathView>) -> bool {
    if k == 0 || l.layers.len() == 0 {
        r.len() == 0
    } else {
        exists|chs: Seq<Seq<usize>>|
            top_k_of(l, path_pool(l, cons), chs, k) && r == chs.map_values(|ch: Seq<usize>| path_view(l, ch))
    }
}

spec fn layer_ready(l: LatticeView, cons: Seq<ConstraintView>, t: int, states: Seq<Vec<Prefix>>, k: int) -> bool {
    &&& states.len() == l.layers[t].candidates.len()
    &&& forall|s: int| 0 <= s < states.len() ==> top_k_of(l, state_pool(l, cons, t, s), choices_of(#[trigger] states[s]@), k)
    &&& forall|s: int, i: int| 0 <= s < states.len() && 0 <= i < states[s]@.len() ==> prefix_ok(l, #[trigger] states[s]@[i])
}

/// Every member of `r` ranks no better than the last one.
proof fn lemma_sorted_last(l: LatticeView, r: Seq<Seq<usize>>, v: Seq<usize>, i: int)
    requires
        forall|a: int, b: int| 0 <= a < b < r.len() ==> !ranks_before(l, #[trigger] r[b], #[trigger] r[a]),
        r.len() > 0,
        0 <= i < r.len(),
        !ranks_before(l, v, r.last()),
    ensures
        !ranks_before(l, v, r[i]),
{
    if ranks_before(l, v, r[i]) {
        lemma_rank_split(l, v, r.last(), r[i]);
        if i == r.len() - 1 {
            lemma_rank_irrefl(l, r[i]);
        }
    }
}

/// `n` distinct members of `[0, n)` cover it.
proof fn lemma_full_cover(idx: Seq<int>, n: int, j: int)
    requires
        idx.len() == n,
        idx.no_duplicates(),
        forall|m: int| 0 <= m < n ==> 0 <= #[trigger] idx[m] < n,
        0 <= j < n,
    ensures
        idx.contains(j),
{
    broadcast use vstd::seq_lib::seq_to_set_is_finite;
    if !idx.contains(j) {
        idx.unique_seq_to_set();
        lemma_int_range(0, n);
        let rest = set_int_range(0, n).remove(j);
        assert(idx.to_set().subset_of(rest));
        lemma_len_subset(idx.to_set(), rest);
    }
}

/// The selected entries of a duplicate-free sequence are duplicate-free.
proof fn lemma_selected_distinct(l: LatticeView, e: Seq<Seq<usize>>, idx: Seq<int>, r: Seq<Seq<usize>>, k: int)
    requires
        selected(l, e, idx, r, k),
        e.no_duplicates(),
    ensures
        r.no_duplicates(),
{
    assert forall|a: int, b: int| 0 <= a < r.len() && 0 <= b < r.len() && a != b implies r[a] != r[b] by {
        assert(idx[a] != idx[b]);
    }
}

/// A member of `e` that was not selected leaves `k` selected entries, none
/// ranking after it.
proof fn lemma_unselected(l: LatticeView, e: Seq<Seq<usize>>, idx: Seq<int>, r: Seq<Seq<usize>>, k: int, j: int)
    requires
        selected(l, e, idx, r, k),
        0 <= j < e.len(),
        !r.contains(e[j]),
    ensures
        r.len() == k,
        k > 0 ==> !ranks_before(l, e[j], r.last()),
{
    if idx.contains(j) {
        let m = choose|m: int| 0 <= m < idx.len() && idx[m] == j;
        assert(r[m] == e[j]);
    }
    if r.len() < k {
        lemma_full_cover(idx, e.len() as int, j);
    }
}

impl AnalysisLattice {
    /// Index of the edge into candidate `c` of layer `t` from candidate `p`
    /// of the layer before.
    fn incoming_edge(&self, t: usize, p: usize, c: usize) -> (r: Option<usize>)
        requires
            decodable(self@),
            1 <= t < self.layers.len(),
            p < self.layers@[t - 1].candidates.len(),
            c < self.layers@[t as int].candidates.len(),
        ensures
            match r {
                Some(j) => !starts_segment(self@, t as int) && j < self.transitions[t - 1].len() && incoming(
                    self@,
                    t as int,
                    p as int,
                    c as int,
                ) == Some(self.transitions[t - 1]@[j as int]@),
                None => incoming(self@, t as int, p as int, c as int) is None,
            },
    {
        if self.layers[t - 1].segment_id != self.layers[t].segment_id {
            return None;
        }
        assert(!starts_segment(self@, t as int));
        let edges = &self.transitions[t - 1];
        let found = find_edge(edges, &self.layers[t - 1].candidates[p].id, &self.layers[t].candidates[c].id);
        proof {
            let ev = edges@.map_values(|e: CandidateTransition| e@);
            assert(self@.transitions[t - 1] == ev);
            lemma_edge_from_range(ev, self@.layers[t - 1].candidates[p as int].id, self@.layers[t as int].candidates[c as int].id, 0);
        }
        found
    }

    /// The candidate's own prefix when the constraints allow it.
    fn first_states(&self, k: usize, constraints: &[CandidateConstraint]) -> (r: Vec<Vec<Prefix>>)
        requires
            decodable(self@),
            scores_bounded(self@),
            self.layers.len() > 0,
            k > 0,
        ensures
            layer_ready(self@, constraint_views(constraints@), 0, r@, k as int),
    {
        let ghost l = self@;
        let ghost cons = constraint_views(constraints@);
        let layer = &self.layers[0];
        let mut states: Vec<Vec<Prefix>> = Vec::new();
        let mut c: usize = 0;
        while c < layer.candidates.len()
            invariant
                l == self@,
                cons == constraint_views(constraints@),
                layer == self.layers@[0],
                self.layers.len() > 0,
                k > 0,
                c <= layer.candidates.len(),
                states.len() == c,
                forall|s: int| 0 <= s < c ==> top_k_of(l, state_pool(l, cons, 0, s), choices_of(#[trigger] states@[s]@), k as int),
                forall|s: int, i: int| 0 <= s < c && 0 <= i < states@[s]@.len() ==> prefix_ok(l, #[trigger] states@[s]@[i]),
            decreases layer.candidates.len() - c,
        {
            let candidate = &layer.candidates[c];
            let ghost pool = state_pool(l, cons, 0, c as int);
            if candidate_allowed(candidate, constraints) {
                let mut choices: Vec<usize> = Vec::new();
                choices.push(c);
                let entry = Prefix { choices, score: candidate.emission_score };
                proof {
                    let ch = entry.choices@;
                    assert(ch.drop_last() =~= Seq::<usize>::empty());
                    assert(prefix_score(l, Seq::<usize>::empty()) == 0);
                    assert(transition_score(l, 0, 0, c as int) == 0);
                    assert(prefix_score(l, ch) == candidate.emission_score);
                    assert(pool(ch));
                    assert forall|x: Seq<usize>| #[trigger] pool(x) implies x == ch by {
                        assert(x =~= ch);
                    }
                }
                let mut list: Vec<Prefix> = Vec::new();
                list.push(entry);
                proof {
                    let r = choices_of(list@);
                    assert(r.len() == 1 && r[0] == entry.choices@);
                    assert(r.no_duplicates());
                    assert forall|x: Seq<usize>| #[trigger] pool(x) && !r.contains(x) implies false by {
                        assert(x == entry.choices@);
                        assert(r[0] == x);
                    }
                }
                states.push(list);
            } else {
                let list: Vec<Prefix> = Vec::new();
                proof {
                    let r = choices_of(list@);
                    assert(r =~= Seq::<Seq<usize>>::empty());
                    assert forall|x: Seq<usize>| #[trigger] pool(x) implies false by {
                        assert(allowed(cand(l, 0, x[0] as int), cons));
                    }
                }
                states.push(list);
            }
            c = c + 1;
        }
        states
    }
}


/// The prefixes of a layer extended by candidate `s` of the next layer,
/// block by block.
spec fn extended_blocks(
    l: LatticeView,
    states: Seq<Vec<Prefix>>,
    s: usize,
    e: Seq<Seq<usize>>,
    off: Seq<int>,
    owner: Seq<int>,
    pos: Seq<int>,
    p: int,
) -> bool {
    &&& off.len() == p
    &&& owner.len() == e.len()
    &&& pos.len() == e.len()
    &&& forall|q: int| 0 <= q < p ==> 0 <= #[trigger] off[q] && off[q] + states[q]@.len() <= e.len()
    &&& forall|q: int, i: int|
        0 <= q < p && 0 <= i < states[q]@.len() ==> e[off[q] + i] == (#[trigger] choices_of(states[q]@)[i]).push(s)
    &&& forall|j: int|
        0 <= j < e.len() ==> 0 <= #[trigger] owner[j] < p && 0 <= pos[j] < states[owner[j]]@.len() && j == off[owner[j]]
            + pos[j] && e[j] == choices_of(states[owner[j]]@)[pos[j]].push(s)
}

impl AnalysisLattice {
    /// The best `k` prefixes through layer `t` that end at candidate `s`,
    /// from the best `k` through layer `t - 1` for each candidate there.
    fn extend_state(
        &self,
        states: &Vec<Vec<Prefix>>,
        t: usize,
        s: usize,
        k: usize,
        constraints: &[CandidateConstraint],
    ) -> (r: Vec<Prefix>)
        requires
            decodable(self@),
            scores_bounded(self@),
            1 <= t < self.layers.len(),
            s < self.layers@[t as int].candidates.len(),
            allowed(cand(self@, t as int, s as int), constraint_views(constraints@)),
            k > 0,
            layer_ready(self@, constraint_views(constraints@), t - 1, states@, k as int),
        ensures
            top_k_of(self@, state_pool(self@, constraint_views(constraints@), t as int, s as int), choices_of(r@), k as int),
            forall|i: int| 0 <= i < r.len() ==> prefix_ok(self@, #[trigger] r@[i]),
    {
        let ghost l = self@;
        let ghost cons = constraint_views(constraints@);
        let ghost prev = state_pool(l, cons, t - 1, 0);
        let ghost pool = state_pool(l, cons, t as int, s as int);
        let emission = self.layers[t].candidates[s].emission_score;
        let mut expanded: Vec<Prefix> = Vec::new();
        let ghost mut off: Seq<int> = Seq::empty();
        let ghost mut owner: Seq<int> = Seq::empty();
        let ghost mut pos: Seq<int> = Seq::empty();
        let mut p: usize = 0;
        while p < states.len()
            invariant
                l == self@,
                cons == constraint_views(constraints@),
                pool == state_pool(l, cons, t as int, s as int),
                decodable(l),
                scores_bounded(l),
                1 <= t < self.layers.len(),
                s < self.layers@[t as int].candidates.len(),
                allowed(cand(l, t as int, s as int), cons),
                emission == cand(l, t as int, s as int).emission_score,
                layer_ready(l, cons, t - 1, states@, k as int),
                p <= states.len(),
                extended_blocks(l, states@, s, choices_of(expanded@), off, owner, pos, p as int),
                forall|j: int| 0 <= j < expanded.len() ==> prefix_ok(l, #[trigger] expanded@[j]),
            decreases states.len() - p,
        {
            let edge = self.incoming_edge(t, p, s);
            let ts: i128 = match edge {
                Some(j) => self.transitions[t - 1][j].score,
                None => 0,
            };
            assert(ts == transition_score(l, t as int, p as int, s as int));
            let ghost start = expanded.len() as int;
            proof {
                off = off.push(start);
            }
            let list = &states[p];
            let mut i: usize = 0;
            while i < list.len()
                invariant
                    l == self@,
                    cons == constraint_views(constraints@),
                    decodable(l),
                    scores_bounded(l),
                    1 <= t < self.layers.len(),
                    s < self.layers@[t as int].candidates.len(),
                    allowed(cand(l, t as int, s as int), cons),
                    emission == cand(l, t as int, s as int).emission_score,
                    ts == transition_score(l, t as int, p as int, s as int),
                    layer_ready(l, cons, t - 1, states@, k as int),
                    p < states.len(),
                    list == states@[p as int],
                    i <= list.len(),
                    off.len() == p + 1,
                    off[p as int] == start,
                    0 <= start,
                    expanded.len() == start + i,
                    extended_blocks(l, states@, s, choices_of(expanded@).take(start), off.take(p as int), owner.take(start), pos.take(start), p as int),
                    owner.len() == expanded.len(),
                    pos.len() == expanded.len(),
                    forall|j: int| start <= j < expanded.len() ==> #[trigger] owner[j] == p && pos[j] == j - start,
                    forall|a: int| 0 <= a < i ==> choices_of(expanded@)[start + a] == (#[trigger] choices_of(list@)[a]).push(s),
                    forall|j: int| 0 <= j < expanded.len() ==> prefix_ok(l, #[trigger] expanded@[j]),
                decreases list.len() - i,
            {
                let entry = &list[i];
                let ghost ch = entry.choices@;
                proof {
                    assert(prefix_ok(l, states@[p as int]@[i as int]));
                    assert(choices_of(states@[p as int]@)[i as int] == ch);
                    assert(state_pool(l, cons, t - 1, p as int)(ch));
                    lemma_prefix_bounded(l, ch);
                    assert(ch.len() == t);
                    lemma_step_bounded(l, t as int, p as int, s as int);
                    assert(-0x400_0000_0000_0000_0000 <= cand(l, t as int, s as int).emission_score);
                    assert((t as int) * 0x800_0000_0000_0000_0000 <= 0x4_0000_0000_0000 * 0x800_0000_0000_0000_0000) by (nonlinear_arith)
                        requires t <= 0x4_0000_0000_0000;
                }
                let mut choices = crate::domain::quality::copy_values(&entry.choices);
                choices.push(s);
                let score = entry.score + emission + ts;
                let next = Prefix { choices, score };
                proof {
                    let ext = next.choices@;
                    assert(ext =~= ch.push(s));
                    assert(ext.drop_last() =~= ch);
                    assert(before_of(ext, t as int) == p);
                    assert(in_lattice(l, ext));
                    assert(prefix_score(l, ext) == score);
                }
                let ghost before_e = choices_of(expanded@);
                expanded.push(next);
                proof {
                    let (old_owner, old_pos) = (owner, pos);
                    owner = owner.push(p as int);
                    pos = pos.push(i as int);
                    assert(choices_of(expanded@) =~= before_e.push(ch.push(s)));
                    assert(before_e.len() == start + i);
                    assert(choices_of(expanded@).take(start) =~= before_e.take(start));
                    assert(owner.take(start) =~= old_owner.take(start));
                    assert(pos.take(start) =~= old_pos.take(start));
                }
                i = i + 1;
            }
            proof {
                let e = choices_of(expanded@);
                let e0 = e.take(start);
                assert(off.take(p as int).push(start) =~= off);
                assert forall|q: int| 0 <= q < p + 1 implies 0 <= #[trigger] off[q] && off[q] + states@[q]@.len() <= e.len() by {
                    if q < p {
                        assert(off.take(p as int)[q] == off[q]);
                    }
                }
                assert forall|q: int, a: int|
                    0 <= q < p + 1 && 0 <= a < states@[q]@.len() implies e[off[q] + a] == (#[trigger] choices_of(
                        states@[q]@,
                    )[a]).push(s) by {
                    if q < p {
                        assert(off.take(p as int)[q] == off[q]);
                        assert(e0[off[q] + a] == e[off[q] + a]);
                    }
                }
                assert forall|j: int| 0 <= j < e.len() implies 0 <= #[trigger] owner[j] < p + 1 && 0 <= pos[j]
                    < states@[owner[j]]@.len() && j == off[owner[j]] + pos[j] && e[j] == choices_of(
                    states@[owner[j]]@,
                )[pos[j]].push(s) by {
                    if j < start {
                        assert(owner.take(start)[j] == owner[j]);
                        assert(pos.take(start)[j] == pos[j]);
                        assert(e0[j] == e[j]);
                        assert(off.take(p as int)[owner[j]] == off[owner[j]]);
                    } else {
                        assert(choices_of(list@)[j - start] == choices_of(states@[p as int]@)[j - start]);
                    }
                }
            }
            p = p + 1;
        }
        let (best, Ghost(idx)) = self.select_best(&expanded, k);
        proof {
            let e = choices_of(expanded@);
            let r = choices_of(best@);
            assert forall|j: int| 0 <= j < e.len() implies #[trigger] pool(e[j]) by {
                let q = owner[j];
                let ch = choices_of(states@[q]@)[pos[j]];
                assert(state_pool(l, cons, t - 1, q)(ch));
                assert forall|u: int| 0 <= u < e[j].len() implies allowed(cand(l, u, #[trigger] e[j][u] as int), cons) by {
                    if u < t {
                        assert(e[j][u] == ch[u]);
                    }
                }
            }
            assert forall|j1: int, j2: int| 0 <= j1 < e.len() && 0 <= j2 < e.len() && j1 != j2 implies e[j1] != e[j2] by {
                let (q1, q2) = (owner[j1], owner[j2]);
                let c1 = choices_of(states@[q1]@)[pos[j1]];
                let c2 = choices_of(states@[q2]@)[pos[j2]];
                assert(state_pool(l, cons, t - 1, q1)(c1));
                assert(state_pool(l, cons, t - 1, q2)(c2));
                if e[j1] == e[j2] {
                    assert(e[j1][t - 1] == c1[t - 1]);
                    assert(e[j2][t - 1] == c2[t - 1]);
                    assert(e[j1].drop_last() =~= c1);
                    assert(e[j2].drop_last() =~= c2);
                    assert(top_k_of(l, state_pool(l, cons, t - 1, q1), choices_of(states@[q1]@), k as int));
                }
            }
            assert(e.no_duplicates());
            lemma_selected_distinct(l, e, idx, r, k as int);
            assert forall|ch: Seq<usize>| #[trigger] pool(ch) && !r.contains(ch) implies r.len() == k && !ranks_before(
                l,
                ch,
                r.last(),
            ) by {
                let pre = ch.drop_last();
                let q = ch[t - 1] as int;
                assert(in_lattice(l, ch));
                assert(state_pool(l, cons, t - 1, q)(pre));
                let kq = choices_of(states@[q]@);
                assert(top_k_of(l, state_pool(l, cons, t - 1, q), kq, k as int));
                assert(pre.push(s) =~= ch);
                if kq.contains(pre) {
                    let a = choose|a: int| 0 <= a < kq.len() && kq[a] == pre;
                    assert(e[off[q] + a] == ch);
                    lemma_unselected(l, e, idx, r, k as int, off[q] + a);
                } else {
                    assert(kq.len() == k);
                    assert forall|a: int| 0 <= a < k implies !ranks_before(l, ch, #[trigger] e[off[q] + a]) by {
                        lemma_sorted_last(l, kq, pre, a);
                        assert(state_pool(l, cons, t - 1, q)(kq[a]));
                        lemma_rank_extend(l, pre, kq[a], s);
                        assert(e[off[q] + a] == kq[a].push(s));
                    }
                    lemma_selection_covers(l, e, idx, r, k as int, off[q], ch);
                }
            }
            assert(r.len() <= k);
            assert forall|i: int| 0 <= i < r.len() implies pool(#[trigger] r[i]) by {
                assert(r[i] == e[idx[i]]);
                assert(pool(e[idx[i]]));
            }
            assert(forall|i: int, j: int| 0 <= i < j < r.len() ==> !ranks_before(l, #[trigger] r[j], #[trigger] r[i]));
        }
        best
    }
}


/// The prefixes of a layer laid end to end, block by block.
spec fn flat_blocks(
    states: Seq<Vec<Prefix>>,
    e: Seq<Seq<usize>>,
    off: Seq<int>,
    owner: Seq<int>,
    pos: Seq<int>,
    p: int,
) -> bool {
    &&& off.len() == p
    &&& owner.len() == e.len()
    &&& pos.len() == e.len()
    &&& forall|q: int| 0 <= q < p ==> 0 <= #[trigger] off[q] && off[q] + states[q]@.len() <= e.len()
    &&& forall|q: int, i: int|
        0 <= q < p && 0 <= i < states[q]@.len() ==> e[off[q] + i] == #[trigger] choices_of(states[q]@)[i]
    &&& forall|j: int|
        0 <= j < e.len() ==> 0 <= #[trigger] owner[j] < p && 0 <= pos[j] < states[owner[j]]@.len() && j == off[owner[j]]
            + pos[j] && e[j] == choices_of(states[owner[j]]@)[pos[j]]
}

proof fn lemma_lattice_bounded(lat: &AnalysisLattice)
    requires
        decodable(lat@),
    ensures
        scores_bounded(lat@),
{
}

/// `dst` followed by copies of `src`.
fn append_evidence(dst: &mut Vec<ScoreEvidence>, src: &Vec<ScoreEvidence>)
    ensures
        evidence_views(final(dst)@) == evidence_views(old(dst)@) + evidence_views(src@),
{
    let ghost start = evidence_views(dst@);
    let mut i: usize = 0;
    while i < src.len()
        invariant
            i <= src.len(),
            evidence_views(dst@) == start + evidence_views(src@).take(i as int),
        decreases src.len() - i,
    {
        let ghost before = dst@;
        dst.push(src[i].duplicate());
        assert(evidence_views(dst@) =~= evidence_views(before).push(src@[i as int]@));
        assert(evidence_views(src@).take(i + 1) =~= evidence_views(src@).take(i as int).push(src@[i as int]@));
        i = i + 1;
    }
    assert(evidence_views(src@).take(src.len() as int) =~= evidence_views(src@));
}

/// Copies of the classifications, in order.
fn copy_classifications(v: &Vec<HarmonicClassification>) -> (r: Vec<HarmonicClassification>)
    ensures
        classification_views(r@) == classification_views(v@),
{
    let mut r: Vec<HarmonicClassification> = Vec::new();
    let mut i: usize = 0;
    while i < v.len()
        invariant
            i <= v.len(),
            r@.len() == i,
            forall|a: int| 0 <= a < i ==> (#[trigger] r@[a])@ == v@[a]@,
        decreases v.len() - i,
    {
        r.push(v[i].duplicate());
        i = i + 1;
    }
    assert(classification_views(r@) =~= classification_views(v@));
    r
}

fn copy_reading(b: &Option<BlackadderInterpretation>) -> (r: Option<BlackadderInterpretation>)
    ensures
        reading_view(r) == reading_view(*b),
{
    match b {
        Some(x) => Some(x.duplicate()),
        None => None,
    }
}

impl PathSelection {
    /// A copy of the same selection.
    pub fn duplicate(&self) -> (r: Self)
        ensures
            r@ == self@,
    {
        PathSelection {
            event_index: self.event_index,
            candidate_id: self.candidate_id.clone(),
            label: self.label.clone(),
            hybrid_kind: self.hybrid_kind,
            blackadder: copy_reading(&self.blackadder),
            harmonic_classifications: copy_classifications(&self.harmonic_classifications),
            emission_score: self.emission_score,
            transition_score: self.transition_score,
            step_score: self.step_score,
            cumulative_score: self.cumulative_score,
            evidence: crate::analysis::evidence::duplicate_evidence(&self.evidence),
        }
    }
}

impl AnalysisLattice {
    /// The path that chooses candidate `ch[u]` at each layer `u`.
    fn path_of(&self, ch: &Vec<usize>) -> (r: AnalysisPath)
        requires
            decodable(self@),
            scores_bounded(self@),
            in_lattice(self@, ch@),
        ensures
            r@ == path_view(self@, ch@),
    {
        let ghost l = self@;
        let mut selections: Vec<PathSelection> = Vec::new();
        let mut evidence: Vec<ScoreEvidence> = Vec::new();
        let mut total: i128 = 0;
        let mut u: usize = 0;
        assert(ch@.take(0) =~= Seq::<usize>::empty());
        while u < ch.len()
            invariant
                l == self@,
                decodable(l),
                scores_bounded(l),
                in_lattice(l, ch@),
                u <= ch.len(),
                selections@.len() == u,
                forall|v: int| 0 <= v < u ==> (#[trigger] selections@[v])@ == selection_of(l, ch@, v),
                total == prefix_score(l, ch@.take(u as int)),
                evidence_views(evidence@) == path_evidence(l, ch@.take(u as int)),
            decreases ch.len() - u,
        {
            let c = ch[u];
            assert((c as int) < l.layers[u as int].candidates.len());
            let candidate = &self.layers[u].candidates[c];
            let edge = if u == 0 {
                None
            } else {
                assert((ch@[u - 1] as int) < l.layers[u - 1].candidates.len());
                self.incoming_edge(u, ch[u - 1], c)
            };
            let ghost p = before_of(ch@, u as int);
            let mut own = crate::analysis::evidence::duplicate_evidence(&candidate.evidence);
            let ts: i128 = match edge {
                Some(j) => {
                    append_evidence(&mut own, &self.transitions[u - 1][j].evidence);
                    self.transitions[u - 1][j].score
                },
                None => 0,
            };
            proof {
                assert(ts == transition_score(l, u as int, p, c as int));
                assert(evidence_views(own@) == cand(l, u as int, c as int).evidence + transition_evidence(l, u as int, p, c as int));
                let pre = ch@.take(u as int);
                let next = ch@.take(u + 1);
                assert(next.drop_last() =~= pre);
                assert(before_of(next, u as int) == p);
                assert(in_lattice(l, pre));
                lemma_prefix_bounded(l, pre);
                lemma_step_bounded(l, u as int, p, c as int);
                assert(-0x400_0000_0000_0000_0000 <= cand(l, u as int, c as int).emission_score);
                assert((u as int) * 0x800_0000_0000_0000_0000 <= 0x4_0000_0000_0000 * 0x800_0000_0000_0000_0000) by (nonlinear_arith)
                    requires u <= 0x4_0000_0000_0000;
                assert(selection_of(l, next, u as int) == selection_of(l, ch@, u as int)) by {
                    assert(next.take(u + 1) =~= ch@.take(u + 1));
                }
            }
            let step = candidate.emission_score + ts;
            total = total + step;
            append_evidence(&mut evidence, &own);
            let selection = PathSelection {
                event_index: candidate.event_index,
                candidate_id: candidate.id.clone(),
                label: candidate.label.clone(),
                hybrid_kind: candidate.hybrid_kind,
                blackadder: copy_reading(&candidate.blackadder),
                harmonic_classifications: copy_classifications(&candidate.harmonic_classifications),
                emission_score: candidate.emission_score,
                transition_score: ts,
                step_score: step,
                cumulative_score: total,
                evidence: own,
            };
            selections.push(selection);
            u = u + 1;
        }
        proof {
            assert(ch@.take(ch.len() as int) =~= ch@);
            assert(selections@.map_values(|x: PathSelection| x@) =~= Seq::new(ch@.len(), |v: int| selection_of(l, ch@, v)));
        }
        AnalysisPath { selections, total_score: total, evidence }
    }

    /// Decode the `k` best complete paths: `k = 1` is Viterbi decoding.
    pub fn decode_top_k(&self, k: usize) -> (r: Vec<AnalysisPath>)
        requires
            decodable(self@),
        ensures
            decoded(self@, Seq::empty(), k as int, path_views(r@)),
    {
        let none: Vec<CandidateConstraint> = Vec::new();
        let r = self.decode_top_k_conditioned(k, none.as_slice());
        assert(constraint_views(none@) =~= Seq::empty());
        r
    }

    /// Decode the `k` best complete paths after pinning some events to one
    /// candidate each.
    pub fn decode_top_k_conditioned(&self, k: usize, constraints: &[CandidateConstraint]) -> (r: Vec<AnalysisPath>)
        requires
            decodable(self@),
        ensures
            decoded(self@, constraint_views(constraints@), k as int, path_views(r@)),
    {
        if k == 0 || self.layers.len() == 0 {
            return Vec::new();
        }
        let ghost l = self@;
        let ghost cons = constraint_views(constraints@);
        proof {
            lemma_lattice_bounded(self);
        }
        let mut states = self.first_states(k, constraints);
        let mut t: usize = 1;
        while t < self.layers.len()
            invariant
                l == self@,
                cons == constraint_views(constraints@),
                decodable(l),
                scores_bounded(l),
                k > 0,
                1 <= t <= self.layers.len(),
                layer_ready(l, cons, t - 1, states@, k as int),
            decreases self.layers.len() - t,
        {
            let mut next: Vec<Vec<Prefix>> = Vec::new();
            let mut s: usize = 0;
            while s < self.layers[t].candidates.len()
                invariant
                    l == self@,
                    cons == constraint_views(constraints@),
                    decodable(l),
                    scores_bounded(l),
                    k > 0,
                    1 <= t < self.layers.len(),
                    layer_ready(l, cons, t - 1, states@, k as int),
                    s <= self.layers@[t as int].candidates.len(),
                    next.len() == s,
                    forall|q: int| 0 <= q < s ==> top_k_of(l, state_pool(l, cons, t as int, q), choices_of(#[trigger] next@[q]@), k as int),
                    forall|q: int, i: int| 0 <= q < s && 0 <= i < next@[q]@.len() ==> prefix_ok(l, #[trigger] next@[q]@[i]),
                decreases self.layers@[t as int].candidates.len() - s,
            {
                if candidate_allowed(&self.layers[t].candidates[s], constraints) {
                    let best = self.extend_state(&states, t, s, k, constraints);
                    next.push(best);
                } else {
                    let none: Vec<Prefix> = Vec::new();
                    proof {
                        let pool = state_pool(l, cons, t as int, s as int);
                        assert(choices_of(none@) =~= Seq::<Seq<usize>>::empty());
                        assert forall|x: Seq<usize>| #[trigger] pool(x) implies false by {
                            assert(allowed(cand(l, t as int, x[t as int] as int), cons));
                        }
                    }
                    next.push(none);
                }
                s = s + 1;
            }
            states = next;
            t = t + 1;
        }
        let ghost n = self.layers.len() as int;
        let mut flat: Vec<Prefix> = Vec::new();
        let ghost mut off: Seq<int> = Seq::empty();
        let ghost mut owner: Seq<int> = Seq::empty();
        let ghost mut pos: Seq<int> = Seq::empty();
        let mut q: usize = 0;
        while q < states.len()
            invariant
                l == self@,
                cons == constraint_views(constraints@),
                decodable(l),
                scores_bounded(l),
                n == l.layers.len(),
                layer_ready(l, cons, n - 1, states@, k as int),
                q <= states.len(),
                flat_blocks(states@, choices_of(flat@), off, owner, pos, q as int),
                forall|j: int| 0 <= j < flat.len() ==> prefix_ok(l, #[trigger] flat@[j]),
            decreases states.len() - q,
        {
            let ghost start = flat.len() as int;
            proof {
                off = off.push(start);
            }
            let list = &states[q];
            let mut i: usize = 0;
            while i < list.len()
                invariant
                    l == self@,
                    n == l.layers.len(),
                    layer_ready(l, cons, n - 1, states@, k as int),
                    q < states.len(),
                    list == states@[q as int],
                    i <= list.len(),
                    off.len() == q + 1,
                    off[q as int] == start,
                    0 <= start,
                    flat.len() == start + i,
                    flat_blocks(states@, choices_of(flat@).take(start), off.take(q as int), owner.take(start), pos.take(start), q as int),
                    owner.len() == flat.len(),
                    pos.len() == flat.len(),
                    forall|j: int| start <= j < flat.len() ==> #[trigger] owner[j] == q && pos[j] == j - start,
                    forall|a: int| 0 <= a < i ==> choices_of(flat@)[start + a] == #[trigger] choices_of(list@)[a],
                    forall|j: int| 0 <= j < flat.len() ==> prefix_ok(l, #[trigger] flat@[j]),
                decreases list.len() - i,
            {
                let entry = &list[i];
                proof {
                    assert(prefix_ok(l, states@[q as int]@[i as int]));
                }
                let copy = Prefix { choices: crate::domain::quality::copy_values(&entry.choices), score: entry.score };
                let ghost before_e = choices_of(flat@);
                flat.push(copy);
                proof {
                    let (old_owner, old_pos) = (owner, pos);
                    owner = owner.push(q as int);
                    pos = pos.push(i as int);
                    assert(choices_of(flat@) =~= before_e.push(entry.choices@));
                    assert(before_e.len() == start + i);
                    assert(choices_of(flat@).take(start) =~= before_e.take(start));
                    assert(owner.take(start) =~= old_owner.take(start));
                    assert(pos.take(start) =~= old_pos.take(start));
                }
                i = i + 1;
            }
            proof {
                let e = choices_of(flat@);
                let e0 = e.take(start);
                assert(off.take(q as int).push(start) =~= off);
                assert forall|b: int| 0 <= b < q + 1 implies 0 <= #[trigger] off[b] && off[b] + states@[b]@.len() <= e.len() by {
                    if b < q {
                        assert(off.take(q as int)[b] == off[b]);
                    }
                }
                assert forall|b: int, a: int| 0 <= b < q + 1 && 0 <= a < states@[b]@.len() implies e[off[b] + a]
                    == #[trigger] choices_of(states@[b]@)[a] by {
                    if b < q {
                        assert(off.take(q as int)[b] == off[b]);
                        assert(e0[off[b] + a] == e[off[b] + a]);
                    }
                }
                assert forall|j: int| 0 <= j < e.len() implies 0 <= #[trigger] owner[j] < q + 1 && 0 <= pos[j]
                    < states@[owner[j]]@.len() && j == off[owner[j]] + pos[j] && e[j] == choices_of(
                    states@[owner[j]]@,
                )[pos[j]] by {
                    if j < start {
                        assert(owner.take(start)[j] == owner[j]);
                        assert(pos.take(start)[j] == pos[j]);
                        assert(e0[j] == e[j]);
                        assert(off.take(q as int)[owner[j]] == off[owner[j]]);
                    } else {
                        assert(choices_of(list@)[j - start] == choices_of(states@[q as int]@)[j - start]);
                    }
                }
            }
            q = q + 1;
        }
        let (best, Ghost(idx)) = self.select_best(&flat, k);
        let ghost chosen = choices_of(best@);
        proof {
            let e = choices_of(flat@);
            let r = chosen;
            let pool = path_pool(l, cons);
            assert forall|j: int| 0 <= j < e.len() implies #[trigger] pool(e[j]) by {
                assert(state_pool(l, cons, n - 1, owner[j])(e[j]));
            }
            assert forall|j1: int, j2: int| 0 <= j1 < e.len() && 0 <= j2 < e.len() && j1 != j2 implies e[j1] != e[j2] by {
                assert(state_pool(l, cons, n - 1, owner[j1])(e[j1]));
                assert(state_pool(l, cons, n - 1, owner[j2])(e[j2]));
                assert(top_k_of(l, state_pool(l, cons, n - 1, owner[j1]), choices_of(states@[owner[j1]]@), k as int));
            }
            assert(e.no_duplicates());
            lemma_selected_distinct(l, e, idx, r, k as int);
            assert forall|ch: Seq<usize>| #[trigger] pool(ch) && !r.contains(ch) implies r.len() == k && !ranks_before(
                l,
                ch,
                r.last(),
            ) by {
                let b = ch[n - 1] as int;
                assert(in_lattice(l, ch));
                assert(state_pool(l, cons, n - 1, b)(ch));
                let kb = choices_of(states@[b]@);
                assert(top_k_of(l, state_pool(l, cons, n - 1, b), kb, k as int));
                if kb.contains(ch) {
                    let a = choose|a: int| 0 <= a < kb.len() && kb[a] == ch;
                    assert(e[off[b] + a] == ch);
                    lemma_unselected(l, e, idx, r, k as int, off[b] + a);
                } else {
                    assert(kb.len() == k);
                    assert forall|a: int| 0 <= a < k implies !ranks_before(l, ch, #[trigger] e[off[b] + a]) by {
                        lemma_sorted_last(l, kb, ch, a);
                        assert(e[off[b] + a] == kb[a]);
                    }
                    lemma_selection_covers(l, e, idx, r, k as int, off[b], ch);
                }
            }
            assert forall|i: int| 0 <= i < r.len() implies pool(#[trigger] r[i]) by {
                assert(r[i] == e[idx[i]]);
                assert(pool(e[idx[i]]));
            }
            assert(top_k_of(l, pool, r, k as int));
        }
        let mut paths: Vec<AnalysisPath> = Vec::new();
        let mut m: usize = 0;
        while m < best.len()
            invariant
                l == self@,
                decodable(l),
                scores_bounded(l),
                chosen == choices_of(best@),
                forall|a: int| 0 <= a < best.len() ==> prefix_ok(l, #[trigger] best@[a]),
                m <= best.len(),
                paths@.len() == m,
                forall|a: int| 0 <= a < m ==> (#[trigger] paths@[a])@ == path_view(l, chosen[a]),
            decreases best.len() - m,
        {
            assert(prefix_ok(l, best@[m as int]));
            paths.push(self.path_of(&best[m].choices));
            m = m + 1;
        }
        proof {
            assert(path_views(paths@) =~= chosen.map_values(|ch: Seq<usize>| path_view(l, ch)));
        }
        paths
    }

    /// The `k` best interpretation paths; built-in lattices hold semantic
    /// states only, so this is `decode_top_k`.
    pub fn decode_top_k_interpretations(&self, k: usize) -> (r: Vec<AnalysisPath>)
        requires
            decodable(self@),
        ensures
            decoded(self@, Seq::empty(), k as int, path_views(r@)),
    {
        self.decode_top_k(k)
    }

    pub fn decode_top_k_interpretations_conditioned(&self, k: usize, constraints: &[CandidateConstraint]) -> (r: Vec<
        AnalysisPath,
    >)
        requires
            decodable(self@),
        ensures
            decoded(self@, constraint_views(constraints@), k as int, path_views(r@)),
    {
        self.decode_top_k_conditioned(k, constraints)
    }
}


// ---------------------------------------------------------------------
// Laws of decoding.

/// The first decoded path scores at least as high as every complete path
/// the constraints allow: `k = 1` is Viterbi decoding.
pub proof fn lemma_first_path_is_best(l: LatticeView, cons: Seq<ConstraintView>, k: int, r: Seq<PathView>, ch: Seq<usize>)
    requires
        decoded(l, cons, k, r),
        k > 0,
        l.layers.len() > 0,
        path_pool(l, cons)(ch),
    ensures
        r.len() > 0,
        prefix_score(l, ch) <= r[0].total_score,
{
    let chs = choose|chs: Seq<Seq<usize>>|
        top_k_of(l, path_pool(l, cons), chs, k) && r == chs.map_values(|c: Seq<usize>| path_view(l, c));
    if chs.contains(ch) {
        let i = choose|i: int| 0 <= i < chs.len() && chs[i] == ch;
        if i > 0 {
            assert(!ranks_before(l, chs[i], chs[0]));
        }
    } else {
        assert(path_pool(l, cons)(ch));
        lemma_sorted_last(l, chs, ch, 0);
    }
}

/// A ranking of one path and a longer ranking of the same lattice under the
/// same constraints agree on the best score: one is empty exactly when the
/// other is, and otherwise their first paths score the same. (The compact
/// display reads the one-path ranking.)
pub proof fn lemma_best_path_agrees(
    l: LatticeView,
    cons: Seq<ConstraintView>,
    k: int,
    first: Seq<PathView>,
    ranked: Seq<PathView>,
)
    requires
        decoded(l, cons, 1, first),
        decoded(l, cons, k, ranked),
        k > 0,
    ensures
        first.len() > 0 <==> ranked.len() > 0,
        first.len() > 0 ==> first[0].total_score == ranked[0].total_score,
{
    if l.layers.len() > 0 {
        let c1 = choose|chs: Seq<Seq<usize>>|
            top_k_of(l, path_pool(l, cons), chs, 1) && first == chs.map_values(|c: Seq<usize>| path_view(l, c));
        let ck = choose|chs: Seq<Seq<usize>>|
            top_k_of(l, path_pool(l, cons), chs, k) && ranked == chs.map_values(|c: Seq<usize>| path_view(l, c));
        if c1.len() > 0 {
            assert(path_pool(l, cons)(c1[0]));
            lemma_first_path_is_best(l, cons, k, ranked, c1[0]);
        }
        if ck.len() > 0 {
            assert(path_pool(l, cons)(ck[0]));
            lemma_first_path_is_best(l, cons, 1, first, ck[0]);
        }
    }
}

/// Decoded paths come best first: their total scores never increase.
pub proof fn lemma_decoded_scores_descend(l: LatticeView, cons: Seq<ConstraintView>, k: int, r: Seq<PathView>, i: int, j: int)
    requires
        decoded(l, cons, k, r),
        0 <= i < j < r.len(),
    ensures
        r[j].total_score <= r[i].total_score,
{
    let chs = choose|chs: Seq<Seq<usize>>|
        top_k_of(l, path_pool(l, cons), chs, k) && r == chs.map_values(|c: Seq<usize>| path_view(l, c));
    assert(!ranks_before(l, chs[j], chs[i]));
}

/// Every selection of a decoded path is one the constraints allow: where a
/// constraint pins its event, the pinned candidate was chosen.
pub proof fn lemma_decoded_respects_constraints(
    l: LatticeView,
    cons: Seq<ConstraintView>,
    k: int,
    r: Seq<PathView>,
    i: int,
    u: int,
)
    requires
        decoded(l, cons, k, r),
        0 <= i < r.len(),
        0 <= u < r[i].selections.len(),
        constraint_from(cons, r[i].selections[u].event_index, 0) >= 0,
    ensures
        r[i].selections[u].candidate_id == cons[constraint_from(cons, r[i].selections[u].event_index, 0)].candidate_id,
{
    let chs = choose|chs: Seq<Seq<usize>>|
        top_k_of(l, path_pool(l, cons), chs, k) && r == chs.map_values(|c: Seq<usize>| path_view(l, c));
    let ch = chs[i];
    assert(path_pool(l, cons)(ch));
    assert(allowed(cand(l, u, ch[u] as int), cons));
}

/// Along a path, each step adds emission and transition, and the
/// cumulative score after the last step is the path's total.
pub proof fn lemma_path_scores_add_up(l: LatticeView, ch: Seq<usize>, u: int)
    requires
        0 <= u < ch.len(),
    ensures
        path_view(l, ch).selections[u].step_score == path_view(l, ch).selections[u].emission_score + path_view(
            l,
            ch,
        ).selections[u].transition_score,
        path_view(l, ch).selections[u].cumulative_score == (if u == 0 {
            0
        } else {
            path_view(l, ch).selections[u - 1].cumulative_score
        }) + path_view(l, ch).selections[u].step_score,
        u == ch.len() - 1 ==> path_view(l, ch).selections[u].cumulative_score == path_view(l, ch).total_score,
{
    let next = ch.take(u + 1);
    assert(next.drop_last() =~= ch.take(u));
    assert(before_of(next, u) == before_of(ch, u));
    assert(next[u] == ch[u]);
    if u == 0 {
        assert(ch.take(0) =~= Seq::<usize>::empty());
        assert(prefix_score(l, Seq::<usize>::empty()) == 0);
    }
    assert(prefix_score(l, next) == prefix_score(l, ch.take(u)) + step_score(l, u, before_of(ch, u), ch[u] as int));
    if u > 0 {
        assert(path_view(l, ch).selections[u - 1].cumulative_score == prefix_score(l, ch.take(u)));
    }
    if u == ch.len() - 1 {
        assert(next =~= ch);
    }
}

} // verus!
