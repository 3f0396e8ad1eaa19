//! Explainable score contributions.
//!
//! Scores are kept in hundredths of a point: every weight the rule set uses
//! is a multiple of `0.01`, so sums and comparisons are exact.

use vstd::prelude::*;

verus! {

/// Abstract form of one contribution.
pub struct EvidenceView {
    pub rule_id: Seq<char>,
    pub contribution: int,
    pub explanation: Seq<char>,
}

#[derive(Clone, Debug, PartialEq)]
/// One independently inspectable contribution to a candidate.
pub struct ScoreEvidence {
    pub rule_id: String,
    /// Contribution in hundredths of a point.
    pub contribution: i64,
    pub explanation: String,
}

impl View for ScoreEvidence {
    type V = EvidenceView;

    open spec fn view(&self) -> EvidenceView {
        EvidenceView { rule_id: self.rule_id@, contribution: self.contribution as int, explanation: self.explanation@ }
    }
}

/// Copies of every entry, in order.
pub fn duplicate_evidence(v: &Vec<ScoreEvidence>) -> (r: Vec<ScoreEvidence>)
    ensures
        r@.map_values(|e: ScoreEvidence| e@) == v@.map_values(|e: ScoreEvidence| e@),
{
    let mut r: Vec<ScoreEvidence> = Vec::new();
    let mut i: usize = 0;
    while i < v.len()
        invariant
            i <= v.len(),
            r@.len() == i,
            forall|k: int| 0 <= k < i ==> (#[trigger] r@[k])@ == v@[k]@,
        decreases v.len() - i,
    {
        r.push(v[i].duplicate());
        i = i + 1;
    }
    assert(r@.map_values(|e: ScoreEvidence| e@) =~= v@.map_values(|e: ScoreEvidence| e@));
    r
}

impl ScoreEvidence {
    /// A copy with the same rule, contribution and explanation.
    pub fn duplicate(&self) -> (r: Self)
        ensures
            r@ == self@,
    {
        ScoreEvidence { rule_id: self.rule_id.clone(), contribution: self.contribution, explanation: self.explanation.clone() }
    }

    pub fn new(rule_id: &str, contribution: i64, explanation: &str) -> (r: Self)
        ensures
            r@ == (EvidenceView { rule_id: rule_id@, contribution: contribution as int, explanation: explanation@ }),
    {
        ScoreEvidence { rule_id: String::from_str(rule_id), contribution, explanation: String::from_str(explanation) }
    }
}

} // verus!
