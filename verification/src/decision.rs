//! From neighbours to a decision.
use vstd::prelude::*;

use crate::formula::{value, Formula};
use crate::single::ONE_BITS;
use crate::TOP_K;

verus! {

/// The label of a fraudulent reference transaction.
pub const FRAUD_LABEL: u8 = 1;

/// A transaction is approved below this many fifths of fraud, that is below a
/// score of `0.6`.
pub const APPROVAL_LIMIT: usize = 3;

/// The answer to a scoring request.
#[derive(Debug, PartialEq, Eq)]
pub struct FraudResponse {
    pub approved: bool,
    pub fraud_score: Formula,
}

impl Clone for FraudResponse {
    fn clone(&self) -> (response: FraudResponse)
        ensures
            response == *self,
    {
        FraudResponse { approved: self.approved, fraud_score: self.fraud_score.clone() }
    }
}

/// How many of the labels mark fraud.
pub open spec fn fraud_count(labels: Seq<u8>) -> nat {
    labels.filter(|label: u8| label == FRAUD_LABEL).len()
}

/// The share of so many neighbours in [`TOP_K`].
pub open spec fn score_of(count: nat) -> Formula {
    Formula::Quotient(
        Box::new(Formula::Integer(count as i64)),
        Box::new(Formula::Integer(TOP_K as i64)),
    )
}

/// The decision drawn from neighbours with these labels: the score is the share
/// of fraudulent ones in [`TOP_K`], and a score of `0.6` is refused.
pub open spec fn decision_on(labels: Seq<u8>) -> FraudResponse {
    FraudResponse {
        approved: fraud_count(labels) < APPROVAL_LIMIT,
        fraud_score: score_of(fraud_count(labels)),
    }
}

/// Scores the labels of the nearest neighbours.
pub fn score_neighbors(labels: &[u8]) -> (response: FraudResponse)
    ensures
        response == decision_on(labels@),
        response.approved <==> labels@.to_multiset().count(1u8) < 3,
        response.fraud_score == Formula::Quotient(
            Box::new(Formula::Integer(labels@.to_multiset().count(1u8) as i64)),
            Box::new(Formula::Integer(5)),
        ),
{
    let ghost is_fraud = |label: u8| label == FRAUD_LABEL;
    let mut count: usize = 0;
    for idx in 0..labels.len()
        invariant
            is_fraud == (|label: u8| label == FRAUD_LABEL),
            count == labels@.take(idx as int).filter(is_fraud).len(),
            count <= idx,
    {
        proof {
            reveal(Seq::filter);
            assert(labels@.take(idx + 1).drop_last() =~= labels@.take(idx as int));
        }
        if labels[idx] == FRAUD_LABEL {
            count += 1;
        }
    }
    proof {
        assert(labels@.take(labels@.len() as int) =~= labels@);
        law_frauds_are_counted(labels@);
    }
    FraudResponse {
        approved: count < APPROVAL_LIMIT,
        fraud_score: Formula::quotient(
            Formula::Integer(count as i64),
            Formula::Integer(TOP_K as i64),
        ),
    }
}

/// The answer that refuses a transaction outright.
pub fn deny_response() -> (response: FraudResponse)
    ensures
        response == (FraudResponse { approved: false, fraud_score: value(ONE_BITS) }),
{
    FraudResponse { approved: false, fraud_score: Formula::of_bits(ONE_BITS) }
}

/// The score of [`TOP_K`] neighbours is the share of a part in the whole, and it
/// decides alone: the transaction is approved exactly if fewer than three of the
/// five are fraudulent.
pub proof fn law_score_decides(labels: Seq<u8>)
    requires
        labels.len() == TOP_K,
    ensures
        fraud_count(labels) <= TOP_K,
        decision_on(labels).fraud_score == score_of(fraud_count(labels)),
        decision_on(labels).approved <==> fraud_count(labels) < APPROVAL_LIMIT,
{
    labels.lemma_filter_len(|label: u8| label == FRAUD_LABEL);
}

/// The frauds among the labels are counted, wherever they stand: the labels that
/// are one, each as often as it occurs.
pub proof fn law_frauds_are_counted(labels: Seq<u8>)
    ensures
        fraud_count(labels) == labels.to_multiset().count(1u8),
    decreases labels.len(),
{
    broadcast use vstd::seq_lib::group_to_multiset_ensures;

    reveal(Seq::filter);
    if labels.len() > 0 {
        law_frauds_are_counted(labels.drop_last());
        assert(labels.drop_last().push(labels.last()) =~= labels);
    }
}

/// The decision: fewer than three frauds are approved, and the score is their number
/// divided by five.
pub proof fn law_three_frauds_refuse(labels: Seq<u8>)
    ensures
        decision_on(labels).approved <==> labels.to_multiset().count(1u8) < 3,
        decision_on(labels).fraud_score == Formula::Quotient(
            Box::new(Formula::Integer(labels.to_multiset().count(1u8) as i64)),
            Box::new(Formula::Integer(5)),
        ),
{
    law_frauds_are_counted(labels);
}

} // verus!
