//! Scoring requests and the parameters of scoring.
use vstd::hash_map::StringHashMap;
use vstd::prelude::*;

use crate::single::Single;
use crate::text::same_text;
use crate::DIMENSIONS;

verus! {

/// A transaction to score.
#[derive(Clone, Debug)]
pub struct FraudRequest {
    pub id: String,
    pub transaction: Transaction,
    pub customer: Customer,
    pub merchant: Merchant,
    pub terminal: Terminal,
    pub last_transaction: Option<LastTransaction>,
}

#[derive(Clone, Debug)]
pub struct Transaction {
    pub amount: Single,
    pub installments: u32,
    pub requested_at: String,
}

#[derive(Clone, Debug)]
pub struct Customer {
    pub avg_amount: Single,
    pub tx_count_24h: u32,
    pub known_merchants: Vec<String>,
}

#[derive(Clone, Debug)]
pub struct Merchant {
    pub id: String,
    pub mcc: String,
    pub avg_amount: Single,
}

#[derive(Clone, Copy, Debug)]
pub struct Terminal {
    pub is_online: bool,
    pub card_present: bool,
    pub km_from_home: Single,
}

#[derive(Clone, Debug)]
pub struct LastTransaction {
    pub timestamp: String,
    pub km_from_current: Single,
}

/// The largest values that features are measured against.
#[derive(Clone, Copy, Debug)]
pub struct Normalization {
    pub max_amount: Single,
    pub max_installments: Single,
    pub amount_vs_avg_ratio: Single,
    pub max_minutes: Single,
    pub max_km: Single,
    pub max_tx_count_24h: Single,
    pub max_merchant_avg_amount: Single,
}

/// A labelled vector of the reference data.
#[derive(Clone, Debug)]
pub struct ReferenceRecord {
    pub vector: [Single; DIMENSIONS],
    pub label: String,
}

/// The risk of each merchant category.
pub struct MccRiskMap {
    risks: StringHashMap<Single>,
}

impl View for MccRiskMap {
    type V = Map<Seq<char>, Single>;

    closed spec fn view(&self) -> Map<Seq<char>, Single> {
        self.risks@
    }
}

impl MccRiskMap {
    /// No category yet.
    pub fn new() -> (result: MccRiskMap)
        ensures
            result@ == Map::<Seq<char>, Single>::empty(),
    {
        MccRiskMap { risks: StringHashMap::new() }
    }

    /// Sets the risk of a category.
    pub fn insert(&mut self, mcc: String, risk: Single)
        ensures
            final(self)@ == old(self)@.insert(mcc@, risk),
    {
        self.risks.insert(mcc, risk);
    }

    /// The risk of a category.
    pub fn get(&self, mcc: &str) -> (risk: Option<Single>)
        ensures
            risk == if self@.dom().contains(mcc@) {
                Some(self@[mcc@])
            } else {
                None::<Single>
            },
    {
        match self.risks.get(mcc) {
            Some(risk) => Some(*risk),
            None => None,
        }
    }
}

/// Whether one of the texts is this one.
pub open spec fn lists_text(texts: Seq<String>, text: Seq<char>) -> bool {
    exists|i: int| 0 <= i < texts.len() && (#[trigger] texts[i])@ == text
}

/// Whether the merchant of a request is one that the customer has dealt with.
pub fn is_known_merchant(request: &FraudRequest) -> (result: bool)
    ensures
        result == lists_text(request.customer.known_merchants@, request.merchant.id@),
        result <==> exists|i: int|
            0 <= i < request.customer.known_merchants@.len()
                && (#[trigger] request.customer.known_merchants@[i])@ == request.merchant.id@,
{
    for idx in 0..request.customer.known_merchants.len()
        invariant
            forall|i: int|
                0 <= i < idx ==> (#[trigger] request.customer.known_merchants@[i])@
                    != request.merchant.id@,
    {
        if same_text(
            request.customer.known_merchants[idx].as_str(),
            request.merchant.id.as_str(),
        ) {
            return true;
        }
    }
    false
}

/// A reference record with a label that is neither `fraud` nor `legit`.
#[derive(Debug, PartialEq, Eq)]
pub struct UnexpectedLabel {
    pub label: String,
}

impl UnexpectedLabel {
    /// The error in words.
    pub fn message(&self) -> (text: String)
        ensures
            text@ == "unexpected label "@ + self.label@,
    {
        let mut text = "unexpected label ".to_owned();
        text.append(self.label.as_str());
        text
    }
}

/// Checks the label of a reference record.
pub fn validate_reference_record(record: &ReferenceRecord) -> (result: Result<(), UnexpectedLabel>)
    ensures
        match result {
            Ok(_) => record.label@ == "fraud"@ || record.label@ == "legit"@,
            Err(error) => record.label@ != "fraud"@ && record.label@ != "legit"@ && error.label@
                == record.label@,
        },
{
    if !same_text(record.label.as_str(), "fraud") && !same_text(record.label.as_str(), "legit") {
        return Err(UnexpectedLabel { label: record.label.clone() });
    }
    Ok(())
}

/// A list holds every text that has been added to it, and no other.
pub proof fn law_list_holds_what_is_added(texts: Seq<String>, added: String, text: Seq<char>)
    ensures
        !lists_text(Seq::empty(), text),
        lists_text(texts.push(added), text) <==> added@ == text || lists_text(texts, text),
        forall|i: int| 0 <= i < texts.len() ==> lists_text(texts, (#[trigger] texts[i])@),
{
    let more = texts.push(added);
    if lists_text(texts, text) {
        let i = choose|i: int| 0 <= i < texts.len() && (#[trigger] texts[i])@ == text;
        assert(more[i] == texts[i]);
    }
    assert(more[texts.len() as int] == added);
    if lists_text(more, text) {
        let i = choose|i: int| 0 <= i < more.len() && (#[trigger] more[i])@ == text;
        if i < texts.len() {
            assert(texts[i] == more[i]);
        }
    }
}

} // verus!
