//! The fallback score of a request that cannot be searched for.
use vstd::prelude::*;

use crate::decision::FraudResponse;
use crate::formula::{clamped_quotient, value, Formula};
use crate::request::{is_known_merchant, lists_text, FraudRequest, MccRiskMap, Normalization};
use crate::single::{clamp01, clamp01_spec, single, Single, ZERO_BITS};
use crate::vectorize::{category_risk, risk_of};
use crate::TOP_K;

verus! {

/// Bit pattern of `4.0`: an amount this many times the average is suspect.
pub const AMOUNT_FACTOR_BITS: u32 = 0x4080_0000;

/// Bit pattern of `0.4`: a share of the largest distance that is suspect.
pub const DISTANCE_FACTOR_BITS: u32 = 0x3ecc_cccd;

/// Bit pattern of `0.25`, the weight of a suspect amount.
pub const AMOUNT_WEIGHT_BITS: u32 = 0x3e80_0000;

/// Bit pattern of `0.2`, the weight of an unknown merchant.
pub const MERCHANT_WEIGHT_BITS: u32 = 0x3e4c_cccd;

/// Bit pattern of `0.15`, the weight of an online terminal, of an absent card and
/// of a suspect distance.
pub const SIGN_WEIGHT_BITS: u32 = 0x3e19_999a;

/// Bit pattern of `0.1`, the weight of the category's risk.
pub const RISK_WEIGHT_BITS: u32 = 0x3dcc_cccd;

/// Bit pattern of `0.6`: the score from which on a transaction is refused.
pub const REFUSAL_BITS: u32 = 0x3f19_999a;

/// The customer's average amount, or the largest amount without an average.
pub open spec fn usual_amount(request: FraudRequest, normalization: Normalization) -> Single {
    if request.customer.avg_amount.le(single(ZERO_BITS)) {
        normalization.max_amount
    } else {
        request.customer.avg_amount
    }
}

/// The amount above which a request is suspect.
pub fn amount_limit(request: &FraudRequest, normalization: &Normalization) -> (limit: Formula)
    ensures
        limit == Formula::Product(
            Box::new(Formula::Value(usual_amount(*request, *normalization))),
            Box::new(value(AMOUNT_FACTOR_BITS)),
        ),
        request.customer.avg_amount.le(Single { bits: 0 }) ==> limit == Formula::Product(
            Box::new(Formula::Value(normalization.max_amount)),
            Box::new(Formula::Value(Single { bits: 0x4080_0000 })),
        ),
        !request.customer.avg_amount.le(Single { bits: 0 }) ==> limit == Formula::Product(
            Box::new(Formula::Value(request.customer.avg_amount)),
            Box::new(Formula::Value(Single { bits: 0x4080_0000 })),
        ),
{
    let usual: Single = if request.customer.avg_amount.at_most(Single { bits: ZERO_BITS }) {
        normalization.max_amount
    } else {
        request.customer.avg_amount
    };
    Formula::product(Formula::Value(usual), Formula::of_bits(AMOUNT_FACTOR_BITS))
}

/// The distance from home above which a request is suspect.
pub fn distance_limit(normalization: &Normalization) -> (limit: Formula)
    ensures
        limit == Formula::Product(
            Box::new(Formula::Value(normalization.max_km)),
            Box::new(value(DISTANCE_FACTOR_BITS)),
        ),
        limit == Formula::Product(
            Box::new(Formula::Value(normalization.max_km)),
            Box::new(Formula::Value(Single { bits: 0x3ecc_cccd })),
        ),
{
    Formula::product(Formula::Value(normalization.max_km), Formula::of_bits(DISTANCE_FACTOR_BITS))
}

/// The score with a weight added if something is suspect.
pub open spec fn weighed(score: Formula, suspect: bool, weight: u32) -> Formula {
    if suspect {
        Formula::Sum(Box::new(score), Box::new(value(weight)))
    } else {
        score
    }
}

/// The score of a request: the weights of what is suspect about it, and a share of
/// the risk of its category.
pub open spec fn suspicion(
    request: FraudRequest,
    risks: Map<Seq<char>, Single>,
    amount_limit: Single,
    distance_limit: Single,
) -> Formula {
    let amount = weighed(
        value(ZERO_BITS),
        amount_limit.lt(request.transaction.amount),
        AMOUNT_WEIGHT_BITS,
    );
    let merchant = weighed(
        amount,
        !lists_text(request.customer.known_merchants@, request.merchant.id@),
        MERCHANT_WEIGHT_BITS,
    );
    let online = weighed(merchant, request.terminal.is_online, SIGN_WEIGHT_BITS);
    let card = weighed(online, !request.terminal.card_present, SIGN_WEIGHT_BITS);
    let distance = weighed(
        card,
        distance_limit.lt(request.terminal.km_from_home),
        SIGN_WEIGHT_BITS,
    );
    Formula::Sum(
        Box::new(distance),
        Box::new(
            Formula::Product(
                Box::new(Formula::Value(risk_of(risks, request.merchant.mcc@))),
                Box::new(value(RISK_WEIGHT_BITS)),
            ),
        ),
    )
}

fn weigh(score: Formula, suspect: bool, weight: u32) -> (result: Formula)
    ensures
        result == weighed(score, suspect, weight),
{
    if suspect {
        Formula::sum(score, Formula::of_bits(weight))
    } else {
        score
    }
}

/// Scores a request by rules of thumb, given the limits that
/// [`amount_limit`] and [`distance_limit`] come to.
pub fn heuristic_score(
    request: &FraudRequest,
    mcc_risk: &MccRiskMap,
    amount_limit: Single,
    distance_limit: Single,
) -> (score: Formula)
    ensures
        score == suspicion(*request, mcc_risk@, amount_limit, distance_limit),
{
    let score = Formula::of_bits(ZERO_BITS);
    let score = weigh(
        score,
        amount_limit.less_than(request.transaction.amount),
        AMOUNT_WEIGHT_BITS,
    );
    let score = weigh(score, !is_known_merchant(request), MERCHANT_WEIGHT_BITS);
    let score = weigh(score, request.terminal.is_online, SIGN_WEIGHT_BITS);
    let score = weigh(score, !request.terminal.card_present, SIGN_WEIGHT_BITS);
    let score = weigh(
        score,
        distance_limit.less_than(request.terminal.km_from_home),
        SIGN_WEIGHT_BITS,
    );
    let risk: Single = category_risk(mcc_risk, request.merchant.mcc.as_str());
    Formula::sum(
        score,
        Formula::product(Formula::Value(risk), Formula::of_bits(RISK_WEIGHT_BITS)),
    )
}

/// The score rounded to the nearest [`TOP_K`]th, within the range from `0.0` to
/// `1.0`.
pub open spec fn rounded_score(score: Single) -> Formula {
    clamped_quotient(
        Formula::Rounded(
            Box::new(
                Formula::Product(
                    Box::new(Formula::Value(clamp01_spec(score))),
                    Box::new(Formula::Integer(TOP_K as i64)),
                ),
            ),
        ),
        Formula::Integer(TOP_K as i64),
    )
}

/// The answer for a score that [`heuristic_score`] comes to.
pub fn heuristic_response(score: Single) -> (response: FraudResponse)
    ensures
        response.approved == clamp01_spec(score).lt(single(REFUSAL_BITS)),
        response.fraud_score == rounded_score(score),
        response.approved ==> score.lt(Single { bits: 0x3f19_999a }),
        score.lt(Single { bits: 0x3f19_999a }) ==> response.approved,
{
    let score: Single = clamp01(score);
    FraudResponse {
        approved: score.less_than(Single { bits: REFUSAL_BITS }),
        fraud_score: Formula::clamped_quotient(
            Formula::rounded(
                Formula::product(Formula::Value(score), Formula::Integer(TOP_K as i64)),
            ),
            Formula::Integer(TOP_K as i64),
        ),
    }
}

/// What is usual for a customer is the customer's own average, or without one the
/// largest amount: no other field plays a part, so that two requests with the same
/// average have the same limit.
pub proof fn law_usual_amount_is_the_average(
    a: FraudRequest,
    b: FraudRequest,
    normalization: Normalization,
)
    ensures
        !a.customer.avg_amount.le(Single { bits: 0 }) ==> usual_amount(a, normalization)
            == a.customer.avg_amount,
        a.customer.avg_amount.le(Single { bits: 0 }) ==> usual_amount(a, normalization)
            == normalization.max_amount,
        a.customer.avg_amount == b.customer.avg_amount ==> usual_amount(a, normalization)
            == usual_amount(b, normalization),
{
}

/// The score starts at `0.0` and adds, in this order, `0.25` for an amount above its
/// limit, `0.2` for a merchant that is not listed, `0.15` each for an online terminal,
/// an absent card and a distance above its limit, and a tenth of the category's risk,
/// which is `0.5` for a category that is not listed.
pub proof fn law_signs_add_their_weights(
    request: FraudRequest,
    risks: Map<Seq<char>, Single>,
    amount_limit: Single,
    distance_limit: Single,
)
    ensures
        ({
            let plus = |score: Formula, bits: u32|
                Formula::Sum(Box::new(score), Box::new(Formula::Value(Single { bits })));
            let known = exists|i: int|
                0 <= i < request.customer.known_merchants@.len()
                    && (#[trigger] request.customer.known_merchants@[i])@ == request.merchant.id@;
            let none = Formula::Value(Single { bits: 0 });
            let amount = if amount_limit.lt(request.transaction.amount) {
                plus(none, 0x3e80_0000)
            } else {
                none
            };
            let merchant = if known {
                amount
            } else {
                plus(amount, 0x3e4c_cccd)
            };
            let online = if request.terminal.is_online {
                plus(merchant, 0x3e19_999a)
            } else {
                merchant
            };
            let card = if request.terminal.card_present {
                online
            } else {
                plus(online, 0x3e19_999a)
            };
            let distance = if distance_limit.lt(request.terminal.km_from_home) {
                plus(card, 0x3e19_999a)
            } else {
                card
            };
            let risk = if risks.dom().contains(request.merchant.mcc@) {
                risks[request.merchant.mcc@]
            } else {
                Single { bits: 0x3f00_0000 }
            };
            suspicion(request, risks, amount_limit, distance_limit) == Formula::Sum(
                Box::new(distance),
                Box::new(
                    Formula::Product(
                        Box::new(Formula::Value(risk)),
                        Box::new(Formula::Value(Single { bits: 0x3dcc_cccd })),
                    ),
                ),
            )
        }),
{
}

/// A request is approved exactly if its score is less than `0.6`, and the score that
/// is told is the restricted one, rounded to a fifth.
pub proof fn law_fallback_score_decides(score: Single)
    ensures
        clamp01_spec(score).lt(Single { bits: 0x3f19_999a }) <==> score.lt(
            Single { bits: 0x3f19_999a },
        ),
        rounded_score(score) matches Formula::Clamped(quotient) && *quotient
            matches Formula::Quotient(part, whole) && *part matches Formula::Rounded(product)
            && *product matches Formula::Product(number, fifths) && *number
            matches Formula::Value(restricted) && *whole == Formula::Integer(5) && *fifths
            == Formula::Integer(5) && {
            &&& score.lt(Single { bits: 0 }) ==> restricted.bits == 0
            &&& Single { bits: 0x3f80_0000 }.lt(score) ==> restricted.bits == 0x3f80_0000
            &&& !score.lt(Single { bits: 0 }) && !Single { bits: 0x3f80_0000 }.lt(score)
                ==> restricted == score
        },
{
}

} // verus!
