//! From a request to its features.
use vstd::prelude::*;

use crate::clock::{instant_in, Instant};
use crate::formula::{clamped_quotient, value, Formula};
use crate::request::{is_known_merchant, lists_text, FraudRequest, MccRiskMap, Normalization};
use crate::single::{single, Single, MINUS_ONE_BITS, ONE_BITS, ZERO_BITS};
use crate::DIMENSIONS;

verus! {

/// Bit pattern of `0.5`, the risk of a category that is not listed.
pub const DEFAULT_RISK_BITS: u32 = 0x3f00_0000;

/// Why a request has no features.
#[derive(Debug, PartialEq, Eq)]
pub enum VectorizeError {
    /// The time of the request is no RFC 3339 date and time.
    InvalidRequestedAt { text: String, cause: String },
    /// The time of the last transaction is none.
    InvalidLastTimestamp { text: String, cause: String },
}

impl VectorizeError {
    /// The error in words.
    pub fn message(&self) -> (text: String)
        ensures
            text@ == match self {
                VectorizeError::InvalidRequestedAt { text, .. } => "invalid requested_at "@ + text@,
                VectorizeError::InvalidLastTimestamp { text, .. } =>
                    "invalid last_transaction.timestamp "@ + text@,
            },
    {
        match self {
            VectorizeError::InvalidRequestedAt { text, .. } => {
                let mut message = "invalid requested_at ".to_owned();
                message.append(text.as_str());
                message
            },
            VectorizeError::InvalidLastTimestamp { text, .. } => {
                let mut message = "invalid last_transaction.timestamp ".to_owned();
                message.append(text.as_str());
                message
            },
        }
    }

    /// What is wrong with the time.
    pub fn cause(&self) -> (cause: &String)
        ensures
            *cause == match self {
                VectorizeError::InvalidRequestedAt { cause, .. } => *cause,
                VectorizeError::InvalidLastTimestamp { cause, .. } => *cause,
            },
    {
        match self {
            VectorizeError::InvalidRequestedAt { cause, .. } => cause,
            VectorizeError::InvalidLastTimestamp { cause, .. } => cause,
        }
    }
}

/// The number `1.0` for true and `0.0` for false.
pub open spec fn flag(set: bool) -> Formula {
    if set {
        value(ONE_BITS)
    } else {
        value(ZERO_BITS)
    }
}

/// The risk of a merchant category, with a default for one that is not listed.
pub open spec fn risk_of(risks: Map<Seq<char>, Single>, mcc: Seq<char>) -> Single {
    if risks.dom().contains(mcc) {
        risks[mcc]
    } else {
        single(DEFAULT_RISK_BITS)
    }
}

/// The amount measured against the customer's average; `1.0` without an average.
pub open spec fn amount_vs_average(request: FraudRequest, normalization: Normalization) -> Formula {
    let average = request.customer.avg_amount;
    if average.le(single(ZERO_BITS)) {
        value(ONE_BITS)
    } else {
        Formula::Quotient(
            Box::new(
                Formula::Quotient(
                    Box::new(Formula::Value(request.transaction.amount)),
                    Box::new(Formula::Value(average)),
                ),
            ),
            Box::new(Formula::Value(normalization.amount_vs_avg_ratio)),
        )
    }
}

/// Minutes from the last transaction to the request, none if it is not earlier.
pub open spec fn minutes_between(last: Instant, requested_at: Instant) -> int {
    let minutes = requested_at.minutes_since_spec(last);
    if minutes < 0 {
        0
    } else {
        minutes
    }
}

/// The features of a request made at a point in time, after a transaction at
/// another, if there was one.
pub open spec fn features(
    request: FraudRequest,
    normalization: Normalization,
    risks: Map<Seq<char>, Single>,
    requested_at: Instant,
    last: Option<Instant>,
) -> Seq<Formula> {
    seq![
        clamped_quotient(
            Formula::Value(request.transaction.amount),
            Formula::Value(normalization.max_amount),
        ),
        clamped_quotient(
            Formula::Integer(request.transaction.installments as i64),
            Formula::Value(normalization.max_installments),
        ),
        Formula::Clamped(Box::new(amount_vs_average(request, normalization))),
        Formula::Quotient(
            Box::new(Formula::Integer(requested_at.hour_spec() as i64)),
            Box::new(Formula::Integer(23)),
        ),
        Formula::Quotient(
            Box::new(Formula::Integer(requested_at.weekday_spec() as i64)),
            Box::new(Formula::Integer(6)),
        ),
        match last {
            Some(last) => clamped_quotient(
                Formula::Integer(minutes_between(last, requested_at) as i64),
                Formula::Value(normalization.max_minutes),
            ),
            None => value(MINUS_ONE_BITS),
        },
        match (last, request.last_transaction) {
            (Some(_), Some(transaction)) => clamped_quotient(
                Formula::Value(transaction.km_from_current),
                Formula::Value(normalization.max_km),
            ),
            _ => value(MINUS_ONE_BITS),
        },
        clamped_quotient(
            Formula::Value(request.terminal.km_from_home),
            Formula::Value(normalization.max_km),
        ),
        clamped_quotient(
            Formula::Integer(request.customer.tx_count_24h as i64),
            Formula::Value(normalization.max_tx_count_24h),
        ),
        flag(request.terminal.is_online),
        flag(request.terminal.card_present),
        flag(!lists_text(request.customer.known_merchants@, request.merchant.id@)),
        Formula::Value(risk_of(risks, request.merchant.mcc@)),
        clamped_quotient(
            Formula::Value(request.merchant.avg_amount),
            Formula::Value(normalization.max_merchant_avg_amount),
        ),
    ]
}

fn flag_formula(set: bool) -> (formula: Formula)
    ensures
        formula == flag(set),
{
    if set {
        Formula::of_bits(ONE_BITS)
    } else {
        Formula::of_bits(ZERO_BITS)
    }
}

/// The risk of a merchant category.
pub fn category_risk(mcc_risk: &MccRiskMap, mcc: &str) -> (risk: Single)
    ensures
        risk == risk_of(mcc_risk@, mcc@),
        mcc_risk@.dom().contains(mcc@) ==> risk == mcc_risk@[mcc@],
        !mcc_risk@.dom().contains(mcc@) ==> risk.bits == 0x3f00_0000,
{
    match mcc_risk.get(mcc) {
        Some(risk) => risk,
        None => Single { bits: DEFAULT_RISK_BITS },
    }
}

/// The features of a request whose times have been read.
pub fn vectorize_at(
    request: &FraudRequest,
    normalization: &Normalization,
    mcc_risk: &MccRiskMap,
    requested_at: &Instant,
    last: Option<Instant>,
) -> (vector: [Formula; DIMENSIONS])
    requires
        requested_at.valid(),
        last matches Some(last) ==> last.valid(),
    ensures
        vector@ == features(*request, *normalization, mcc_risk@, *requested_at, last),
{
    let amount_vs_avg: Formula = if request.customer.avg_amount.at_most(
        Single { bits: ZERO_BITS },
    ) {
        Formula::of_bits(ONE_BITS)
    } else {
        Formula::quotient(
            Formula::quotient(
                Formula::Value(request.transaction.amount),
                Formula::Value(request.customer.avg_amount),
            ),
            Formula::Value(normalization.amount_vs_avg_ratio),
        )
    };
    let minutes: Formula = match &last {
        Some(last) => {
            let elapsed: i64 = requested_at.minutes_since(last);
            let elapsed: i64 = if elapsed < 0 {
                0
            } else {
                elapsed
            };
            Formula::clamped_quotient(
                Formula::Integer(elapsed),
                Formula::Value(normalization.max_minutes),
            )
        },
        None => Formula::of_bits(MINUS_ONE_BITS),
    };
    let distance: Formula = match (&last, &request.last_transaction) {
        (Some(_), Some(transaction)) => Formula::clamped_quotient(
            Formula::Value(transaction.km_from_current),
            Formula::Value(normalization.max_km),
        ),
        _ => Formula::of_bits(MINUS_ONE_BITS),
    };
    let vector: [Formula; DIMENSIONS] = [
        Formula::clamped_quotient(
            Formula::Value(request.transaction.amount),
            Formula::Value(normalization.max_amount),
        ),
        Formula::clamped_quotient(
            Formula::Integer(request.transaction.installments as i64),
            Formula::Value(normalization.max_installments),
        ),
        Formula::Clamped(Box::new(amount_vs_avg)),
        Formula::quotient(
            Formula::Integer(requested_at.hour() as i64),
            Formula::Integer(23),
        ),
        Formula::quotient(
            Formula::Integer(requested_at.weekday() as i64),
            Formula::Integer(6),
        ),
        minutes,
        distance,
        Formula::clamped_quotient(
            Formula::Value(request.terminal.km_from_home),
            Formula::Value(normalization.max_km),
        ),
        Formula::clamped_quotient(
            Formula::Integer(request.customer.tx_count_24h as i64),
            Formula::Value(normalization.max_tx_count_24h),
        ),
        flag_formula(request.terminal.is_online),
        flag_formula(request.terminal.card_present),
        flag_formula(!is_known_merchant(request)),
        Formula::Value(category_risk(mcc_risk, request.merchant.mcc.as_str())),
        Formula::clamped_quotient(
            Formula::Value(request.merchant.avg_amount),
            Formula::Value(normalization.max_merchant_avg_amount),
        ),
    ];
    assert(vector@ =~= features(*request, *normalization, mcc_risk@, *requested_at, last));
    vector
}

/// The point in time with these seconds and nanoseconds.
pub open spec fn instant(parts: (i64, u32)) -> Instant {
    Instant { seconds: parts.0, nanos: parts.1 }
}

/// Maps a request to its [`DIMENSIONS`] features.
pub fn vectorize(
    request: &FraudRequest,
    normalization: &Normalization,
    mcc_risk: &MccRiskMap,
) -> (result: Result<[Formula; DIMENSIONS], VectorizeError>)
    ensures
        match instant_in(request.transaction.requested_at@) {
            Err(wrong) => result matches Err(VectorizeError::InvalidRequestedAt { text, cause })
                && text@ == request.transaction.requested_at@ && cause@ == wrong,
            Ok(requested_at) => match request.last_transaction {
                None => result matches Ok(vector) && vector@ == features(
                    *request,
                    *normalization,
                    mcc_risk@,
                    instant(requested_at),
                    None,
                ),
                Some(transaction) => match instant_in(transaction.timestamp@) {
                    Err(wrong) => result matches Err(
                        VectorizeError::InvalidLastTimestamp { text, cause },
                    ) && text@ == transaction.timestamp@ && cause@ == wrong,
                    Ok(last) => result matches Ok(vector) && vector@ == features(
                        *request,
                        *normalization,
                        mcc_risk@,
                        instant(requested_at),
                        Some(instant(last)),
                    ),
                },
            },
        },
        result is Ok <==> instant_in(request.transaction.requested_at@) is Ok && (
        request.last_transaction matches Some(transaction) ==> instant_in(transaction.timestamp@)
            is Ok),
        result matches Ok(vector) ==> {
            &&& vector@[0] == Formula::Clamped(
                Box::new(
                    Formula::Quotient(
                        Box::new(Formula::Value(request.transaction.amount)),
                        Box::new(Formula::Value(normalization.max_amount)),
                    ),
                ),
            )
            &&& vector@[1] == Formula::Clamped(
                Box::new(
                    Formula::Quotient(
                        Box::new(Formula::Integer(request.transaction.installments as i64)),
                        Box::new(Formula::Value(normalization.max_installments)),
                    ),
                ),
            )
            &&& request.customer.avg_amount.le(Single { bits: 0 }) ==> vector@[2]
                == Formula::Clamped(Box::new(Formula::Value(Single { bits: 0x3f80_0000 })))
            &&& !request.customer.avg_amount.le(Single { bits: 0 }) ==> vector@[2]
                == Formula::Clamped(
                Box::new(
                    Formula::Quotient(
                        Box::new(
                            Formula::Quotient(
                                Box::new(Formula::Value(request.transaction.amount)),
                                Box::new(Formula::Value(request.customer.avg_amount)),
                            ),
                        ),
                        Box::new(Formula::Value(normalization.amount_vs_avg_ratio)),
                    ),
                ),
            )
            &&& vector@[7] == Formula::Clamped(
                Box::new(
                    Formula::Quotient(
                        Box::new(Formula::Value(request.terminal.km_from_home)),
                        Box::new(Formula::Value(normalization.max_km)),
                    ),
                ),
            )
            &&& vector@[8] == Formula::Clamped(
                Box::new(
                    Formula::Quotient(
                        Box::new(Formula::Integer(request.customer.tx_count_24h as i64)),
                        Box::new(Formula::Value(normalization.max_tx_count_24h)),
                    ),
                ),
            )
            &&& vector@[9] == Formula::Value(
                Single {
                    bits: if request.terminal.is_online {
                        0x3f80_0000
                    } else {
                        0
                    },
                },
            )
            &&& vector@[10] == Formula::Value(
                Single {
                    bits: if request.terminal.card_present {
                        0x3f80_0000
                    } else {
                        0
                    },
                },
            )
            &&& vector@[11] == Formula::Value(
                Single {
                    bits: if exists|i: int|
                        0 <= i < request.customer.known_merchants@.len()
                            && (#[trigger] request.customer.known_merchants@[i])@
                            == request.merchant.id@ {
                        0
                    } else {
                        0x3f80_0000
                    },
                },
            )
            &&& vector@[12] == Formula::Value(
                if mcc_risk@.dom().contains(request.merchant.mcc@) {
                    mcc_risk@[request.merchant.mcc@]
                } else {
                    Single { bits: 0x3f00_0000 }
                },
            )
            &&& vector@[13] == Formula::Clamped(
                Box::new(
                    Formula::Quotient(
                        Box::new(Formula::Value(request.merchant.avg_amount)),
                        Box::new(Formula::Value(normalization.max_merchant_avg_amount)),
                    ),
                ),
            )
        },
{
    let requested_at: Instant = match Instant::parse(request.transaction.requested_at.as_str()) {
        Ok(requested_at) => requested_at,
        Err(cause) => return Err(
            VectorizeError::InvalidRequestedAt {
                text: request.transaction.requested_at.clone(),
                cause,
            },
        ),
    };
    let last: Option<Instant> = match &request.last_transaction {
        Some(transaction) => match Instant::parse(transaction.timestamp.as_str()) {
            Ok(last) => Some(last),
            Err(cause) => return Err(
                VectorizeError::InvalidLastTimestamp { text: transaction.timestamp.clone(), cause },
            ),
        },
        None => None,
    };
    Ok(vectorize_at(request, normalization, mcc_risk, &requested_at, last))
}

/// There are [`DIMENSIONS`] features. Without an earlier transaction the two
/// features on it are the sentinel `-1.0`, and only then: otherwise they are
/// clamped to the range from `0.0` to `1.0`.
pub proof fn law_sentinels_mark_first_transaction(
    request: FraudRequest,
    normalization: Normalization,
    risks: Map<Seq<char>, Single>,
    requested_at: Instant,
    last: Option<Instant>,
)
    requires
        last is Some <==> request.last_transaction is Some,
    ensures
        ({
            let vector = features(request, normalization, risks, requested_at, last);
            &&& vector.len() == DIMENSIONS
            &&& last is None ==> vector[5] == value(MINUS_ONE_BITS) && vector[6] == value(
                MINUS_ONE_BITS,
            )
            &&& last is Some ==> vector[5] is Clamped && vector[6] is Clamped
        }),
{
}

/// Whether a formula is clamped to the range from `0.0` to `1.0`, a share of a
/// whole, `0.0` or `1.0`.
pub open spec fn is_normalized(formula: Formula) -> bool {
    match formula {
        Formula::Clamped(_) => true,
        Formula::Quotient(part, whole) => match (*part, *whole) {
            (Formula::Integer(part), Formula::Integer(whole)) => 0 <= part <= whole && whole > 0,
            _ => false,
        },
        Formula::Value(number) => number == single(ZERO_BITS) || number == single(ONE_BITS),
        _ => false,
    }
}

/// Every feature but the risk of the category is normalised, or else it is the
/// sentinel `-1.0` of one of the two features on the earlier transaction.
pub proof fn law_features_are_normalized(
    request: FraudRequest,
    normalization: Normalization,
    risks: Map<Seq<char>, Single>,
    requested_at: Instant,
    last: Option<Instant>,
)
    ensures
        ({
            let vector = features(request, normalization, risks, requested_at, last);
            &&& forall|i: int|
                0 <= i < DIMENSIONS && i != 5 && i != 6 && i != 12 ==> is_normalized(
                    #[trigger] vector[i],
                )
            &&& is_normalized(vector[5]) || vector[5] == value(MINUS_ONE_BITS)
            &&& is_normalized(vector[6]) || vector[6] == value(MINUS_ONE_BITS)
        }),
{
}

/// What each feature is that no time enters: it is made of the named fields alone,
/// whatever the others hold.
pub proof fn law_features_follow_their_fields(
    request: FraudRequest,
    normalization: Normalization,
    risks: Map<Seq<char>, Single>,
    requested_at: Instant,
    last: Option<Instant>,
)
    ensures
        ({
            let vector = features(request, normalization, risks, requested_at, last);
            &&& vector.len() == 14
            &&& vector[0] == Formula::Clamped(
                Box::new(
                    Formula::Quotient(
                        Box::new(Formula::Value(request.transaction.amount)),
                        Box::new(Formula::Value(normalization.max_amount)),
                    ),
                ),
            )
            &&& vector[1] == Formula::Clamped(
                Box::new(
                    Formula::Quotient(
                        Box::new(Formula::Integer(request.transaction.installments as i64)),
                        Box::new(Formula::Value(normalization.max_installments)),
                    ),
                ),
            )
            &&& request.customer.avg_amount.le(Single { bits: 0 }) ==> vector[2]
                == Formula::Clamped(Box::new(Formula::Value(Single { bits: 0x3f80_0000 })))
            &&& !request.customer.avg_amount.le(Single { bits: 0 }) ==> vector[2]
                == Formula::Clamped(
                Box::new(
                    Formula::Quotient(
                        Box::new(
                            Formula::Quotient(
                                Box::new(Formula::Value(request.transaction.amount)),
                                Box::new(Formula::Value(request.customer.avg_amount)),
                            ),
                        ),
                        Box::new(Formula::Value(normalization.amount_vs_avg_ratio)),
                    ),
                ),
            )
            &&& vector[7] == Formula::Clamped(
                Box::new(
                    Formula::Quotient(
                        Box::new(Formula::Value(request.terminal.km_from_home)),
                        Box::new(Formula::Value(normalization.max_km)),
                    ),
                ),
            )
            &&& vector[8] == Formula::Clamped(
                Box::new(
                    Formula::Quotient(
                        Box::new(Formula::Integer(request.customer.tx_count_24h as i64)),
                        Box::new(Formula::Value(normalization.max_tx_count_24h)),
                    ),
                ),
            )
            &&& vector[9] == Formula::Value(
                Single {
                    bits: if request.terminal.is_online {
                        0x3f80_0000
                    } else {
                        0
                    },
                },
            )
            &&& vector[10] == Formula::Value(
                Single {
                    bits: if request.terminal.card_present {
                        0x3f80_0000
                    } else {
                        0
                    },
                },
            )
            &&& vector[11] == Formula::Value(
                Single {
                    bits: if exists|i: int|
                        0 <= i < request.customer.known_merchants@.len()
                            && (#[trigger] request.customer.known_merchants@[i])@
                            == request.merchant.id@ {
                        0
                    } else {
                        0x3f80_0000
                    },
                },
            )
            &&& vector[12] == Formula::Value(
                if risks.dom().contains(request.merchant.mcc@) {
                    risks[request.merchant.mcc@]
                } else {
                    Single { bits: 0x3f00_0000 }
                },
            )
            &&& vector[13] == Formula::Clamped(
                Box::new(
                    Formula::Quotient(
                        Box::new(Formula::Value(request.merchant.avg_amount)),
                        Box::new(Formula::Value(normalization.max_merchant_avg_amount)),
                    ),
                ),
            )
        }),
{
}

/// What the features are that a time enters: the hour counts the hours since
/// midnight, the weekday the days since Monday, and the minutes are the whole ones
/// since the earlier transaction, none if it is not earlier.
pub proof fn law_features_follow_the_times(
    request: FraudRequest,
    normalization: Normalization,
    risks: Map<Seq<char>, Single>,
    at: (i64, u32),
    last: Option<Instant>,
)
    requires
        instant(at).valid(),
        last matches Some(earlier) ==> earlier.valid(),
    ensures
        ({
            let vector = features(request, normalization, risks, instant(at), last);
            &&& instant(at).seconds == at.0
            &&& instant(at).nanos == at.1
            &&& vector[3] matches Formula::Quotient(part, whole) && *part matches Formula::Integer(
                hour,
            ) && *whole == Formula::Integer(23) && 0 <= hour < 24 && 0 <= (at.0
                - 3600 * hour) % 86_400 < 3600
            &&& vector[4] matches Formula::Quotient(part, whole) && *part matches Formula::Integer(
                weekday,
            ) && *whole == Formula::Integer(6) && 0 <= weekday < 7 && (
            at.0 as int / 86_400 - weekday) % 7 == 4
            &&& last is None || request.last_transaction is None ==> vector[6] == Formula::Value(
                Single { bits: 0xbf80_0000 },
            )
            &&& last is None ==> vector[5] == Formula::Value(Single { bits: 0xbf80_0000 })
            &&& last is Some && request.last_transaction is Some ==> vector[6]
                == Formula::Clamped(
                Box::new(
                    Formula::Quotient(
                        Box::new(Formula::Value(request.last_transaction->0.km_from_current)),
                        Box::new(Formula::Value(normalization.max_km)),
                    ),
                ),
            )
            &&& last matches Some(earlier) ==> {
                let between = instant(at).nanos_since(earlier);
                &&& vector[5] matches Formula::Clamped(quotient) && *quotient
                    matches Formula::Quotient(part, whole) && *part matches Formula::Integer(
                    minutes,
                ) && *whole == Formula::Value(normalization.max_minutes) && minutes >= 0 && if between
                    <= 0 {
                    minutes == 0
                } else {
                    60_000_000_000 * minutes <= between < 60_000_000_000 * (minutes + 1)
                }
            }
        }),
{
}

/// The amount is measured against the customer's average and nothing else: the
/// feature is the constant `1.0` exactly if the average is at most `0.0`, and two
/// requests above that have the same feature exactly if they have the same amount
/// and average.
pub proof fn law_amount_is_measured_against_average(
    a: FraudRequest,
    b: FraudRequest,
    normalization: Normalization,
    risks: Map<Seq<char>, Single>,
    requested_at: Instant,
    last: Option<Instant>,
)
    ensures
        ({
            let of_a = features(a, normalization, risks, requested_at, last)[2];
            let of_b = features(b, normalization, risks, requested_at, last)[2];
            let one = Formula::Clamped(Box::new(Formula::Value(Single { bits: 0x3f80_0000 })));
            &&& of_a == one <==> a.customer.avg_amount.le(Single { bits: 0 })
            &&& of_a != one && of_b != one ==> (of_a == of_b <==> a.transaction.amount
                == b.transaction.amount && a.customer.avg_amount == b.customer.avg_amount)
        }),
{
}

} // verus!
