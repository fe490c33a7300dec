use chrono::{DateTime, Datelike, Timelike, Utc};
use rinha_backend_2026::decision::FraudResponse;
use rinha_backend_2026::formula::Formula;
use rinha_backend_2026::heuristic::{
    amount_limit, distance_limit, heuristic_response, heuristic_score,
};
use rinha_backend_2026::request::{
    is_known_merchant, validate_reference_record, Customer, FraudRequest, LastTransaction,
    MccRiskMap, Merchant, Normalization, ReferenceRecord, Terminal, Transaction, UnexpectedLabel,
};
use rinha_backend_2026::single::Single;
use rinha_backend_2026::vectorize::{category_risk, vectorize, VectorizeError};
use rinha_backend_2026::{DIMENSIONS, TOP_K};

fn single(value: f32) -> Single {
    Single::from_bits(value.to_bits())
}

fn evaluate(formula: &Formula) -> f32 {
    match formula {
        Formula::Value(value) => f32::from_bits(value.to_bits()),
        Formula::Integer(value) => *value as f32,
        Formula::Sum(a, b) => evaluate(a) + evaluate(b),
        Formula::Difference(a, b) => evaluate(a) - evaluate(b),
        Formula::Product(a, b) => evaluate(a) * evaluate(b),
        Formula::Square(a) => evaluate(a) * evaluate(a),
        Formula::Quotient(a, b) => evaluate(a) / evaluate(b),
        Formula::Clamped(a) => evaluate(a).clamp(0.0, 1.0),
        Formula::Rounded(a) => evaluate(a).round(),
    }
}

fn approx_eq(left: f32, right: f32) {
    assert!((left - right).abs() < 0.001, "left={left} right={right}");
}

fn test_normalization() -> Normalization {
    Normalization {
        max_amount: single(10000.0),
        max_installments: single(12.0),
        amount_vs_avg_ratio: single(10.0),
        max_minutes: single(1440.0),
        max_km: single(1000.0),
        max_tx_count_24h: single(20.0),
        max_merchant_avg_amount: single(10000.0),
    }
}

fn test_mcc() -> MccRiskMap {
    let mut risks = MccRiskMap::new();
    risks.insert("5411".to_string(), single(0.15));
    risks.insert("7802".to_string(), single(0.75));
    risks
}

fn legit_request() -> FraudRequest {
    FraudRequest {
        id: "tx-1329056812".to_string(),
        transaction: Transaction {
            amount: single(41.12),
            installments: 2,
            requested_at: "2026-03-11T18:45:53Z".to_string(),
        },
        customer: Customer {
            avg_amount: single(82.24),
            tx_count_24h: 3,
            known_merchants: vec!["MERC-003".to_string(), "MERC-016".to_string()],
        },
        merchant: Merchant {
            id: "MERC-016".to_string(),
            mcc: "5411".to_string(),
            avg_amount: single(60.25),
        },
        terminal: Terminal {
            is_online: false,
            card_present: true,
            km_from_home: single(29.23),
        },
        last_transaction: None,
    }
}

fn fraud_request() -> FraudRequest {
    FraudRequest {
        id: "tx-3330991687".to_string(),
        transaction: Transaction {
            amount: single(9505.97),
            installments: 10,
            requested_at: "2026-03-14T05:15:12Z".to_string(),
        },
        customer: Customer {
            avg_amount: single(81.28),
            tx_count_24h: 20,
            known_merchants: vec![
                "MERC-008".to_string(),
                "MERC-007".to_string(),
                "MERC-005".to_string(),
            ],
        },
        merchant: Merchant {
            id: "MERC-068".to_string(),
            mcc: "7802".to_string(),
            avg_amount: single(54.86),
        },
        terminal: Terminal {
            is_online: false,
            card_present: true,
            km_from_home: single(952.27),
        },
        last_transaction: None,
    }
}

fn vector_of(request: &FraudRequest) -> Result<Vec<f32>, VectorizeError> {
    vectorize(request, &test_normalization(), &test_mcc())
        .map(|vector| vector.iter().map(evaluate).collect())
}

#[test]
fn vectorizes_legit_example() {
    let vector = vector_of(&legit_request()).unwrap();

    let expected = [
        0.0041, 0.1667, 0.05, 0.7826, 0.3333, -1.0, -1.0, 0.0292, 0.15, 0.0, 1.0, 0.0, 0.15, 0.006,
    ];
    assert_eq!(vector.len(), DIMENSIONS);
    for (left, right) in vector.iter().zip(expected.iter()) {
        approx_eq(*left, *right);
    }
}

#[test]
fn vectorizes_fraud_example() {
    let vector = vector_of(&fraud_request()).unwrap();

    let expected = [
        0.9506, 0.8333, 1.0, 0.2174, 0.8333, -1.0, -1.0, 0.9523, 1.0, 0.0, 1.0, 1.0, 0.75, 0.0055,
    ];
    assert_eq!(vector.len(), DIMENSIONS);
    for (left, right) in vector.iter().zip(expected.iter()) {
        approx_eq(*left, *right);
    }
}

#[test]
fn each_feature_is_one_formula() {
    let mut request = legit_request();
    request.terminal.is_online = true;
    request.terminal.card_present = false;
    request.merchant.id = "MERC-017".to_string();
    request.merchant.mcc = "0000".to_string();
    request.last_transaction = Some(LastTransaction {
        timestamp: "2026-03-11T18:30:00Z".to_string(),
        km_from_current: single(250.0),
    });
    let vector = vector_of(&request).unwrap();
    assert_eq!(
        vector,
        vec![
            41.12_f32 / 10000.0,
            2.0 / 12.0,
            (41.12_f32 / 82.24) / 10.0,
            18.0 / 23.0,
            2.0 / 6.0,
            15.0 / 1440.0,
            250.0 / 1000.0,
            29.23_f32 / 1000.0,
            3.0 / 20.0,
            1.0,
            0.0,
            1.0,
            0.5,
            60.25_f32 / 10000.0,
        ]
    );
}

#[test]
fn customers_without_an_average_have_ratio_one() {
    for average in [0.0, -0.0, -5.0] {
        let mut request = legit_request();
        request.customer.avg_amount = single(average);
        assert_eq!(vector_of(&request).unwrap()[2], 1.0);
    }
}

#[test]
fn features_are_clamped() {
    let mut request = legit_request();
    request.transaction.amount = single(-5.0);
    request.transaction.installments = 4_000_000_000;
    request.customer.tx_count_24h = 21;
    request.terminal.km_from_home = single(f32::INFINITY);
    let vector = vector_of(&request).unwrap();
    assert_eq!(vector[0], 0.0);
    assert_eq!(vector[1], 1.0);
    assert_eq!(vector[7], 1.0);
    assert_eq!(vector[8], 1.0);
}

#[test]
fn times_are_taken_apart_in_utc() {
    for (requested_at, last) in [
        ("2026-03-11T18:45:53Z", "2026-03-11T18:45:53Z"),
        ("2026-03-11T18:45:53Z", "2026-03-11T18:44:53.000000001Z"),
        ("2026-03-11T18:45:53Z", "2026-03-11T18:44:53Z"),
        ("2026-03-11T23:45:53-03:00", "2026-03-12T01:45:53Z"),
        ("2026-03-11T00:15:00+05:30", "2026-03-10T23:00:00Z"),
        ("1969-12-31T23:59:59.999Z", "1969-12-31T12:00:00Z"),
        ("0000-01-01T00:00:00+23:59", "0000-01-01T00:00:00+23:59"),
        ("9999-12-31T23:59:59-23:59", "9999-12-31T23:59:59Z"),
        ("2016-12-31T23:59:60Z", "2016-12-31T23:58:59Z"),
        ("2016-12-31T23:59:59.5Z", "2016-12-31T12:00:60Z"),
        ("2017-01-01T00:01:00Z", "2016-12-31T23:59:60.5Z"),
        ("2016-12-31T23:59:60.5Z", "2016-12-31T12:00:00Z"),
        ("2024-02-29 12:00:00z", "2024-02-28t12:00:00Z"),
    ] {
        let mut request = legit_request();
        request.transaction.requested_at = requested_at.to_string();
        request.last_transaction = Some(LastTransaction {
            timestamp: last.to_string(),
            km_from_current: single(1.0),
        });
        let mut normalization = test_normalization();
        normalization.max_minutes = single(1.0e9);
        let vector = vectorize(&request, &normalization, &test_mcc()).unwrap();

        let at = DateTime::parse_from_rfc3339(requested_at).unwrap().with_timezone(&Utc);
        let before = DateTime::parse_from_rfc3339(last).unwrap().with_timezone(&Utc);
        let minutes = at.signed_duration_since(before).num_minutes().max(0);
        let weekday = at.weekday().num_days_from_monday();
        assert_eq!(
            vector[3],
            Formula::quotient(Formula::Integer(at.hour() as i64), Formula::Integer(23))
        );
        assert_eq!(
            vector[4],
            Formula::quotient(Formula::Integer(weekday as i64), Formula::Integer(6))
        );
        assert_eq!(
            vector[5],
            Formula::clamped_quotient(
                Formula::Integer(minutes),
                Formula::Value(single(1.0e9)),
            )
        );
    }
}

#[test]
fn known_times_have_known_features() {
    let mut request = legit_request();
    // A Wednesday evening in Sao Paulo is a Thursday in UTC.
    request.transaction.requested_at = "2026-03-11T21:45:53-03:00".to_string();
    request.last_transaction = Some(LastTransaction {
        timestamp: "2026-03-11T23:44:54Z".to_string(),
        km_from_current: single(1.0),
    });
    let vector = vectorize(&request, &test_normalization(), &test_mcc()).unwrap();
    assert_eq!(vector[3], Formula::quotient(Formula::Integer(0), Formula::Integer(23)));
    assert_eq!(vector[4], Formula::quotient(Formula::Integer(3), Formula::Integer(6)));
    assert_eq!(
        vector[5],
        Formula::clamped_quotient(Formula::Integer(60), Formula::Value(single(1440.0)))
    );

    // A last transaction after the request counts as none elapsed.
    request.last_transaction = Some(LastTransaction {
        timestamp: "2026-03-12T03:00:00Z".to_string(),
        km_from_current: single(1.0),
    });
    let vector = vectorize(&request, &test_normalization(), &test_mcc()).unwrap();
    assert_eq!(evaluate(&vector[5]), 0.0);
    assert_eq!(evaluate(&vector[6]), 0.001);
}

#[test]
fn bad_times_are_errors() {
    for bad in ["", "yesterday", "2026-03-11", "2026-03-11T18:45:53", "2026-02-30T00:00:00Z"] {
        let mut request = legit_request();
        request.last_transaction = Some(LastTransaction {
            timestamp: bad.to_string(),
            km_from_current: single(1.0),
        });
        let cause = DateTime::parse_from_rfc3339(bad).unwrap_err().to_string();
        let error = vector_of(&request).unwrap_err();
        assert_eq!(error.cause(), &cause);
        assert_eq!(
            error,
            VectorizeError::InvalidLastTimestamp { text: bad.to_string(), cause: cause.clone() }
        );
        assert_eq!(error.message(), format!("invalid last_transaction.timestamp {bad}"));

        // The time of the request is read first.
        request.transaction.requested_at = bad.to_string();
        let error = vector_of(&request).unwrap_err();
        assert_eq!(error.message(), format!("invalid requested_at {bad}"));
        assert_eq!(error.cause(), &cause);
        assert_eq!(error, VectorizeError::InvalidRequestedAt { text: bad.to_string(), cause });
    }
    let mut request = legit_request();
    request.transaction.requested_at = "2026-03-11T18".to_string();
    assert_eq!(vector_of(&request).unwrap_err().cause(), "premature end of input");
    request.transaction.requested_at = "2026-03-11T99:00:00Z".to_string();
    assert_eq!(vector_of(&request.clone()).unwrap_err().cause(), "input is out of range");
}

#[test]
fn risks_have_a_default() {
    let risks = test_mcc();
    assert_eq!(risks.get("5411"), Some(single(0.15)));
    assert_eq!(risks.get("541"), None);
    assert_eq!(category_risk(&risks, "7802"), single(0.75));
    assert_eq!(category_risk(&risks, "9999"), single(0.5));
}

#[test]
fn merchants_are_known_by_their_id() {
    assert!(is_known_merchant(&legit_request()));
    assert!(!is_known_merchant(&fraud_request()));
    let mut request = legit_request();
    request.customer.known_merchants.clear();
    assert!(!is_known_merchant(&request));
}

/// The fallback rules in single-precision arithmetic.
fn expected_heuristic(request: &FraudRequest, risk: f32) -> (bool, f32) {
    let normalization = test_normalization();
    let number = |value: Single| f32::from_bits(value.to_bits());
    let mut score = 0.0_f32;
    let avg_amount = if number(request.customer.avg_amount) <= 0.0 {
        number(normalization.max_amount)
    } else {
        number(request.customer.avg_amount)
    };
    if number(request.transaction.amount) > avg_amount * 4.0 {
        score += 0.25;
    }
    if !request.customer.known_merchants.contains(&request.merchant.id) {
        score += 0.2;
    }
    if request.terminal.is_online {
        score += 0.15;
    }
    if !request.terminal.card_present {
        score += 0.15;
    }
    if number(request.terminal.km_from_home) > number(normalization.max_km) * 0.4 {
        score += 0.15;
    }
    score += risk * 0.1;
    let fraud_score = score.clamp(0.0, 1.0);
    (
        fraud_score < 0.6,
        ((fraud_score * TOP_K as f32).round() / TOP_K as f32).clamp(0.0, 1.0),
    )
}

fn heuristic(request: &FraudRequest, risks: &MccRiskMap) -> FraudResponse {
    let normalization = test_normalization();
    let amount = single(evaluate(&amount_limit(request, &normalization)));
    let distance = single(evaluate(&distance_limit(&normalization)));
    let score = single(evaluate(&heuristic_score(request, risks, amount, distance)));
    heuristic_response(score)
}

#[test]
fn heuristic_follows_its_rules() {
    for case in 0..192_u32 {
        let mut request = legit_request();
        request.transaction.amount = single(if case & 1 != 0 { 329.0 } else { 328.96 });
        if case & 2 != 0 {
            request.merchant.id = "MERC-999".to_string();
        }
        request.terminal.is_online = case & 4 != 0;
        request.terminal.card_present = case & 8 == 0;
        request.terminal.km_from_home = single(if case & 16 != 0 { 400.1 } else { 400.0 });
        request.customer.avg_amount = single(if case & 32 != 0 { 0.0 } else { 82.24 });
        for risk in [0.0, 0.15, 0.5, 1.0, 100.0, -100.0, f32::INFINITY, f32::NAN] {
            let mut risks = MccRiskMap::new();
            risks.insert("5411".to_string(), single(risk));
            let (approved, score) = expected_heuristic(&request, risk);
            let response = heuristic(&request, &risks);
            assert_eq!(response.approved, approved, "{case} {risk}");
            let fraud_score = evaluate(&response.fraud_score);
            assert!(
                fraud_score == score || (fraud_score.is_nan() && score.is_nan()),
                "{case} {risk}"
            );
        }
    }
}

#[test]
fn heuristic_has_exact_values() {
    // A large amount at an unknown merchant far from home: 0.25 + 0.2 + 0.15 + 0.075.
    let response = heuristic(&fraud_request(), &test_mcc());
    assert_eq!((response.approved, evaluate(&response.fraud_score)), (false, 0.6));
    let response = heuristic(&legit_request(), &test_mcc());
    assert_eq!((response.approved, evaluate(&response.fraud_score)), (true, 0.0));
    for (score, approved, fraud_score) in [
        (0.6, false, 0.6),
        (0.59999996, true, 0.6),
        (0.49, true, 0.4),
        (0.95, false, 1.0),
        (7.0, false, 1.0),
        (-7.0, true, 0.0),
    ] {
        let response = heuristic_response(single(score));
        assert_eq!((response.approved, evaluate(&response.fraud_score)), (approved, fraud_score));
    }
    // What is no number is refused, with a score that is none.
    let response = heuristic_response(single(f32::NAN));
    assert!(!response.approved);
    assert!(evaluate(&response.fraud_score).is_nan());
}

#[test]
fn reference_labels_are_checked() {
    let mut record = ReferenceRecord {
        vector: [single(0.0); DIMENSIONS],
        label: "fraud".to_string(),
    };
    assert_eq!(validate_reference_record(&record), Ok(()));
    record.label = "legit".to_string();
    assert_eq!(validate_reference_record(&record), Ok(()));
    for label in ["", "Fraud", "legit ", "other"] {
        record.label = label.to_string();
        let error = validate_reference_record(&record).unwrap_err();
        assert_eq!(error, UnexpectedLabel { label: label.to_string() });
        assert_eq!(error.message(), format!("unexpected label {label}"));
    }
}
