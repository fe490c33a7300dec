use rinha_backend_2026::decision::{deny_response, score_neighbors, FraudResponse};
use rinha_backend_2026::distance::{
    centroid_distance, squared_distance_f32_scalar, squared_distance_i8,
    squared_distance_i8_scalar,
};
use rinha_backend_2026::formula::Formula;
use rinha_backend_2026::heuristic::{
    AMOUNT_FACTOR_BITS, AMOUNT_WEIGHT_BITS, DISTANCE_FACTOR_BITS, MERCHANT_WEIGHT_BITS,
    REFUSAL_BITS, RISK_WEIGHT_BITS, SIGN_WEIGHT_BITS,
};
use rinha_backend_2026::quantize::{
    centroid_from_quantized, dequantize_component, pad_centroid, quantize_vector,
    quantize_vector_padded, SCALE_BITS,
};
use rinha_backend_2026::single::{
    clamp01, Single, INFINITY_BITS, MINUS_ONE_BITS, ONE_BITS, SIGN_BITS, ZERO_BITS,
};
use rinha_backend_2026::vectorize::DEFAULT_RISK_BITS;
use rinha_backend_2026::{ARTIFACT_VERSION, DIMENSIONS, PACKED_DIMENSIONS, TOP_K};

fn single(value: f32) -> Single {
    Single::from_bits(value.to_bits())
}

fn evaluate(formula: &Formula) -> f32 {
    match formula {
        Formula::Value(value) => f32::from_bits(value.to_bits()),
        Formula::Integer(value) => *value as f32,
        Formula::Sum(a, b) => evaluate(a) + evaluate(b),
        Formula::Difference(a, b) => evaluate(a) - evaluate(b),
        Formula::Product(a, b) => evaluate(a) * evaluate(b),
        Formula::Square(a) => evaluate(a) * evaluate(a),
        Formula::Quotient(a, b) => evaluate(a) / evaluate(b),
        Formula::Clamped(a) => evaluate(a).clamp(0.0, 1.0),
        Formula::Rounded(a) => evaluate(a).round(),
    }
}

/// The share of so many neighbours in five.
fn share(count: i64) -> Formula {
    Formula::quotient(Formula::Integer(count), Formula::Integer(5))
}

fn quantized(vector: &[f32; DIMENSIONS]) -> [i8; DIMENSIONS] {
    let mut out = [0_i8; DIMENSIONS];
    let formulas = quantize_vector(&vector.map(single));
    for (dst, formula) in out.iter_mut().zip(formulas.iter()) {
        *dst = evaluate(formula) as i8;
    }
    out
}

fn samples() -> Vec<f32> {
    vec![
        0.0, -0.0, 1.0, -1.0, 0.5, -0.5, 0.1, 1.5, -1.5, 1e-45, -1e-45, 1e-38, 3.4e38, -3.4e38,
        0.99999994, 1.0000001, f32::INFINITY, f32::NEG_INFINITY, f32::NAN, -f32::NAN,
        f32::from_bits(0x7f80_0001), f32::from_bits(0xff80_0001), 126.5 / 127.0, -0.0039370079,
    ]
}

#[test]
fn constants_are_the_numbers_that_they_are_named_after() {
    for (bits, value) in [
        (ZERO_BITS, 0.0_f32),
        (ONE_BITS, 1.0),
        (MINUS_ONE_BITS, -1.0),
        (INFINITY_BITS, f32::INFINITY),
        (SIGN_BITS, -0.0),
        (SCALE_BITS, 127.0),
        (DEFAULT_RISK_BITS, 0.5),
        (AMOUNT_FACTOR_BITS, 4.0),
        (DISTANCE_FACTOR_BITS, 0.4),
        (AMOUNT_WEIGHT_BITS, 0.25),
        (MERCHANT_WEIGHT_BITS, 0.2),
        (SIGN_WEIGHT_BITS, 0.15),
        (RISK_WEIGHT_BITS, 0.1),
        (REFUSAL_BITS, 0.6),
    ] {
        assert_eq!(bits, value.to_bits(), "{value}");
    }
    assert_eq!((DIMENSIONS, PACKED_DIMENSIONS, TOP_K, ARTIFACT_VERSION), (14, 16, 5, 2));
}

#[test]
fn order_is_that_of_single_precision_numbers() {
    for a in samples() {
        assert_eq!(single(a).is_nan(), a.is_nan());
        for b in samples() {
            assert_eq!(single(a).less_than(single(b)), a < b, "{a} < {b}");
            assert_eq!(single(a).at_most(single(b)), a <= b, "{a} <= {b}");
        }
    }
}

#[test]
fn clamping_is_that_of_single_precision_numbers() {
    for value in samples() {
        let expected = value.clamp(0.0, 1.0);
        let clamped = f32::from_bits(clamp01(single(value)).to_bits());
        assert!(clamped.to_bits() == expected.to_bits() || (clamped.is_nan() && expected.is_nan()));
        assert_eq!(clamp01(clamp01(single(value))), clamp01(single(value)));
        if !value.is_nan() {
            let expected = value.clamp(-2.5, 0.25);
            let clamped = single(value).clamp(single(-2.5), single(0.25));
            assert_eq!(clamped.to_bits(), expected.to_bits());
        }
    }
}

#[test]
fn copies_of_formulas_are_the_same() {
    let a = || Formula::Value(single(0.3));
    let formula = Formula::sum(
        Formula::difference(a(), Formula::square(Formula::Integer(-7))),
        Formula::product(
            Formula::rounded(a()),
            Formula::quotient(Formula::clamped_quotient(a(), a()), a()),
        ),
    );
    assert_eq!(formula.clone(), formula);
}

#[test]
fn quantization_preserves_sentinel() {
    let vector = [
        0.0, 1.0, 0.5, 0.25, 0.75, -1.0, -1.0, 0.0, 1.0, 0.0, 1.0, 0.0, 0.5, 0.25,
    ];
    let quantized = quantized(&vector);
    assert_eq!(quantized[5], -127);
    assert_eq!(quantized[6], -127);
}

#[test]
fn padded_quantization_zeroes_extra_lanes() {
    let vector = [
        0.0, 1.0, 0.5, 0.25, 0.75, -1.0, -1.0, 0.0, 1.0, 0.0, 1.0, 0.0, 0.5, 0.25,
    ];
    let quantized = quantize_vector_padded(&quantized(&vector));
    assert_eq!(quantized[5], -127);
    assert_eq!(quantized[6], -127);
    assert_eq!(quantized[14], 0);
    assert_eq!(quantized[15], 0);
    assert_eq!(&quantized[..5], &[0, 127, 64, 32, 95]);
}

#[test]
fn quantization_clamps_and_rounds() {
    for value in samples() {
        let expected = (value.clamp(-1.0, 1.0) * 127.0).round() as i8;
        assert_eq!(quantized(&[value; DIMENSIONS]), [expected; DIMENSIONS], "{value}");
    }
}

#[test]
fn centroids_are_padded_and_restored() {
    let mut centroid = [single(0.0); DIMENSIONS];
    for idx in 0..DIMENSIONS {
        centroid[idx] = single(idx as f32 + 0.5);
    }
    let wide = pad_centroid(&centroid);
    assert_eq!(&wide[..DIMENSIONS], &centroid[..]);
    assert_eq!(&wide[DIMENSIONS..], &[single(0.0), single(0.0)]);

    for value in -128..=127_i16 {
        let restored = evaluate(&dequantize_component(value as i8));
        assert_eq!(restored, value as f32 / 127.0);
        if value >= -127 {
            // Restoring and quantising again gives the component back.
            assert_eq!(quantized(&[restored; DIMENSIONS])[0], value as i8);
        }
    }
    let chunk: Vec<i8> = (0..20).map(|value| value * 6 - 60).collect();
    let restored: Vec<f32> = centroid_from_quantized(&chunk).iter().map(evaluate).collect();
    let expected: Vec<f32> = chunk[..DIMENSIONS].iter().map(|v| *v as f32 / 127.0).collect();
    assert_eq!(restored, expected);
}

#[test]
fn distance_sums_squared_differences() {
    let mut query = [0_i8; PACKED_DIMENSIONS];
    let mut candidate = [0_u8; PACKED_DIMENSIONS + 1];
    assert_eq!(squared_distance_i8_scalar(&query, &candidate), 0);
    query[0] = 3;
    query[1] = -128;
    query[15] = 10;
    candidate[0] = (-4_i8) as u8;
    candidate[1] = 127;
    candidate[15] = 9;
    candidate[16] = 77;
    assert_eq!(squared_distance_i8_scalar(&query, &candidate), 49 + 65025 + 1);
    assert_eq!(squared_distance_i8_scalar(&[127; PACKED_DIMENSIONS], &[0x80; 16]), 16 * 65025);
}

#[test]
fn distance_of_numbers_is_summed_in_order() {
    let query: [f32; PACKED_DIMENSIONS] = [
        0.1, 1e-3, -2.5, 3e4, 0.7, -1.0, 0.3333, 1.0, 5.5, 1e-7, 0.0, 12.25, 0.9, 0.2, 7.0, -3.0,
    ];
    let candidate: [f32; PACKED_DIMENSIONS] = [
        0.2, -1e3, 2.5, 0.5, 0.7, 1.0, 0.1, 1e-5, 5.25, 1.0, 0.3, 12.0, 0.6, 0.4, 6.5, -2.0,
    ];
    let distance = |count: usize| {
        let mut sum = 0.0_f32;
        for idx in 0..count {
            let delta = query[idx] - candidate[idx];
            sum += delta * delta;
        }
        sum
    };
    let wide = squared_distance_f32_scalar(&query.map(single), &candidate.map(single));
    assert_eq!(evaluate(&wide), distance(PACKED_DIMENSIONS));

    let mut narrow_query = [single(0.0); DIMENSIONS];
    let mut narrow_candidate = [single(0.0); DIMENSIONS];
    for idx in 0..DIMENSIONS {
        narrow_query[idx] = single(query[idx]);
        narrow_candidate[idx] = single(candidate[idx]);
    }
    let narrow = centroid_distance(&narrow_query, &narrow_candidate);
    assert_eq!(evaluate(&narrow), distance(DIMENSIONS));
    let padded = squared_distance_f32_scalar(
        &pad_centroid(&narrow_query),
        &pad_centroid(&narrow_candidate),
    );
    assert_eq!(evaluate(&padded), distance(DIMENSIONS));
}

#[test]
fn distance_is_symmetric() {
    let a: [i8; DIMENSIONS] = [1, -2, 3, -4, 5, -6, 7, -8, 9, -10, 11, -12, 13, -128];
    let b: [i8; DIMENSIONS] = [127, 0, -128, 4, 5, 6, -70, 8, -9, 100, 1, -1, 31, 127];
    let forth = squared_distance_i8(&a, &b.map(|component| component as u8));
    let back = squared_distance_i8(&b, &a.map(|component| component as u8));
    assert_eq!(forth, back);
}

#[test]
fn zero_lanes_keep_the_distance() {
    let query: [i8; DIMENSIONS] = [1, -2, 3, -4, 5, -6, 7, -8, 9, -10, 11, -12, 13, -128];
    let candidate: [u8; DIMENSIONS] = [0, 255, 1, 254, 2, 253, 3, 252, 4, 251, 5, 250, 6, 127];
    let narrow = squared_distance_i8(&query, &candidate);
    let mut wide = [0_u8; PACKED_DIMENSIONS];
    wide[..DIMENSIONS].copy_from_slice(&candidate);
    assert_eq!(squared_distance_i8_scalar(&quantize_vector_padded(&query), &wide), narrow);
    let expected: i32 = query
        .iter()
        .zip(candidate.iter())
        .map(|(q, c)| (*q as i32 - *c as i8 as i32).pow(2))
        .sum();
    assert_eq!(narrow as i32, expected);
}

#[test]
fn scores_top_five_neighbors() {
    let response = score_neighbors(&[1, 1, 1, 0, 0]);
    assert_eq!(response.approved, false);
    assert_eq!(evaluate(&response.fraud_score), 0.6);
    assert_eq!(response, FraudResponse { approved: false, fraud_score: share(3) });
    assert_eq!(response.clone(), response);
}

#[test]
fn three_frauds_of_five_refuse() {
    for frauds in 0..=5 {
        let mut labels = [0_u8; 5];
        labels[..frauds].fill(1);
        let response = score_neighbors(&labels);
        let score = frauds as f32 / TOP_K as f32;
        assert_eq!(response.approved, score < 0.6);
        assert_eq!(evaluate(&response.fraud_score), score);
    }
    // Another label than 1 is no fraud, and any number of labels can be scored.
    assert_eq!(
        score_neighbors(&[2, 255, 1]),
        FraudResponse { approved: true, fraud_score: share(1) }
    );
    assert_eq!(
        score_neighbors(&[1; 7]),
        FraudResponse { approved: false, fraud_score: share(7) }
    );
    assert_eq!(score_neighbors(&[]), FraudResponse { approved: true, fraud_score: share(0) });
}

#[test]
fn denial_has_the_full_score() {
    let response = deny_response();
    assert_eq!(response.approved, false);
    assert_eq!(evaluate(&response.fraud_score), 1.0);
}
