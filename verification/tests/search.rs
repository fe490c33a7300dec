use rinha_backend_2026::decision::{score_neighbors, FraudResponse};
use rinha_backend_2026::distance::{centroid_distance, squared_distance_i8};
use rinha_backend_2026::formula::Formula;
use rinha_backend_2026::quantize::quantize_vector;
use rinha_backend_2026::ranking::rank_clusters;
use rinha_backend_2026::search::{
    load_centroids, ArtifactMeta, OpenError, SearchEngine, SearchError, CENTROID_BYTES,
};
use rinha_backend_2026::single::Single;
use rinha_backend_2026::top_k::TopK;
use rinha_backend_2026::DIMENSIONS;

fn single(value: f32) -> Single {
    Single::from_bits(value.to_bits())
}

/// The share of so many neighbours in five.
fn share(count: i64) -> Formula {
    Formula::quotient(Formula::Integer(count), Formula::Integer(5))
}

fn meta(lists: &[(u64, u32)], probe_count: usize) -> ArtifactMeta {
    ArtifactMeta {
        version: 2,
        dimensions: DIMENSIONS,
        vector_count: lists.iter().map(|list| list.1 as u64).sum(),
        cluster_count: lists.len(),
        probe_count,
        list_offsets: lists.iter().map(|list| list.0).collect(),
        list_lengths: lists.iter().map(|list| list.1).collect(),
    }
}

/// Vectors whose first component is given and whose others are zero.
fn vectors(first: &[i8]) -> Vec<u8> {
    let mut raw = Vec::new();
    for value in first {
        raw.push(*value as u8);
        raw.extend([0; DIMENSIONS - 1]);
    }
    raw
}

fn engine<'a>(meta: ArtifactMeta, vectors: &'a [u8], labels: &'a [u8]) -> SearchEngine<'a> {
    let centroids = vec![0_u8; CENTROID_BYTES * meta.cluster_count];
    match SearchEngine::open(meta, None, &centroids, vectors, labels) {
        Ok(engine) => engine,
        Err(error) => panic!("{}", error.message()),
    }
}

fn distances(values: &[f32]) -> Vec<Single> {
    values.iter().map(|value| single(*value)).collect()
}

#[test]
fn clusters_are_ranked_as_a_stable_sort_ranks_them() {
    let mut state: u32 = 99;
    for count in 0..60 {
        let values: Vec<f32> = (0..count)
            .map(|_| {
                state = state.wrapping_mul(1664525).wrapping_add(1013904223);
                ((state >> 20) % 16) as f32 * 0.37
            })
            .collect();
        let mut expected: Vec<(f32, usize)> =
            values.iter().enumerate().map(|(idx, value)| (*value, idx)).collect();
        expected.sort_by(|left, right| {
            left.0.partial_cmp(&right.0).unwrap_or(std::cmp::Ordering::Equal)
        });
        let expected: Vec<usize> = expected.iter().map(|pair| pair.1).collect();
        assert_eq!(rank_clusters(&distances(&values)), expected);
    }
    // Where no distance is less than another, all are equal.
    assert_eq!(rank_clusters(&distances(&[f32::NAN, 1.0])), vec![0, 1]);
    assert_eq!(rank_clusters(&distances(&[1.0, f32::NAN, 1.0, f32::NAN])), vec![0, 1, 2, 3]);
    assert_eq!(rank_clusters(&distances(&[0.0, f32::NAN, -0.0])), vec![0, 1, 2]);
    assert_eq!(rank_clusters(&distances(&[-0.0, 0.0, -1.0])), vec![2, 0, 1]);
    assert_eq!(rank_clusters(&distances(&[f32::NAN, -f32::NAN, f32::NAN])), vec![0, 1, 2]);
    assert_eq!(rank_clusters(&distances(&[f32::NAN, f32::INFINITY, 0.0])), vec![2, 1, 0]);
}

#[test]
fn every_centroid_has_its_distance() {
    let values: Vec<f32> = (0..3 * DIMENSIONS).map(|idx| idx as f32 * 0.01 - 0.2).collect();
    let raw: Vec<u8> = values.iter().flat_map(|value| value.to_le_bytes()).collect();
    let meta = meta(&[(0, 0), (0, 0), (0, 0)], 1);
    let engine = match SearchEngine::open(meta, None, &raw, &[], &[]) {
        Ok(engine) => engine,
        Err(error) => panic!("{}", error.message()),
    };
    let query = [single(0.5); DIMENSIONS];
    let distances = engine.centroid_distances(&query);
    assert_eq!(distances.len(), 3);
    for idx in 0..3 {
        let mut centroid = [single(0.0); DIMENSIONS];
        for component in 0..DIMENSIONS {
            centroid[component] = single(values[DIMENSIONS * idx + component]);
        }
        assert_eq!(distances[idx], centroid_distance(&query, &centroid));
    }
    assert_ne!(distances[0], distances[1]);
}

#[test]
fn formulas_of_a_query_decide() {
    fn evaluate(formula: &Formula) -> f32 {
        match formula {
            Formula::Value(value) => f32::from_bits(value.to_bits()),
            Formula::Sum(a, b) => evaluate(a) + evaluate(b),
            Formula::Difference(a, b) => evaluate(a) - evaluate(b),
            Formula::Product(a, b) => evaluate(a) * evaluate(b),
            Formula::Square(a) => evaluate(a) * evaluate(a),
            Formula::Rounded(a) => evaluate(a).round(),
            _ => panic!("another formula"),
        }
    }
    // Two centroids whose components are all 0.25 and all -0.5.
    let raw: Vec<u8> = [0.25_f32, -0.5]
        .iter()
        .flat_map(|value| [*value; DIMENSIONS])
        .flat_map(|value| value.to_le_bytes())
        .collect();
    let vectors = vectors(&[1, 2, 3, 4, 5, -1, -2, -3, -4, -5]);
    let labels = [1, 1, 1, 1, 0, 0, 0, 0, 0, 1];
    let engine = match SearchEngine::open(
        meta(&[(0, 5), (5, 5)], 1),
        None,
        &raw,
        &vectors,
        &labels,
    ) {
        Ok(engine) => engine,
        Err(error) => panic!("{}", error.message()),
    };
    for (component, frauds) in [(0.2, 4), (-0.4, 1), (-0.12, 4), (-0.13, 1)] {
        let query = [single(component); DIMENSIONS];
        let mut quantized = [0_i8; DIMENSIONS];
        for (byte, formula) in quantized.iter_mut().zip(quantize_vector(&query)) {
            *byte = evaluate(&formula) as i8;
        }
        let distances: Vec<Single> = engine
            .centroid_distances(&query)
            .iter()
            .map(|formula| single(evaluate(formula)))
            .collect();
        let response = engine.score(&quantized, &distances).unwrap();
        assert_eq!(response.fraud_score, share(frauds), "{component}");
    }
}

#[test]
fn probe_count_is_overridden_within_range() {
    let lists = [(0, 1), (1, 1), (2, 1)];
    for (asked, expected) in [(0, 1), (1, 1), (2, 2), (3, 3), (4, 3), (usize::MAX, 3)] {
        let prepared = meta(&lists, 9).prepare(Some(asked)).unwrap();
        assert_eq!(prepared.probe_count, expected);
        assert_eq!(prepared.prepare(Some(expected)).unwrap().probe_count, expected);
    }
    // Without an override the file's own count stays, whatever it is.
    assert_eq!(meta(&lists, 9).prepare(None).unwrap().probe_count, 9);
    assert_eq!(meta(&lists, 0).prepare(None).unwrap().probe_count, 0);
    assert_eq!(meta(&[], 4).prepare(Some(4)).unwrap().probe_count, 0);
}

#[test]
fn other_dimensions_are_refused() {
    let mut wide = meta(&[(0, 1)], 1);
    wide.dimensions = 16;
    let error = wide.prepare(Some(1)).unwrap_err();
    assert_eq!(error, OpenError::DimensionMismatch { got: 16 });
    assert_eq!(error.message(), "artifact dimension mismatch: expected 14 got 16");

    let mut wide = meta(&[(0, 1)], 1);
    wide.dimensions = 16;
    // The dimensions are checked before the centroids.
    match SearchEngine::open(wide, None, &[], &[], &[]) {
        Err(error) => assert_eq!(error, OpenError::DimensionMismatch { got: 16 }),
        Ok(_) => panic!("opened"),
    }
}

#[test]
fn centroids_are_decoded() {
    let values: Vec<f32> = (0..2 * DIMENSIONS).map(|idx| idx as f32 * -1.37e-3 + 0.01).collect();
    let raw: Vec<u8> = values.iter().flat_map(|value| value.to_le_bytes()).collect();
    let centroids = load_centroids(&raw, 2).unwrap();
    assert_eq!(centroids.len(), 2);
    let decoded: Vec<f32> = centroids
        .iter()
        .flatten()
        .map(|component| f32::from_bits(component.to_bits()))
        .collect();
    assert_eq!(decoded, values);
    assert_eq!(load_centroids(&[], 0).unwrap().len(), 0);

    let error = load_centroids(&raw, 3).unwrap_err();
    assert_eq!(error, OpenError::CentroidSizeMismatch { expected: 168, got: 112 });
    assert_eq!(error.message(), "centroids.bin size mismatch: expected 168 got 112");
    match SearchEngine::open(meta(&[(0, 1)], 1), Some(3), &raw, &[], &[]) {
        Err(error) => {
            assert_eq!(error, OpenError::CentroidSizeMismatch { expected: 56, got: 112 })
        }
        Ok(_) => panic!("opened"),
    }
    match SearchEngine::open(meta(&[(0, 1), (1, 1)], 9), Some(5), &raw, &[1, 2], &[3]) {
        Ok(engine) => {
            assert_eq!(engine.meta.probe_count, 2);
            assert_eq!(engine.centroids, centroids);
            assert_eq!(engine.vectors, &[1, 2]);
            assert_eq!(engine.labels, &[3]);
        }
        Err(error) => panic!("{}", error.message()),
    }
}

#[test]
fn nearest_five_decide() {
    let vectors = vectors(&[1, 2, 3, 4, 5, 6, -1, -2]);
    let labels = [1, 0, 1, 0, 0, 1, 1, 0];
    let engine = engine(meta(&[(0, 8)], 1), &vectors, &labels);
    // The nearest to zero are 1, -1, 2, -2 and 3: three frauds.
    assert_eq!(
        engine.score(&[0; DIMENSIONS], &distances(&[0.0])),
        Ok(FraudResponse { approved: false, fraud_score: share(3) })
    );
    let mut query = [0_i8; DIMENSIONS];
    query[0] = 5;
    // The nearest to five are 5, 4, 6, 3 and 2: two frauds.
    assert_eq!(
        engine.score(&query, &distances(&[0.0])),
        Ok(FraudResponse { approved: true, fraud_score: share(2) })
    );
}

#[test]
fn lists_are_probed_nearest_first_until_enough() {
    // Two lists of three, and one of two, at different distances.
    let vectors = vectors(&[10, 10, 10, 20, 20, 20, 1, 1]);
    let labels = [1, 1, 1, 0, 0, 0, 1, 1];
    let lists = [(0, 3), (3, 3), (6, 2)];
    let answer = |probe_count: usize, order: &[f32]| {
        engine(meta(&lists, probe_count), &vectors, &labels)
            .score(&[0; DIMENSIONS], &distances(order))
            .unwrap()
            .fraud_score
    };
    // One list is not enough, so a second one is probed.
    assert_eq!(answer(1, &[1.0, 2.0, 3.0]), share(3));
    assert_eq!(answer(0, &[2.0, 1.0, 3.0]), share(3));
    assert_eq!(answer(2, &[1.0, 3.0, 2.0]), share(5));
    // All lists.
    assert_eq!(answer(3, &[1.0, 2.0, 3.0]), share(5));
    assert_eq!(answer(99, &[1.0, 2.0, 3.0]), share(5));
}

#[test]
fn exhaustive_search_is_exact() {
    let mut state: u32 = 4242;
    let mut next = || {
        state = state.wrapping_mul(1664525).wrapping_add(1013904223);
        (state >> 16) as u8
    };
    let raw: Vec<u8> = (0..40 * DIMENSIONS).map(|_| next()).collect();
    let labels: Vec<u8> = (0..40).map(|_| next() % 2).collect();
    let lists = [(0, 13), (13, 0), (13, 20), (33, 7)];
    for _ in 0..50 {
        let mut query = [0_i8; DIMENSIONS];
        for component in query.iter_mut() {
            *component = next() as i8;
        }
        let engine = engine(meta(&lists, 4), &raw, &labels);
        let order = distances(&[next() as f32, next() as f32, next() as f32, next() as f32]);
        let mut all: Vec<(u32, u8)> = (0..40)
            .map(|idx| {
                let candidate = &raw[idx * DIMENSIONS..(idx + 1) * DIMENSIONS];
                (squared_distance_i8(&query, candidate), labels[idx])
            })
            .collect();
        all.sort();
        assert!(all[4].0 != all[5].0, "the nearest five are determined");
        let nearest: Vec<u8> = all[..5].iter().map(|pair| pair.1).collect();
        assert_eq!(engine.score(&query, &order), Ok(score_neighbors(&nearest)));
    }
}

#[test]
fn missing_candidates_are_errors() {
    let vectors = vectors(&[1, 2, 3, 4, 5]);
    let labels = [0, 0, 0, 0, 0];
    let query = [0; DIMENSIONS];

    let short = engine(meta(&[(0, 2), (2, 2)], 1), &vectors, &labels);
    let error = short.score(&query, &distances(&[0.0, 1.0])).unwrap_err();
    assert_eq!(error, SearchError::NotEnoughCandidates);
    assert_eq!(error.message(), "not enough candidates to score top-5 neighbors");
    let none = engine(meta(&[], 1), &vectors, &labels);
    assert_eq!(none.score(&query, &[]), Err(SearchError::NotEnoughCandidates));

    let long = engine(meta(&[(0, 6)], 1), &vectors, &labels);
    let error = long.score(&query, &distances(&[0.0])).unwrap_err();
    assert_eq!(error, SearchError::VectorOutOfBounds);
    assert_eq!(error.message(), "vector slice out of bounds");
    let late = engine(meta(&[(1_000_000, 1)], 1), &vectors, &labels);
    assert_eq!(
        late.score(&query, &distances(&[0.0])),
        Err(SearchError::VectorOutOfBounds)
    );

    let unlabelled = engine(meta(&[(0, 5)], 1), &vectors, &labels[..4]);
    let error = unlabelled.score(&query, &distances(&[0.0])).unwrap_err();
    assert_eq!(error, SearchError::LabelOutOfBounds);
    assert_eq!(error.message(), "label index out of bounds");
}

#[test]
fn stored_lists_are_answered_if_they_hold_five() {
    let vectors = vectors(&[1, 2, 3, 4, 5, 6]);
    let labels = [1, 0, 1, 0, 1, 0];
    for first in 0..=3 {
        for second in 0..=3 {
            let lists = [(0, first), (3, second)];
            for probe_count in 0..=3 {
                let result = engine(meta(&lists, probe_count), &vectors, &labels)
                    .try_score(&[0; DIMENSIONS], &distances(&[2.0, 1.0]));
                if first + second >= 5 {
                    assert!(matches!(result, Some(Ok(_))));
                } else {
                    assert_eq!(result, Some(Err(SearchError::NotEnoughCandidates)));
                }
            }
        }
    }
}

#[test]
fn error_in_a_list_that_is_not_probed_does_not_matter() {
    let vectors = vectors(&[1, 2, 3, 4, 5]);
    let labels = [1, 1, 1, 1, 1];
    let engine = engine(meta(&[(0, 5), (3, 9)], 1), &vectors, &labels);
    assert_eq!(
        engine.score(&[0; DIMENSIONS], &distances(&[1.0, 2.0])),
        Ok(FraudResponse { approved: false, fraud_score: share(5) })
    );
    assert_eq!(
        engine.score(&[0; DIMENSIONS], &distances(&[2.0, 1.0])),
        Err(SearchError::VectorOutOfBounds)
    );
}

#[test]
fn lists_out_of_range_are_told_apart() {
    let vectors = vectors(&[1, 2, 3, 4, 5]);
    let labels = [1, 1, 1, 1, 1];
    let query = [0; DIMENSIONS];

    let mut undescribed = meta(&[(0, 5), (0, 5)], 1);
    undescribed.list_lengths.pop();
    let undescribed = engine(undescribed, &vectors, &labels);
    assert_eq!(undescribed.try_score(&query, &distances(&[2.0, 1.0])), None);
    assert_eq!(
        undescribed.try_score(&query, &distances(&[1.0, 2.0])),
        Some(Ok(FraudResponse { approved: false, fraud_score: share(5) }))
    );

    let far = engine(meta(&[(u64::MAX, 1), (0, 5)], 2), &vectors, &labels);
    assert_eq!(far.try_score(&query, &distances(&[1.0, 2.0])), None);
    let far_but_empty = engine(meta(&[(u64::MAX, 0), (0, 5)], 2), &vectors, &labels);
    assert_eq!(
        far_but_empty.try_score(&query, &distances(&[1.0, 2.0])),
        Some(Ok(FraudResponse { approved: false, fraud_score: share(5) }))
    );
}

#[test]
fn scan_keeps_what_came_before_an_error() {
    let vectors = vectors(&[1, 2, 3]);
    let labels = [7, 8, 9];
    let engine = engine(meta(&[(1, 5)], 1), &vectors, &labels);
    let mut top_k = TopK::new();
    top_k.insert(100, 6);
    assert_eq!(
        engine.scan_cluster(0, &[0; DIMENSIONS], &mut top_k),
        Err(SearchError::VectorOutOfBounds)
    );
    assert_eq!(top_k.len(), 3);
    assert_eq!(top_k.labels(), [6, 8, 9, 0, 0]);
}
