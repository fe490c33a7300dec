use rinha_backend_2026::evaluation::{
    build_output, records_to_process, CaseOutcome, CaseReport, ConfusionMatrix, DetectionKind,
    EvalStats, Evaluation, Ratio, ratio,
};

#[test]
fn confusion_matrix_update_matches_official_meaning() {
    let mut matrix = ConfusionMatrix::default();
    assert_eq!(matrix.update(false, false), DetectionKind::TruePositive);
    assert_eq!(matrix.update(true, true), DetectionKind::TrueNegative);
    assert_eq!(matrix.update(true, false), DetectionKind::FalsePositive);
    assert_eq!(matrix.update(false, true), DetectionKind::FalseNegative);

    assert_eq!(matrix.true_positive_detections, 1);
    assert_eq!(matrix.true_negative_detections, 1);
    assert_eq!(matrix.false_positive_detections, 1);
    assert_eq!(matrix.false_negative_detections, 1);
    assert_eq!(matrix.weighted_errors(), 4);
    assert_eq!(matrix.evaluated(), 4);
}

#[test]
fn limit_caps_the_records() {
    assert_eq!(records_to_process(10, None), 10);
    assert_eq!(records_to_process(10, Some(3)), 3);
    assert_eq!(records_to_process(10, Some(10)), 10);
    assert_eq!(records_to_process(10, Some(11)), 10);
    assert_eq!(records_to_process(10, Some(0)), 0);
}

fn scored(expected_approved: bool, predicted_approved: bool) -> CaseOutcome {
    CaseOutcome::Scored { expected_approved, predicted_approved }
}

#[test]
fn mismatches_are_reported_up_to_the_limit() {
    let mut evaluation = Evaluation::new(2);
    assert_eq!(evaluation.step(scored(true, true)), CaseReport::Nothing);
    assert_eq!(
        evaluation.step(scored(true, false)),
        CaseReport::Mismatch { kind: DetectionKind::FalsePositive }
    );
    assert_eq!(evaluation.step(CaseOutcome::ParseFailed), CaseReport::ParseError);
    assert_eq!(evaluation.step(CaseOutcome::SearchFailed), CaseReport::SearchError);
    assert_eq!(
        evaluation.step(scored(false, true)),
        CaseReport::Mismatch { kind: DetectionKind::FalseNegative }
    );
    assert_eq!(evaluation.step(scored(false, true)), CaseReport::Nothing);
    assert_eq!(evaluation.step(scored(false, false)), CaseReport::Nothing);
    assert_eq!(evaluation.mismatches_printed, 2);
    assert_eq!(evaluation.stats.parse_errors, 1);
    assert_eq!(evaluation.stats.search_errors, 1);
    assert_eq!(evaluation.stats.matrix.evaluated(), 5);
    assert_eq!(evaluation.stats.matrix.weighted_errors(), 7);
}

#[test]
fn no_mismatch_is_reported_by_default() {
    let mut evaluation = Evaluation::new(0);
    assert_eq!(evaluation.step(scored(true, false)), CaseReport::Nothing);
    assert_eq!(evaluation.stats.matrix.false_positive_detections, 1);
}

#[test]
fn output_sums_the_counters_up() {
    let stats = EvalStats {
        matrix: ConfusionMatrix {
            true_positive_detections: 10,
            true_negative_detections: 20,
            false_positive_detections: 3,
            false_negative_detections: 4,
        },
        parse_errors: 5,
        search_errors: 6,
    };
    let output = build_output(100, "dir".to_string(), 8, 64, true, 3, &stats);
    assert_eq!(output.adaptive_probing_enabled, true);
    assert_eq!(output.adaptive_initial_probes, 3);
    assert_eq!(output.total, 100);
    assert_eq!(output.evaluated, 37);
    assert_eq!(output.true_positive_detections, 10);
    assert_eq!(output.true_negative_detections, 20);
    assert_eq!(output.false_positive_detections, 3);
    assert_eq!(output.false_negative_detections, 4);
    assert_eq!(output.weighted_errors_e, 15);
    assert_eq!(output.weighted_errors_e_with_errors_as_fn, 48);
    assert_eq!(output.failure_rate, Ratio { numerator: 15, denominator: 37 });
    assert_eq!(output.error_rate_epsilon, Ratio { numerator: 15, denominator: 37 });
    assert_eq!(output.accuracy, Ratio { numerator: 30, denominator: 37 });
    assert_eq!(output.fraud_recall, Ratio { numerator: 10, denominator: 14 });
    assert_eq!(output.fraud_precision, Ratio { numerator: 10, denominator: 13 });
    assert_eq!(output.legit_recall, Ratio { numerator: 20, denominator: 23 });
    assert_eq!(output.artifact_dir, "dir");
    assert_eq!(output.probe_count, 8);
    assert_eq!(output.cluster_count, 64);
    assert_eq!(output.parse_errors, 5);
    assert_eq!(output.search_errors, 6);
}

#[test]
fn shares_of_nothing_are_zero() {
    let output = build_output(0, String::new(), 1, 1, false, 1, &EvalStats::default());
    assert_eq!(output.adaptive_probing_enabled, false);
    assert_eq!(output.adaptive_initial_probes, 1);
    let zero = Ratio { numerator: 0, denominator: 1 };
    assert_eq!(output.evaluated, 0);
    assert_eq!(output.failure_rate, zero);
    assert_eq!(output.error_rate_epsilon, zero);
    assert_eq!(output.accuracy, zero);
    assert_eq!(output.fraud_recall, zero);
    assert_eq!(output.fraud_precision, zero);
    assert_eq!(output.legit_recall, zero);
    assert_eq!(ratio(3, 0), zero);
    assert_eq!(ratio(3, 4), Ratio { numerator: 3, denominator: 4 });
}
