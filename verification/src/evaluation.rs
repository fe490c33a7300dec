//! Counting decisions against what is expected of them.
use vstd::prelude::*;

verus! {

/// How a decision compares with the expected one; fraud is what is to be
/// detected.
#[derive(Clone, Copy, Debug, PartialEq, Eq, Structural)]
pub enum DetectionKind {
    TruePositive,
    TrueNegative,
    FalsePositive,
    FalseNegative,
}

/// Decisions counted by kind.
#[derive(Clone, Copy, Debug, PartialEq, Eq, Structural)]
pub struct ConfusionMatrix {
    pub true_positive_detections: u64,
    pub true_negative_detections: u64,
    pub false_positive_detections: u64,
    pub false_negative_detections: u64,
}

/// The kind of a decision: a refusal is a detection, and it is true if a refusal
/// was expected.
pub open spec fn detection(expected_approved: bool, predicted_approved: bool) -> DetectionKind {
    match (expected_approved, predicted_approved) {
        (false, false) => DetectionKind::TruePositive,
        (true, true) => DetectionKind::TrueNegative,
        (true, false) => DetectionKind::FalsePositive,
        (false, true) => DetectionKind::FalseNegative,
    }
}

impl Default for ConfusionMatrix {
    fn default() -> (matrix: ConfusionMatrix)
        ensures
            matrix == ConfusionMatrix::empty(),
    {
        ConfusionMatrix {
            true_positive_detections: 0,
            true_negative_detections: 0,
            false_positive_detections: 0,
            false_negative_detections: 0,
        }
    }
}

impl ConfusionMatrix {
    /// No decision yet.
    pub open spec fn empty() -> ConfusionMatrix {
        ConfusionMatrix {
            true_positive_detections: 0,
            true_negative_detections: 0,
            false_positive_detections: 0,
            false_negative_detections: 0,
        }
    }

    /// The number of decisions of a kind.
    pub open spec fn count(self, kind: DetectionKind) -> u64 {
        match kind {
            DetectionKind::TruePositive => self.true_positive_detections,
            DetectionKind::TrueNegative => self.true_negative_detections,
            DetectionKind::FalsePositive => self.false_positive_detections,
            DetectionKind::FalseNegative => self.false_negative_detections,
        }
    }

    /// The number of all decisions.
    pub open spec fn total(self) -> int {
        self.true_positive_detections + self.true_negative_detections
            + self.false_positive_detections + self.false_negative_detections
    }

    /// The weight of the errors: a fraud that was missed weighs three times as much
    /// as a false alarm.
    pub open spec fn error_weight(self) -> int {
        self.false_positive_detections + 3 * self.false_negative_detections
    }

    /// The counts after one more decision of a kind.
    pub open spec fn counted(self, kind: DetectionKind) -> ConfusionMatrix {
        match kind {
            DetectionKind::TruePositive => ConfusionMatrix {
                true_positive_detections: (self.true_positive_detections + 1) as u64,
                ..self
            },
            DetectionKind::TrueNegative => ConfusionMatrix {
                true_negative_detections: (self.true_negative_detections + 1) as u64,
                ..self
            },
            DetectionKind::FalsePositive => ConfusionMatrix {
                false_positive_detections: (self.false_positive_detections + 1) as u64,
                ..self
            },
            DetectionKind::FalseNegative => ConfusionMatrix {
                false_negative_detections: (self.false_negative_detections + 1) as u64,
                ..self
            },
        }
    }

    /// Counts a decision.
    pub fn update(&mut self, expected_approved: bool, predicted_approved: bool) -> (kind:
        DetectionKind)
        requires
            old(self).count(detection(expected_approved, predicted_approved)) < u64::MAX,
        ensures
            kind == detection(expected_approved, predicted_approved),
            *final(self) == old(self).counted(kind),
            kind is TruePositive <==> !expected_approved && !predicted_approved,
            kind is TrueNegative <==> expected_approved && predicted_approved,
            kind is FalsePositive <==> expected_approved && !predicted_approved,
            kind is FalseNegative <==> !expected_approved && predicted_approved,
            final(self).true_positive_detections - old(self).true_positive_detections == if kind
                is TruePositive {
                1int
            } else {
                0int
            },
            final(self).true_negative_detections - old(self).true_negative_detections == if kind
                is TrueNegative {
                1int
            } else {
                0int
            },
            final(self).false_positive_detections - old(self).false_positive_detections == if kind
                is FalsePositive {
                1int
            } else {
                0int
            },
            final(self).false_negative_detections - old(self).false_negative_detections == if kind
                is FalseNegative {
                1int
            } else {
                0int
            },
    {
        match (expected_approved, predicted_approved) {
            (false, false) => {
                self.true_positive_detections += 1;
                DetectionKind::TruePositive
            },
            (true, true) => {
                self.true_negative_detections += 1;
                DetectionKind::TrueNegative
            },
            (true, false) => {
                self.false_positive_detections += 1;
                DetectionKind::FalsePositive
            },
            (false, true) => {
                self.false_negative_detections += 1;
                DetectionKind::FalseNegative
            },
        }
    }

    /// The number of all decisions.
    pub fn evaluated(&self) -> (count: u64)
        requires
            self.total() <= u64::MAX,
        ensures
            count == self.total(),
            count == self.true_positive_detections + self.true_negative_detections
                + self.false_positive_detections + self.false_negative_detections,
    {
        self.true_positive_detections + self.true_negative_detections
            + self.false_positive_detections + self.false_negative_detections
    }

    /// The weight of the errors.
    pub fn weighted_errors(&self) -> (weight: u64)
        requires
            self.error_weight() <= u64::MAX,
        ensures
            weight == self.error_weight(),
            weight == self.false_positive_detections + self.false_negative_detections
                + self.false_negative_detections + self.false_negative_detections,
    {
        self.false_positive_detections + 3 * self.false_negative_detections
    }
}

/// Every decision is counted once: the total grows by one, the count of its kind
/// grows by one, the other counts stay, and the weight grows by one for a false
/// alarm, by three for a missed fraud, and not at all for a right decision.
pub proof fn law_decision_is_counted_once(matrix: ConfusionMatrix, kind: DetectionKind)
    requires
        matrix.count(kind) < u64::MAX,
    ensures
        matrix.counted(kind).total() == matrix.total() + 1,
        matrix.counted(kind).count(kind) == matrix.count(kind) + 1,
        forall|other: DetectionKind|
            other != kind ==> matrix.counted(kind).count(other) == matrix.count(other),
        matrix.counted(kind).error_weight() == matrix.error_weight() + match kind {
            DetectionKind::FalsePositive => 1int,
            DetectionKind::FalseNegative => 3int,
            _ => 0int,
        },
{
}

/// What became of one record.
#[derive(Clone, Copy, Debug, PartialEq, Eq, Structural)]
pub enum CaseOutcome {
    /// The record could not be read.
    ParseFailed,
    /// The search found no answer.
    SearchFailed,
    /// The record was decided on.
    Scored { expected_approved: bool, predicted_approved: bool },
}

/// What is to be reported of one record.
#[derive(Clone, Copy, Debug, PartialEq, Eq, Structural)]
pub enum CaseReport {
    Nothing,
    ParseError,
    SearchError,
    /// A decision that is not the expected one.
    Mismatch { kind: DetectionKind },
}

/// Everything that is counted in an evaluation.
#[derive(Clone, Copy, Debug, PartialEq, Eq, Structural)]
pub struct EvalStats {
    pub matrix: ConfusionMatrix,
    pub parse_errors: u64,
    pub search_errors: u64,
}

impl Default for EvalStats {
    fn default() -> (stats: EvalStats)
        ensures
            stats == EvalStats::empty(),
    {
        EvalStats { matrix: ConfusionMatrix::default(), parse_errors: 0, search_errors: 0 }
    }
}

impl EvalStats {
    /// Nothing counted yet.
    pub open spec fn empty() -> EvalStats {
        EvalStats { matrix: ConfusionMatrix::empty(), parse_errors: 0, search_errors: 0 }
    }

    /// The number of records that have been counted.
    pub open spec fn processed(self) -> int {
        self.matrix.total() + self.parse_errors + self.search_errors
    }

    /// The counter that an outcome adds to.
    pub open spec fn counter(self, outcome: CaseOutcome) -> u64 {
        match outcome {
            CaseOutcome::ParseFailed => self.parse_errors,
            CaseOutcome::SearchFailed => self.search_errors,
            CaseOutcome::Scored { expected_approved, predicted_approved } => self.matrix.count(
                detection(expected_approved, predicted_approved),
            ),
        }
    }

    /// The counters after one more outcome.
    pub open spec fn counted(self, outcome: CaseOutcome) -> EvalStats {
        match outcome {
            CaseOutcome::ParseFailed => EvalStats {
                parse_errors: (self.parse_errors + 1) as u64,
                ..self
            },
            CaseOutcome::SearchFailed => EvalStats {
                search_errors: (self.search_errors + 1) as u64,
                ..self
            },
            CaseOutcome::Scored { expected_approved, predicted_approved } => EvalStats {
                matrix: self.matrix.counted(detection(expected_approved, predicted_approved)),
                ..self
            },
        }
    }
}

/// Every record adds one to the records counted.
pub proof fn law_record_is_counted_once(stats: EvalStats, outcome: CaseOutcome)
    requires
        stats.counter(outcome) < u64::MAX,
    ensures
        stats.counted(outcome).processed() == stats.processed() + 1,
{
}

/// An evaluation in progress.
#[derive(Debug)]
pub struct Evaluation {
    pub stats: EvalStats,
    /// Mismatches reported so far.
    pub mismatches_printed: usize,
    /// Mismatches to report at most.
    pub print_mismatches: usize,
}

/// Whether a decision of this kind is not the expected one.
pub open spec fn is_mismatch(kind: DetectionKind) -> bool {
    kind is FalsePositive || kind is FalseNegative
}

/// What is to be reported of an outcome, if `printed` of at most `limit`
/// mismatches have been.
pub open spec fn report_on(outcome: CaseOutcome, printed: usize, limit: usize) -> CaseReport {
    match outcome {
        CaseOutcome::ParseFailed => CaseReport::ParseError,
        CaseOutcome::SearchFailed => CaseReport::SearchError,
        CaseOutcome::Scored { expected_approved, predicted_approved } => {
            let kind = detection(expected_approved, predicted_approved);
            if is_mismatch(kind) && printed < limit {
                CaseReport::Mismatch { kind }
            } else {
                CaseReport::Nothing
            }
        },
    }
}

impl Evaluation {
    /// An evaluation that reports at most so many mismatches.
    pub fn new(print_mismatches: usize) -> (evaluation: Evaluation)
        ensures
            evaluation.stats == EvalStats::empty(),
            evaluation.mismatches_printed == 0,
            evaluation.print_mismatches == print_mismatches,
    {
        Evaluation { stats: EvalStats::default(), mismatches_printed: 0, print_mismatches }
    }

    /// Counts what became of a record and says what to report of it.
    pub fn step(&mut self, outcome: CaseOutcome) -> (report: CaseReport)
        requires
            old(self).stats.counter(outcome) < u64::MAX,
        ensures
            report == report_on(outcome, old(self).mismatches_printed, old(self).print_mismatches),
            final(self).stats == old(self).stats.counted(outcome),
            final(self).print_mismatches == old(self).print_mismatches,
            final(self).mismatches_printed == old(self).mismatches_printed + if report is Mismatch {
                1int
            } else {
                0int
            },
            outcome is ParseFailed <==> report is ParseError,
            outcome is SearchFailed <==> report is SearchError,
            report is Mismatch <==> old(self).mismatches_printed < old(self).print_mismatches && (
            outcome matches CaseOutcome::Scored { expected_approved, predicted_approved }
                && expected_approved != predicted_approved),
            report matches CaseReport::Mismatch { kind } ==> {
                &&& outcome matches CaseOutcome::Scored { expected_approved, .. }
                &&& kind == if expected_approved {
                    DetectionKind::FalsePositive
                } else {
                    DetectionKind::FalseNegative
                }
            },
            final(self).stats.parse_errors - old(self).stats.parse_errors == if outcome
                is ParseFailed {
                1int
            } else {
                0int
            },
            final(self).stats.search_errors - old(self).stats.search_errors == if outcome
                is SearchFailed {
                1int
            } else {
                0int
            },
            !(outcome is Scored) ==> final(self).stats.matrix == old(self).stats.matrix,
            old(self).mismatches_printed <= old(self).print_mismatches
                ==> final(self).mismatches_printed <= final(self).print_mismatches,
    {
        match outcome {
            CaseOutcome::ParseFailed => {
                self.stats.parse_errors += 1;
                CaseReport::ParseError
            },
            CaseOutcome::SearchFailed => {
                self.stats.search_errors += 1;
                CaseReport::SearchError
            },
            CaseOutcome::Scored { expected_approved, predicted_approved } => {
                let kind: DetectionKind = self.stats.matrix.update(
                    expected_approved,
                    predicted_approved,
                );
                let mismatch: bool = match kind {
                    DetectionKind::FalsePositive | DetectionKind::FalseNegative => true,
                    _ => false,
                };
                if mismatch && self.mismatches_printed < self.print_mismatches {
                    self.mismatches_printed += 1;
                    CaseReport::Mismatch { kind }
                } else {
                    CaseReport::Nothing
                }
            },
        }
    }
}

/// The number of records to evaluate.
pub fn records_to_process(total: usize, limit: Option<usize>) -> (count: usize)
    ensures
        count == match limit {
            Some(limit) => if limit < total {
                limit
            } else {
                total
            },
            None => total,
        },
{
    match limit {
        Some(limit) => if limit < total {
            limit
        } else {
            total
        },
        None => total,
    }
}

/// A share, the denominator of which is not zero.
#[derive(Clone, Copy, Debug, PartialEq, Eq, Structural)]
pub struct Ratio {
    pub numerator: u64,
    pub denominator: u64,
}

/// The share of a count in another; of nothing it is zero.
pub open spec fn share(numerator: int, denominator: int) -> Ratio {
    if denominator == 0 {
        Ratio { numerator: 0, denominator: 1 }
    } else {
        Ratio { numerator: numerator as u64, denominator: denominator as u64 }
    }
}

/// The share of a count in another.
pub fn ratio(numerator: u64, denominator: u64) -> (result: Ratio)
    ensures
        result == share(numerator as int, denominator as int),
        result.denominator > 0,
        denominator != 0 ==> result.numerator * denominator == numerator * result.denominator,
        result.numerator == 0 <==> numerator == 0 || denominator == 0,
{
    if denominator == 0 {
        Ratio { numerator: 0, denominator: 1 }
    } else {
        Ratio { numerator, denominator }
    }
}

/// The result of an evaluation.
#[derive(Debug, PartialEq, Eq)]
pub struct EvalOutput {
    pub total: usize,
    pub evaluated: u64,
    pub true_positive_detections: u64,
    pub true_negative_detections: u64,
    pub false_positive_detections: u64,
    pub false_negative_detections: u64,
    pub weighted_errors_e: u64,
    /// The weight of the errors if every record that was not decided on counts as a
    /// missed fraud.
    pub weighted_errors_e_with_errors_as_fn: u64,
    pub failure_rate: Ratio,
    pub error_rate_epsilon: Ratio,
    pub accuracy: Ratio,
    pub fraud_recall: Ratio,
    pub fraud_precision: Ratio,
    pub legit_recall: Ratio,
    pub artifact_dir: String,
    pub probe_count: usize,
    pub cluster_count: usize,
    pub adaptive_probing_enabled: bool,
    pub adaptive_initial_probes: usize,
    pub parse_errors: u64,
    pub search_errors: u64,
}

impl EvalStats {
    /// The weight of the errors if every record that was not decided on counts as a
    /// missed fraud.
    pub open spec fn full_error_weight(self) -> int {
        self.matrix.error_weight() + 3 * (self.parse_errors + self.search_errors)
    }
}

/// The numbers of an output are those of the counters, and its shares are those of
/// the decisions that they are named after.
pub open spec fn reports(output: EvalOutput, stats: EvalStats) -> bool {
    let matrix = stats.matrix;
    &&& output.evaluated == matrix.total()
    &&& output.true_positive_detections == matrix.true_positive_detections
    &&& output.true_negative_detections == matrix.true_negative_detections
    &&& output.false_positive_detections == matrix.false_positive_detections
    &&& output.false_negative_detections == matrix.false_negative_detections
    &&& output.weighted_errors_e == matrix.error_weight()
    &&& output.weighted_errors_e_with_errors_as_fn == stats.full_error_weight()
    &&& output.failure_rate == share(matrix.error_weight(), matrix.total())
    &&& output.error_rate_epsilon == output.failure_rate
    &&& output.accuracy == share(
        matrix.true_positive_detections + matrix.true_negative_detections,
        matrix.total(),
    )
    &&& output.fraud_recall == share(
        matrix.true_positive_detections as int,
        matrix.true_positive_detections + matrix.false_negative_detections,
    )
    &&& output.fraud_precision == share(
        matrix.true_positive_detections as int,
        matrix.true_positive_detections + matrix.false_positive_detections,
    )
    &&& output.legit_recall == share(
        matrix.true_negative_detections as int,
        matrix.true_negative_detections + matrix.false_positive_detections,
    )
    &&& output.parse_errors == stats.parse_errors
    &&& output.search_errors == stats.search_errors
}

/// Sums an evaluation up.
pub fn build_output(
    total: usize,
    artifact_dir: String,
    probe_count: usize,
    cluster_count: usize,
    adaptive_probing_enabled: bool,
    adaptive_initial_probes: usize,
    stats: &EvalStats,
) -> (output: EvalOutput)
    requires
        stats.matrix.total() <= u64::MAX,
        stats.full_error_weight() <= u64::MAX,
    ensures
        output.total == total,
        output.artifact_dir == artifact_dir,
        output.probe_count == probe_count,
        output.cluster_count == cluster_count,
        output.adaptive_probing_enabled == adaptive_probing_enabled,
        output.adaptive_initial_probes == adaptive_initial_probes,
        reports(output, *stats),
{
    let matrix: ConfusionMatrix = stats.matrix;
    let evaluated: u64 = matrix.evaluated();
    let weighted_errors: u64 = matrix.weighted_errors();
    let failure_rate: Ratio = ratio(weighted_errors, evaluated);
    EvalOutput {
        total,
        evaluated,
        true_positive_detections: matrix.true_positive_detections,
        true_negative_detections: matrix.true_negative_detections,
        false_positive_detections: matrix.false_positive_detections,
        false_negative_detections: matrix.false_negative_detections,
        weighted_errors_e: weighted_errors,
        weighted_errors_e_with_errors_as_fn: weighted_errors + 3 * (stats.parse_errors
            + stats.search_errors),
        failure_rate,
        error_rate_epsilon: failure_rate,
        accuracy: ratio(
            matrix.true_positive_detections + matrix.true_negative_detections,
            evaluated,
        ),
        fraud_recall: ratio(
            matrix.true_positive_detections,
            matrix.true_positive_detections + matrix.false_negative_detections,
        ),
        fraud_precision: ratio(
            matrix.true_positive_detections,
            matrix.true_positive_detections + matrix.false_positive_detections,
        ),
        legit_recall: ratio(
            matrix.true_negative_detections,
            matrix.true_negative_detections + matrix.false_positive_detections,
        ),
        artifact_dir,
        probe_count,
        cluster_count,
        adaptive_probing_enabled,
        adaptive_initial_probes,
        parse_errors: stats.parse_errors,
        search_errors: stats.search_errors,
    }
}

/// Accuracy, recall and precision are shares of at most one, and the failure rate
/// is at most three.
pub proof fn law_shares_are_proper(output: EvalOutput, stats: EvalStats)
    requires
        stats.matrix.total() <= u64::MAX,
        reports(output, stats),
    ensures
        output.accuracy.numerator <= output.accuracy.denominator,
        output.fraud_recall.numerator <= output.fraud_recall.denominator,
        output.fraud_precision.numerator <= output.fraud_precision.denominator,
        output.legit_recall.numerator <= output.legit_recall.denominator,
        output.failure_rate.numerator <= 3 * output.failure_rate.denominator,
{
}

/// The counters of few enough records can be summed up.
pub proof fn law_few_records_can_be_summed_up(stats: EvalStats)
    requires
        stats.processed() <= u64::MAX / 3,
    ensures
        stats.matrix.total() <= u64::MAX,
        stats.full_error_weight() <= u64::MAX,
        forall|outcome: CaseOutcome| stats.counter(outcome) < u64::MAX,
{
}

/// The kinds of decisions are told apart by what was expected and what was decided,
/// and a decision is mistaken exactly if the two differ.
pub proof fn law_kinds_of_decisions(expected_approved: bool, predicted_approved: bool)
    ensures
        ({
            let kind = detection(expected_approved, predicted_approved);
            &&& is_mismatch(kind) <==> expected_approved != predicted_approved
            &&& kind is TruePositive || kind is FalsePositive <==> !predicted_approved
            &&& kind is TruePositive || kind is FalseNegative <==> !expected_approved
        }),
{
}

/// A decision adds one to exactly the counter of its kind, and an error to exactly
/// its own counter.
pub proof fn law_counters_move_by_one(stats: EvalStats, outcome: CaseOutcome)
    requires
        stats.counter(outcome) < u64::MAX,
    ensures
        ({
            let next = stats.counted(outcome);
            let parse_failed = outcome is ParseFailed;
            let search_failed = outcome is SearchFailed;
            let scored = |expected: bool, predicted: bool|
                outcome == (CaseOutcome::Scored {
                    expected_approved: expected,
                    predicted_approved: predicted,
                });
            let step = |moved: bool|
                if moved {
                    1int
                } else {
                    0int
                };
            &&& next.parse_errors == stats.parse_errors + step(parse_failed)
            &&& next.search_errors == stats.search_errors + step(search_failed)
            &&& next.matrix.true_positive_detections == stats.matrix.true_positive_detections
                + step(scored(false, false))
            &&& next.matrix.true_negative_detections == stats.matrix.true_negative_detections
                + step(scored(true, true))
            &&& next.matrix.false_positive_detections == stats.matrix.false_positive_detections
                + step(scored(true, false))
            &&& next.matrix.false_negative_detections == stats.matrix.false_negative_detections
                + step(scored(false, true))
        }),
{
}

/// A share of something is the same rational number as its two counts, and a share
/// is zero only if one of them is.
pub proof fn law_share_is_the_quotient(numerator: int, denominator: int)
    requires
        0 <= numerator <= u64::MAX,
        0 <= denominator <= u64::MAX,
    ensures
        ({
            let result = share(numerator, denominator);
            &&& result.denominator > 0
            &&& denominator != 0 ==> result.numerator * denominator == numerator
                * result.denominator
            &&& result.numerator == 0 <==> numerator == 0 || denominator == 0
        }),
{
}

/// The numbers of an output follow from the counters: the sums are those of the
/// four kinds of decisions and of the errors, a missed fraud and an undecided record
/// weigh three, and each share times what it is a share of is the part.
pub proof fn law_output_follows_from_counters(output: EvalOutput, stats: EvalStats)
    requires
        stats.matrix.total() <= u64::MAX,
        stats.full_error_weight() <= u64::MAX,
        reports(output, stats),
    ensures
        ({
            let caught = stats.matrix.true_positive_detections as int;
            let cleared = stats.matrix.true_negative_detections as int;
            let alarms = stats.matrix.false_positive_detections as int;
            let missed = stats.matrix.false_negative_detections as int;
            let weight = alarms + missed + missed + missed;
            let undecided = stats.parse_errors + stats.search_errors;
            let decided = caught + cleared + alarms + missed;
            &&& output.true_positive_detections == caught
            &&& output.true_negative_detections == cleared
            &&& output.false_positive_detections == alarms
            &&& output.false_negative_detections == missed
            &&& output.parse_errors == stats.parse_errors
            &&& output.search_errors == stats.search_errors
            &&& output.evaluated == decided
            &&& output.weighted_errors_e == weight
            &&& output.weighted_errors_e_with_errors_as_fn == weight + undecided + undecided
                + undecided
            &&& output.failure_rate.numerator * decided == weight * output.failure_rate.denominator
            &&& output.error_rate_epsilon.numerator * decided == weight
                * output.error_rate_epsilon.denominator
            &&& output.accuracy.numerator * decided == (caught + cleared)
                * output.accuracy.denominator
            &&& output.fraud_recall.numerator * (caught + missed) == caught
                * output.fraud_recall.denominator
            &&& output.fraud_precision.numerator * (caught + alarms) == caught
                * output.fraud_precision.denominator
            &&& output.legit_recall.numerator * (cleared + alarms) == cleared
                * output.legit_recall.denominator
            &&& output.failure_rate.numerator == 0 <==> weight == 0
            &&& output.error_rate_epsilon.numerator == 0 <==> weight == 0
            &&& output.accuracy.numerator == 0 <==> caught + cleared == 0
            &&& output.fraud_recall.numerator == 0 <==> caught == 0
            &&& output.fraud_precision.numerator == 0 <==> caught == 0
            &&& output.legit_recall.numerator == 0 <==> cleared == 0
            &&& output.failure_rate.denominator > 0
            &&& output.error_rate_epsilon.denominator > 0
            &&& output.accuracy.denominator > 0
            &&& output.fraud_recall.denominator > 0
            &&& output.fraud_precision.denominator > 0
            &&& output.legit_recall.denominator > 0
        }),
{
    let matrix = stats.matrix;
    law_share_is_the_quotient(matrix.error_weight(), matrix.total());
    law_share_is_the_quotient(
        matrix.true_positive_detections + matrix.true_negative_detections,
        matrix.total(),
    );
    law_share_is_the_quotient(
        matrix.true_positive_detections as int,
        matrix.true_positive_detections + matrix.false_negative_detections,
    );
    law_share_is_the_quotient(
        matrix.true_positive_detections as int,
        matrix.true_positive_detections + matrix.false_positive_detections,
    );
    law_share_is_the_quotient(
        matrix.true_negative_detections as int,
        matrix.true_negative_detections + matrix.false_positive_detections,
    );
}

/// An evaluation starts with all counters at zero.
pub proof fn law_evaluation_starts_at_zero()
    ensures
        EvalStats::empty().parse_errors == 0,
        EvalStats::empty().search_errors == 0,
        EvalStats::empty().matrix.true_positive_detections == 0,
        EvalStats::empty().matrix.true_negative_detections == 0,
        EvalStats::empty().matrix.false_positive_detections == 0,
        EvalStats::empty().matrix.false_negative_detections == 0,
{
}

/// Every error is reported, and a mistaken decision as long as fewer have been than are asked
/// for: a refusal where approval was expected as a false alarm, the other as a missed fraud.
/// Nothing else is.
pub proof fn law_what_is_reported(outcome: CaseOutcome, printed: usize, limit: usize)
    ensures
        ({
            let report = report_on(outcome, printed, limit);
            let scored = |expected: bool, predicted: bool|
                outcome == (CaseOutcome::Scored {
                    expected_approved: expected,
                    predicted_approved: predicted,
                });
            &&& report is ParseError <==> outcome is ParseFailed
            &&& report is SearchError <==> outcome is SearchFailed
            &&& report == (CaseReport::Mismatch { kind: DetectionKind::FalsePositive }) <==> scored(
                true,
                false,
            ) && printed < limit
            &&& report == (CaseReport::Mismatch { kind: DetectionKind::FalseNegative }) <==> scored(
                false,
                true,
            ) && printed < limit
            &&& report is Nothing <==> scored(true, true) || scored(false, false) || (printed
                >= limit && outcome is Scored)
        }),
{
}

} // verus!
