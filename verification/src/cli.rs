//! The command line of the evaluation.
use vstd::prelude::*;

use crate::records::ExpectedFormat;
use crate::text::{number_in, parse_number, same_text, views, NumberError};

verus! {

/// An option that takes a value.
#[derive(Clone, Copy, Debug, PartialEq, Eq, Structural)]
pub enum Flag {
    Input,
    ArtifactDir,
    Normalization,
    MccRisk,
    Limit,
    PrintMismatches,
    ExpectedFormat,
}

/// What the evaluation is asked to do.
#[derive(Clone, Debug, PartialEq, Eq)]
pub struct Cli {
    pub input: String,
    pub artifact_dir: String,
    pub normalization: String,
    pub mcc_risk: String,
    pub limit: Option<usize>,
    pub print_mismatches: usize,
    pub expected_format: ExpectedFormat,
}

/// The paths that the environment sets.
#[derive(Debug)]
pub struct PathSettings {
    pub artifact_dir: Option<String>,
    pub normalization: Option<String>,
    pub mcc_risk: Option<String>,
}

/// Why a command line is not understood.
#[derive(Debug, PartialEq, Eq)]
pub enum CliError {
    /// Help was asked for.
    Help,
    /// The input was not named.
    InputRequired,
    UnknownArgument { argument: String },
    MissingValue { flag: Flag },
    InvalidNumber { flag: Flag, cause: NumberError },
    InvalidExpectedFormat { raw: String },
}

/// What a [`CliError`] holds.
pub enum CliErrorView {
    Help,
    InputRequired,
    UnknownArgument { argument: Seq<char> },
    MissingValue { flag: Flag },
    InvalidNumber { flag: Flag, cause: NumberError },
    InvalidExpectedFormat { raw: Seq<char> },
}

impl View for CliError {
    type V = CliErrorView;

    open spec fn view(&self) -> CliErrorView {
        match self {
            CliError::Help => CliErrorView::Help,
            CliError::InputRequired => CliErrorView::InputRequired,
            CliError::UnknownArgument { argument } => CliErrorView::UnknownArgument {
                argument: argument@,
            },
            CliError::MissingValue { flag } => CliErrorView::MissingValue { flag: *flag },
            CliError::InvalidNumber { flag, cause } => CliErrorView::InvalidNumber {
                flag: *flag,
                cause: *cause,
            },
            CliError::InvalidExpectedFormat { raw } => CliErrorView::InvalidExpectedFormat {
                raw: raw@,
            },
        }
    }
}

/// How to call the evaluation.
pub open spec fn usage_text() -> Seq<char> {
    "usage: eval_ann --input <path> [--artifact-dir <path>] [--normalization <path>] [--mcc-risk <path>] [--limit <n>] [--print-mismatches <n>] [--expected-format auto|approved|label]"@
}

/// How to call the evaluation.
pub fn usage() -> (text: &'static str)
    ensures
        text@ == usage_text(),
{
    "usage: eval_ann --input <path> [--artifact-dir <path>] [--normalization <path>] [--mcc-risk <path>] [--limit <n>] [--print-mismatches <n>] [--expected-format auto|approved|label]"
}

impl Flag {
    /// The flag as it is written.
    pub open spec fn name_spec(self) -> Seq<char> {
        match self {
            Flag::Input => "--input"@,
            Flag::ArtifactDir => "--artifact-dir"@,
            Flag::Normalization => "--normalization"@,
            Flag::MccRisk => "--mcc-risk"@,
            Flag::Limit => "--limit"@,
            Flag::PrintMismatches => "--print-mismatches"@,
            Flag::ExpectedFormat => "--expected-format"@,
        }
    }

    /// The flag as it is written.
    pub fn name(self) -> (name: &'static str)
        ensures
            name@ == self.name_spec(),
    {
        match self {
            Flag::Input => "--input",
            Flag::ArtifactDir => "--artifact-dir",
            Flag::Normalization => "--normalization",
            Flag::MccRisk => "--mcc-risk",
            Flag::Limit => "--limit",
            Flag::PrintMismatches => "--print-mismatches",
            Flag::ExpectedFormat => "--expected-format",
        }
    }

    /// The flag that is written like this.
    pub open spec fn written(text: Seq<char>) -> Option<Flag> {
        if text == "--input"@ {
            Some(Flag::Input)
        } else if text == "--artifact-dir"@ {
            Some(Flag::ArtifactDir)
        } else if text == "--normalization"@ {
            Some(Flag::Normalization)
        } else if text == "--mcc-risk"@ {
            Some(Flag::MccRisk)
        } else if text == "--limit"@ {
            Some(Flag::Limit)
        } else if text == "--print-mismatches"@ {
            Some(Flag::PrintMismatches)
        } else if text == "--expected-format"@ {
            Some(Flag::ExpectedFormat)
        } else {
            None
        }
    }

    /// Reads a flag.
    pub fn read(text: &str) -> (flag: Option<Flag>)
        ensures
            flag == Flag::written(text@),
    {
        if same_text(text, "--input") {
            Some(Flag::Input)
        } else if same_text(text, "--artifact-dir") {
            Some(Flag::ArtifactDir)
        } else if same_text(text, "--normalization") {
            Some(Flag::Normalization)
        } else if same_text(text, "--mcc-risk") {
            Some(Flag::MccRisk)
        } else if same_text(text, "--limit") {
            Some(Flag::Limit)
        } else if same_text(text, "--print-mismatches") {
            Some(Flag::PrintMismatches)
        } else if same_text(text, "--expected-format") {
            Some(Flag::ExpectedFormat)
        } else {
            None
        }
    }
}

impl CliErrorView {
    /// The error in words.
    pub open spec fn message(self) -> Seq<char> {
        match self {
            CliErrorView::Help => usage_text(),
            CliErrorView::InputRequired => "--input is required\n"@ + usage_text(),
            CliErrorView::UnknownArgument { argument } => "unknown argument "@ + argument + "\n"@
                + usage_text(),
            CliErrorView::MissingValue { flag } => flag.name_spec() + " requires a value"@,
            CliErrorView::InvalidNumber { flag, .. } => flag.name_spec()
                + " requires a non-negative integer"@,
            CliErrorView::InvalidExpectedFormat { raw } => "invalid --expected-format "@ + raw
                + "; expected auto, approved, or label"@,
        }
    }
}

impl CliError {
    /// The error in words.
    pub fn message(&self) -> (text: String)
        ensures
            text@ == self@.message(),
    {
        let mut text = String::new();
        match self {
            CliError::Help => {
                text.append(usage());
            },
            CliError::InputRequired => {
                text.append("--input is required\n");
                text.append(usage());
            },
            CliError::UnknownArgument { argument } => {
                text.append("unknown argument ");
                text.append(argument.as_str());
                text.append("\n");
                text.append(usage());
            },
            CliError::MissingValue { flag } => {
                text.append(flag.name());
                text.append(" requires a value");
            },
            CliError::InvalidNumber { flag, .. } => {
                text.append(flag.name());
                text.append(" requires a non-negative integer");
            },
            CliError::InvalidExpectedFormat { raw } => {
                text.append("invalid --expected-format ");
                text.append(raw.as_str());
                text.append("; expected auto, approved, or label");
            },
        }
        assert(text@ =~= self@.message());
        text
    }
}

/// The format of this name.
pub open spec fn format_named(raw: Seq<char>) -> Option<ExpectedFormat> {
    if raw == "auto"@ {
        Some(ExpectedFormat::Auto)
    } else if raw == "approved"@ {
        Some(ExpectedFormat::Approved)
    } else if raw == "label"@ {
        Some(ExpectedFormat::Label)
    } else {
        None
    }
}

impl ExpectedFormat {
    /// Reads the name of a format.
    pub fn parse(raw: &str) -> (result: Result<ExpectedFormat, CliError>)
        ensures
            match result {
                Ok(format) => format_named(raw@) == Some(format),
                Err(error) => format_named(raw@) is None && error@
                    == (CliErrorView::InvalidExpectedFormat { raw: raw@ }),
            },
    {
        if same_text(raw, "auto") {
            Ok(ExpectedFormat::Auto)
        } else if same_text(raw, "approved") {
            Ok(ExpectedFormat::Approved)
        } else if same_text(raw, "label") {
            Ok(ExpectedFormat::Label)
        } else {
            Err(CliError::InvalidExpectedFormat { raw: raw.to_owned() })
        }
    }
}

/// Reads the number that a flag takes.
pub fn parse_usize(raw: &str, flag: Flag) -> (result: Result<usize, CliError>)
    ensures
        match result {
            Ok(number) => number_in(raw@) == Ok::<usize, NumberError>(number),
            Err(error) => number_in(raw@) matches Err(cause) && error@
                == (CliErrorView::InvalidNumber { flag, cause }),
        },
{
    match parse_number(raw) {
        Ok(number) => Ok(number),
        Err(cause) => Err(CliError::InvalidNumber { flag, cause }),
    }
}

/// The argument at a position, which a flag takes as its value.
pub fn next_arg(args: &Vec<String>, at: usize, flag: Flag) -> (result: Result<&String, CliError>)
    ensures
        match result {
            Ok(value) => at < args@.len() && value == args@[at as int],
            Err(error) => at >= args@.len() && error@ == (CliErrorView::MissingValue { flag }),
        },
{
    if at < args.len() {
        Ok(&args[at])
    } else {
        Err(CliError::MissingValue { flag })
    }
}

/// The path that the environment sets, or else the default.
pub open spec fn env_path_spec(set: Option<String>, default: Seq<char>) -> Seq<char> {
    match set {
        Some(path) => path@,
        None => default,
    }
}

/// The path that the environment sets, or else the default.
pub fn env_path(set: &Option<String>, default: &str) -> (path: String)
    ensures
        path@ == env_path_spec(*set, default@),
        set matches Some(given) ==> path@ == given@,
        set is None ==> path@ == default@,
{
    match set {
        Some(path) => path.clone(),
        None => default.to_owned(),
    }
}

/// Whether a flag takes this value.
pub open spec fn takes(flag: Flag, value: Seq<char>) -> bool {
    match flag {
        Flag::Limit | Flag::PrintMismatches => number_in(value) is Ok,
        Flag::ExpectedFormat => format_named(value) is Some,
        _ => true,
    }
}

/// What is wrong with a value that a flag does not take.
pub open spec fn value_fault(flag: Flag, value: Seq<char>) -> CliErrorView {
    if flag is ExpectedFormat {
        CliErrorView::InvalidExpectedFormat { raw: value }
    } else {
        CliErrorView::InvalidNumber { flag, cause: number_in(value)->Err_0 }
    }
}

/// The flag of a pair: the arguments at even positions are flags.
pub open spec fn flag_at(args: Seq<Seq<char>>, pair: int) -> Option<Flag> {
    Flag::written(args[2 * pair])
}

/// The value of a pair: it follows the flag.
pub open spec fn value_at(args: Seq<Seq<char>>, pair: int) -> Seq<char> {
    args[2 * pair + 1]
}

/// What is wrong with a pair, if something is.
pub open spec fn pair_fault(args: Seq<Seq<char>>, pair: int) -> Option<CliErrorView> {
    let argument = args[2 * pair];
    match flag_at(args, pair) {
        None => if argument == "--help"@ || argument == "-h"@ {
            Some(CliErrorView::Help)
        } else {
            Some(CliErrorView::UnknownArgument { argument })
        },
        Some(flag) => if 2 * pair + 1 >= args.len() {
            Some(CliErrorView::MissingValue { flag })
        } else if !takes(flag, value_at(args, pair)) {
            Some(value_fault(flag, value_at(args, pair)))
        } else {
            None
        },
    }
}

/// What is wrong with the first pair, from number `pair` on, with which something
/// is.
pub open spec fn first_fault(args: Seq<Seq<char>>, pair: nat) -> Option<CliErrorView>
    decreases args.len() - pair,
{
    if 2 * pair >= args.len() {
        None
    } else if pair_fault(args, pair as int) is Some {
        pair_fault(args, pair as int)
    } else {
        first_fault(args, pair + 1)
    }
}

/// The value of the last of the first `pairs` pairs with this flag.
pub open spec fn last_value(args: Seq<Seq<char>>, pairs: nat, flag: Flag) -> Option<Seq<char>>
    decreases pairs,
{
    if pairs == 0 {
        None
    } else if flag_at(args, pairs - 1) == Some(flag) {
        Some(value_at(args, pairs - 1))
    } else {
        last_value(args, (pairs - 1) as nat, flag)
    }
}

/// The options of a command line.
pub struct OptionsView {
    pub input: Option<Seq<char>>,
    pub artifact_dir: Option<Seq<char>>,
    pub normalization: Option<Seq<char>>,
    pub mcc_risk: Option<Seq<char>>,
    pub limit: Option<usize>,
    pub print_mismatches: usize,
    pub expected_format: ExpectedFormat,
}

/// The options that the first `pairs` pairs give: each the last value of its flag,
/// or else a default.
pub open spec fn options_in(args: Seq<Seq<char>>, pairs: nat) -> OptionsView {
    OptionsView {
        input: last_value(args, pairs, Flag::Input),
        artifact_dir: last_value(args, pairs, Flag::ArtifactDir),
        normalization: last_value(args, pairs, Flag::Normalization),
        mcc_risk: last_value(args, pairs, Flag::MccRisk),
        limit: match last_value(args, pairs, Flag::Limit) {
            Some(value) => Some(number_in(value)->Ok_0),
            None => None,
        },
        print_mismatches: match last_value(args, pairs, Flag::PrintMismatches) {
            Some(value) => number_in(value)->Ok_0,
            None => 0,
        },
        expected_format: match last_value(args, pairs, Flag::ExpectedFormat) {
            Some(value) => format_named(value)->0,
            None => ExpectedFormat::Auto,
        },
    }
}

impl OptionsView {
    /// The options once a flag has set one to a value that it takes.
    spec fn set(self, flag: Flag, value: Seq<char>) -> OptionsView {
        match flag {
            Flag::Input => OptionsView { input: Some(value), ..self },
            Flag::ArtifactDir => OptionsView { artifact_dir: Some(value), ..self },
            Flag::Normalization => OptionsView { normalization: Some(value), ..self },
            Flag::MccRisk => OptionsView { mcc_risk: Some(value), ..self },
            Flag::Limit => OptionsView { limit: Some(number_in(value)->Ok_0), ..self },
            Flag::PrintMismatches => OptionsView {
                print_mismatches: number_in(value)->Ok_0,
                ..self
            },
            Flag::ExpectedFormat => OptionsView { expected_format: format_named(value)->0, ..self },
        }
    }
}

struct Options {
    input: Option<String>,
    artifact_dir: Option<String>,
    normalization: Option<String>,
    mcc_risk: Option<String>,
    limit: Option<usize>,
    print_mismatches: usize,
    expected_format: ExpectedFormat,
}

/// The text of an option.
pub open spec fn text_of(option: Option<String>) -> Option<Seq<char>> {
    match option {
        Some(text) => Some(text@),
        None => None,
    }
}

impl Options {
    spec fn view(&self) -> OptionsView {
        OptionsView {
            input: text_of(self.input),
            artifact_dir: text_of(self.artifact_dir),
            normalization: text_of(self.normalization),
            mcc_risk: text_of(self.mcc_risk),
            limit: self.limit,
            print_mismatches: self.print_mismatches,
            expected_format: self.expected_format,
        }
    }

    fn set(&mut self, flag: Flag, value: &String) -> (result: Result<(), CliError>)
        ensures
            match result {
                Ok(_) => takes(flag, value@) && final(self)@ == old(self)@.set(flag, value@),
                Err(error) => !takes(flag, value@) && error@ == value_fault(flag, value@),
            },
    {
        match flag {
            Flag::Input => {
                self.input = Some(value.clone());
            },
            Flag::ArtifactDir => {
                self.artifact_dir = Some(value.clone());
            },
            Flag::Normalization => {
                self.normalization = Some(value.clone());
            },
            Flag::MccRisk => {
                self.mcc_risk = Some(value.clone());
            },
            Flag::Limit => {
                match parse_usize(value.as_str(), flag) {
                    Ok(number) => {
                        self.limit = Some(number);
                    },
                    Err(error) => return Err(error),
                }
            },
            Flag::PrintMismatches => {
                match parse_usize(value.as_str(), flag) {
                    Ok(number) => {
                        self.print_mismatches = number;
                    },
                    Err(error) => return Err(error),
                }
            },
            Flag::ExpectedFormat => {
                match ExpectedFormat::parse(value.as_str()) {
                    Ok(format) => {
                        self.expected_format = format;
                    },
                    Err(error) => return Err(error),
                }
            },
        }
        Ok(())
    }
}

/// A path given on the command line, or else in the environment, or else the
/// default.
pub open spec fn path_spec(
    given: Option<Seq<char>>,
    set: Option<String>,
    default: Seq<char>,
) -> Seq<char> {
    match given {
        Some(path) => path,
        None => env_path_spec(set, default),
    }
}

/// Whether `cli` is what the options ask for.
pub open spec fn asks_for(options: OptionsView, settings: PathSettings, cli: Cli) -> bool {
    &&& options.input == Some(cli.input@)
    &&& cli.artifact_dir@ == path_spec(
        options.artifact_dir,
        settings.artifact_dir,
        "docker/artifacts"@,
    )
    &&& cli.normalization@ == path_spec(
        options.normalization,
        settings.normalization,
        "resources/normalization.json"@,
    )
    &&& cli.mcc_risk@ == path_spec(
        options.mcc_risk,
        settings.mcc_risk,
        "resources/mcc_risk.json"@,
    )
    &&& cli.limit == options.limit
    &&& cli.print_mismatches == options.print_mismatches
    &&& cli.expected_format == options.expected_format
}

fn path_or(given: Option<String>, set: &Option<String>, default: &str) -> (path: String)
    ensures
        path@ == path_spec(text_of(given), *set, default@),
{
    match given {
        Some(path) => path,
        None => env_path(set, default),
    }
}

impl Cli {
    /// Reads the arguments after the program's name.
    pub fn parse(args: &Vec<String>, settings: &PathSettings) -> (result: Result<Cli, CliError>)
        ensures
            match first_fault(views(args@), 0) {
                Some(fault) => result matches Err(error) && error@ == fault,
                None => {
                    let options = options_in(views(args@), views(args@).len() / 2);
                    if options.input is Some {
                        result matches Ok(cli) && asks_for(options, *settings, cli)
                    } else {
                        result matches Err(error) && error@ is InputRequired
                    }
                },
            },
    {
        let ghost all = views(args@);
        let mut options = Options {
            input: None,
            artifact_dir: None,
            normalization: None,
            mcc_risk: None,
            limit: None,
            print_mismatches: 0,
            expected_format: ExpectedFormat::Auto,
        };
        let mut at: usize = 0;
        while at < args.len()
            invariant
                all == views(args@),
                at <= args.len(),
                at % 2 == 0,
                options@ == options_in(all, (at / 2) as nat),
                first_fault(all, (at / 2) as nat) == first_fault(all, 0),
            decreases args.len() - at,
        {
            assert(all[at as int] == args@[at as int]@);
            let arg: &str = args[at].as_str();
            match Flag::read(arg) {
                Some(flag) => {
                    let value: &String = match next_arg(args, at + 1, flag) {
                        Ok(value) => value,
                        Err(error) => return Err(error),
                    };
                    assert(all[at + 1] == args@[at + 1]@);
                    if let Err(error) = options.set(flag, value) {
                        return Err(error);
                    }
                    at += 2;
                },
                None => {
                    if same_text(arg, "--help") || same_text(arg, "-h") {
                        return Err(CliError::Help);
                    }
                    return Err(CliError::UnknownArgument { argument: args[at].clone() });
                },
            }
        }
        match options.input {
            Some(input) => Ok(
                Cli {
                    input,
                    artifact_dir: path_or(
                        options.artifact_dir,
                        &settings.artifact_dir,
                        "docker/artifacts",
                    ),
                    normalization: path_or(
                        options.normalization,
                        &settings.normalization,
                        "resources/normalization.json",
                    ),
                    mcc_risk: path_or(
                        options.mcc_risk,
                        &settings.mcc_risk,
                        "resources/mcc_risk.json",
                    ),
                    limit: options.limit,
                    print_mismatches: options.print_mismatches,
                    expected_format: options.expected_format,
                },
            ),
            None => Err(CliError::InputRequired),
        }
    }
}

/// Every flag is read back as it is written.
pub proof fn law_flags_are_read_back(flag: Flag)
    ensures
        Flag::written(flag.name_spec()) == Some(flag),
        flag.name_spec() != "--help"@,
        flag.name_spec() != "-h"@,
{
    reveal_strlit("--input");
    reveal_strlit("--artifact-dir");
    reveal_strlit("--normalization");
    reveal_strlit("--mcc-risk");
    reveal_strlit("--limit");
    reveal_strlit("--print-mismatches");
    reveal_strlit("--expected-format");
    reveal_strlit("--help");
    reveal_strlit("-h");
    assert("--input"@.len() == 7 && "--limit"@.len() == 7 && "--mcc-risk"@.len() == 10);
    assert("--artifact-dir"@.len() == 14 && "--normalization"@.len() == 15);
    assert("--print-mismatches"@.len() == 18 && "--expected-format"@.len() == 17);
    assert("--help"@.len() == 6 && "-h"@.len() == 2);
    assert("--input"@[2] != "--limit"@[2]);
}

/// Whether the arguments are pairs of a flag and a value that it takes.
pub open spec fn are_pairs(args: Seq<Seq<char>>) -> bool {
    &&& args.len() % 2 == 0
    &&& forall|pair: int|
        0 <= pair < args.len() / 2 ==> {
            &&& #[trigger] flag_at(args, pair) matches Some(flag)
            &&& takes(flag, value_at(args, pair))
        }
}

/// Arguments are understood exactly if they are pairs of a flag and a value that
/// it takes.
pub proof fn law_pairs_are_understood(args: Seq<Seq<char>>)
    ensures
        first_fault(args, 0) is None <==> are_pairs(args),
{
    lemma_no_fault(args, 0);
    if first_fault(args, 0) is None {
        assert forall|pair: int| 0 <= pair < args.len() / 2 implies {
            &&& #[trigger] flag_at(args, pair) matches Some(flag)
            &&& takes(flag, value_at(args, pair))
        } by {
            assert(pair_fault(args, pair) is None);
        }
        if args.len() % 2 != 0 {
            assert(pair_fault(args, (args.len() / 2) as int) is None);
        }
    }
    if are_pairs(args) {
        assert forall|pair: int| 0 <= pair && 2 * pair < args.len() implies #[trigger] pair_fault(
            args,
            pair,
        ) is None by {
            assert(flag_at(args, pair) is Some);
        }
    }
}

proof fn lemma_no_fault(args: Seq<Seq<char>>, from: nat)
    ensures
        first_fault(args, from) is None <==> (forall|pair: int|
            from <= pair && 2 * pair < args.len() ==> #[trigger] pair_fault(args, pair) is None),
    decreases args.len() - from,
{
    if 2 * from < args.len() {
        lemma_no_fault(args, from + 1);
        if first_fault(args, from) is None {
            assert forall|pair: int| from <= pair && 2 * pair < args.len() implies
                #[trigger] pair_fault(args, pair) is None by {
                if pair == from {
                    assert(pair_fault(args, from as int) is None);
                }
            }
        }
    }
}

/// Of a flag that is given several times the last value counts, and a flag that
/// is not given has none.
pub proof fn law_last_value_counts(args: Seq<Seq<char>>, pairs: nat, flag: Flag)
    ensures
        match last_value(args, pairs, flag) {
            Some(value) => exists|pair: int|
                {
                    &&& 0 <= pair < pairs
                    &&& (#[trigger] flag_at(args, pair)) == Some(flag)
                    &&& value == value_at(args, pair)
                    &&& forall|later: int|
                        pair < later < pairs ==> (#[trigger] flag_at(args, later)) != Some(
                            flag,
                        )
                },
            None => forall|pair: int|
                0 <= pair < pairs ==> (#[trigger] flag_at(args, pair)) != Some(flag),
        },
    decreases pairs,
{
    if pairs > 0 {
        let last = pairs - 1;
        law_last_value_counts(args, last as nat, flag);
        if flag_at(args, last) == Some(flag) {
            assert(flag_at(args, last) == Some(flag));
        }
    }
}

/// Whether every pair of `args` is one of `other`.
pub open spec fn pairs_within(args: Seq<Seq<char>>, other: Seq<Seq<char>>) -> bool {
    forall|pair: int|
        0 <= pair < args.len() / 2 ==> exists|same: int|
            {
                &&& 0 <= same < other.len() / 2
                &&& #[trigger] flag_at(other, same) == #[trigger] flag_at(args, pair)
                &&& value_at(other, same) == value_at(args, pair)
            }
}

/// Whether no flag is given twice.
pub open spec fn gives_flags_once(args: Seq<Seq<char>>) -> bool {
    forall|a: int, b: int|
        #![trigger flag_at(args, a), flag_at(args, b)]
        0 <= a < b < args.len() / 2 ==> flag_at(args, a) != flag_at(args, b)
}

/// The order of pairs with distinct flags plays no part.
pub proof fn law_order_of_pairs_plays_no_part(args: Seq<Seq<char>>, other: Seq<Seq<char>>)
    requires
        are_pairs(args),
        are_pairs(other),
        gives_flags_once(args),
        gives_flags_once(other),
        pairs_within(args, other),
        pairs_within(other, args),
    ensures
        options_in(args, args.len() / 2) == options_in(other, other.len() / 2),
{
    assert forall|flag: Flag|
        #[trigger] last_value(args, args.len() / 2, flag) == last_value(
            other,
            other.len() / 2,
            flag,
        ) by {
        lemma_same_last_value(args, other, flag);
        lemma_same_last_value(other, args, flag);
    }
}

/// A value given in one of two lists is given in the other.
proof fn lemma_same_last_value(args: Seq<Seq<char>>, other: Seq<Seq<char>>, flag: Flag)
    requires
        gives_flags_once(other),
        pairs_within(args, other),
    ensures
        last_value(args, args.len() / 2, flag) is Some ==> last_value(
            other,
            other.len() / 2,
            flag,
        ) == last_value(args, args.len() / 2, flag),
{
    law_last_value_counts(args, args.len() / 2, flag);
    law_last_value_counts(other, other.len() / 2, flag);
    if let Some(value) = last_value(args, args.len() / 2, flag) {
        let pair = choose|pair: int|
            {
                &&& 0 <= pair < args.len() / 2
                &&& (#[trigger] flag_at(args, pair)) == Some(flag)
                &&& value == value_at(args, pair)
            };
        let same = choose|same: int|
            {
                &&& 0 <= same < other.len() / 2
                &&& #[trigger] flag_at(other, same) == flag_at(args, pair)
                &&& value_at(other, same) == value_at(args, pair)
            };
        assert(flag_at(other, same) == Some(flag));
        let found = last_value(other, other.len() / 2, flag);
        assert(found is Some);
        let at = choose|at: int|
            {
                &&& 0 <= at < other.len() / 2
                &&& (#[trigger] flag_at(other, at)) == Some(flag)
                &&& found == Some(value_at(other, at))
            };
        assert(at == same) by {
            if at < same {
                assert(flag_at(other, at) != flag_at(other, same));
            } else if same < at {
                assert(flag_at(other, same) != flag_at(other, at));
            }
        }
    }
}

/// A text is a flag exactly if it is the name of that flag.
pub proof fn law_flags_are_their_names(text: Seq<char>)
    ensures
        Flag::written(text) == Some(Flag::Input) <==> text == "--input"@,
        Flag::written(text) == Some(Flag::ArtifactDir) <==> text == "--artifact-dir"@,
        Flag::written(text) == Some(Flag::Normalization) <==> text == "--normalization"@,
        Flag::written(text) == Some(Flag::MccRisk) <==> text == "--mcc-risk"@,
        Flag::written(text) == Some(Flag::Limit) <==> text == "--limit"@,
        Flag::written(text) == Some(Flag::PrintMismatches) <==> text == "--print-mismatches"@,
        Flag::written(text) == Some(Flag::ExpectedFormat) <==> text == "--expected-format"@,
{
    law_flags_are_read_back(Flag::Input);
    law_flags_are_read_back(Flag::ArtifactDir);
    law_flags_are_read_back(Flag::Normalization);
    law_flags_are_read_back(Flag::MccRisk);
    law_flags_are_read_back(Flag::Limit);
    law_flags_are_read_back(Flag::PrintMismatches);
    law_flags_are_read_back(Flag::ExpectedFormat);
}

/// A text is a format exactly if it is the name of that format.
pub proof fn law_formats_are_their_names(text: Seq<char>)
    ensures
        format_named(text) == Some(ExpectedFormat::Auto) <==> text == "auto"@,
        format_named(text) == Some(ExpectedFormat::Approved) <==> text == "approved"@,
        format_named(text) == Some(ExpectedFormat::Label) <==> text == "label"@,
{
    reveal_strlit("auto");
    reveal_strlit("approved");
    reveal_strlit("label");
    assert("auto"@.len() == 4 && "approved"@.len() == 8 && "label"@.len() == 5);
}

/// The flags that take a number take every text that is one and no other, the one that takes
/// a format takes the three names, and the others take every text.
pub proof fn law_values_that_flags_take(value: Seq<char>)
    ensures
        takes(Flag::Input, value),
        takes(Flag::ArtifactDir, value),
        takes(Flag::Normalization, value),
        takes(Flag::MccRisk, value),
        takes(Flag::Limit, value) <==> number_in(value) is Ok,
        takes(Flag::PrintMismatches, value) <==> number_in(value) is Ok,
        takes(Flag::ExpectedFormat, value) <==> value == "auto"@ || value == "approved"@ || value
            == "label"@,
{
}

/// The arguments are read in pairs, and the first pair that is not understood is told: help, an
/// unknown argument, a flag without a value, or a value that the flag does not take.
pub proof fn law_first_fault_is_told(args: Seq<Seq<char>>, pair: int, flag: Flag)
    requires
        0 <= pair,
        2 * pair < args.len(),
        forall|before: int|
            0 <= before < pair ==> (#[trigger] flag_at(args, before)) is Some && takes(
                flag_at(args, before)->0,
                value_at(args, before),
            ),
    ensures
        flag_at(args, pair) == Flag::written(args[2 * pair]),
        value_at(args, pair) == args[2 * pair + 1],
        ({
            let argument = args[2 * pair];
            let value = args[2 * pair + 1];
            let fault = first_fault(args, 0);
            &&& argument == "--help"@ || argument == "-h"@ ==> fault == Some(CliErrorView::Help)
            &&& Flag::written(argument) is None && argument != "--help"@ && argument != "-h"@
                ==> fault == Some(CliErrorView::UnknownArgument { argument })
            &&& Flag::written(argument) == Some(flag) && 2 * pair + 1 == args.len() ==> fault
                == Some(CliErrorView::MissingValue { flag })
            &&& Flag::written(argument) == Some(flag) && 2 * pair + 1 < args.len() && (flag is Limit
                || flag is PrintMismatches) && number_in(value) is Err ==> fault == Some(
                CliErrorView::InvalidNumber { flag, cause: number_in(value)->Err_0 },
            )
            &&& argument == "--expected-format"@ && 2 * pair + 1 < args.len() && value != "auto"@
                && value != "approved"@ && value != "label"@ ==> fault == Some(
                CliErrorView::InvalidExpectedFormat { raw: value },
            )
        }),
{
    law_flags_are_their_names(args[2 * pair]);
    lemma_help_is_no_flag();
    lemma_fault_from(args, 0, pair);
}

proof fn lemma_help_is_no_flag()
    ensures
        Flag::written("--help"@) is None,
        Flag::written("-h"@) is None,
{
    law_flags_are_read_back(Flag::Input);
    law_flags_are_read_back(Flag::ArtifactDir);
    law_flags_are_read_back(Flag::Normalization);
    law_flags_are_read_back(Flag::MccRisk);
    law_flags_are_read_back(Flag::Limit);
    law_flags_are_read_back(Flag::PrintMismatches);
    law_flags_are_read_back(Flag::ExpectedFormat);
}

proof fn lemma_fault_from(args: Seq<Seq<char>>, from: nat, pair: int)
    requires
        from <= pair,
        2 * pair < args.len(),
        forall|before: int|
            0 <= before < pair ==> (#[trigger] flag_at(args, before)) is Some && takes(
                flag_at(args, before)->0,
                value_at(args, before),
            ),
    ensures
        first_fault(args, from) == first_fault(args, pair as nat),
    decreases pair - from,
{
    if from < pair {
        lemma_fault_from(args, from + 1, pair);
        assert(flag_at(args, from as int) is Some);
    }
}

/// Each option is the last value of its flag, read as that flag takes it; without one the paths
/// are left to the environment, there is no limit, nothing is printed, and both formats are read.
pub proof fn law_options_are_last_values(args: Seq<Seq<char>>, pairs: nat, value: Seq<char>)
    ensures
        ({
            let given = |flag: Flag| last_value(args, pairs, flag);
            let options = options_in(args, pairs);
            &&& options.input == given(Flag::Input)
            &&& options.artifact_dir == given(Flag::ArtifactDir)
            &&& options.normalization == given(Flag::Normalization)
            &&& options.mcc_risk == given(Flag::MccRisk)
            &&& given(Flag::Limit) is None ==> options.limit is None
            &&& given(Flag::Limit) == Some(value) && number_in(value) is Ok ==> options.limit == Some(
                number_in(value)->Ok_0,
            )
            &&& given(Flag::PrintMismatches) is None ==> options.print_mismatches == 0
            &&& given(Flag::PrintMismatches) == Some(value) && number_in(value) is Ok
                ==> options.print_mismatches == number_in(value)->Ok_0
            &&& given(Flag::ExpectedFormat) is None ==> options.expected_format
                == ExpectedFormat::Auto
            &&& given(Flag::ExpectedFormat) == Some("auto"@) ==> options.expected_format
                == ExpectedFormat::Auto
            &&& given(Flag::ExpectedFormat) == Some("approved"@) ==> options.expected_format
                == ExpectedFormat::Approved
            &&& given(Flag::ExpectedFormat) == Some("label"@) ==> options.expected_format
                == ExpectedFormat::Label
        }),
{
    law_formats_are_their_names("auto"@);
    law_formats_are_their_names("approved"@);
    law_formats_are_their_names("label"@);
}

/// What is asked for is what the options say; a path that they leave open is that of the
/// environment, or else the usual one.
pub proof fn law_paths_fall_back(options: OptionsView, settings: PathSettings, cli: Cli)
    requires
        asks_for(options, settings, cli),
    ensures
        options.input == Some(cli.input@),
        cli.limit == options.limit,
        cli.print_mismatches == options.print_mismatches,
        cli.expected_format == options.expected_format,
        options.artifact_dir matches Some(path) ==> cli.artifact_dir@ == path,
        options.artifact_dir is None && settings.artifact_dir is Some ==> cli.artifact_dir@
            == settings.artifact_dir->0@,
        options.artifact_dir is None && settings.artifact_dir is None ==> cli.artifact_dir@
            == "docker/artifacts"@,
        options.normalization matches Some(path) ==> cli.normalization@ == path,
        options.normalization is None && settings.normalization is Some ==> cli.normalization@
            == settings.normalization->0@,
        options.normalization is None && settings.normalization is None ==> cli.normalization@
            == "resources/normalization.json"@,
        options.mcc_risk matches Some(path) ==> cli.mcc_risk@ == path,
        options.mcc_risk is None && settings.mcc_risk is Some ==> cli.mcc_risk@
            == settings.mcc_risk->0@,
        options.mcc_risk is None && settings.mcc_risk is None ==> cli.mcc_risk@
            == "resources/mcc_risk.json"@,
{
}

/// The view of an error keeps what the error holds, and its words tell it in full.
pub proof fn law_cli_errors_are_told_in_full(error: CliError)
    ensures
        error is Help ==> error@.message() == usage_text(),
        error is InputRequired ==> error@.message() == "--input is required\n"@ + usage_text(),
        error matches CliError::UnknownArgument { argument } ==> error@
            == (CliErrorView::UnknownArgument { argument: argument@ }) && error@.message()
            == "unknown argument "@ + argument@ + "\n"@ + usage_text(),
        error matches CliError::MissingValue { flag } ==> error@ == (CliErrorView::MissingValue {
            flag,
        }) && error@.message() == flag.name_spec() + " requires a value"@,
        error matches CliError::InvalidNumber { flag, cause } ==> error@
            == (CliErrorView::InvalidNumber { flag, cause }) && error@.message()
            == flag.name_spec() + " requires a non-negative integer"@,
        error matches CliError::InvalidExpectedFormat { raw } ==> error@
            == (CliErrorView::InvalidExpectedFormat { raw: raw@ }) && error@.message()
            == "invalid --expected-format "@ + raw@ + "; expected auto, approved, or label"@,
        error is Help <==> error@ is Help,
        error is InputRequired <==> error@ is InputRequired,
{
}

/// Flags and values alternate.
pub proof fn law_flags_and_values_alternate(args: Seq<Seq<char>>, pair: int)
    ensures
        flag_at(args, pair) == Flag::written(args[2 * pair]),
        value_at(args, pair) == args[2 * pair + 1],
{
}

} // verus!
