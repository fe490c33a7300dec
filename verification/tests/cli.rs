use rinha_backend_2026::cli::{
    env_path, next_arg, parse_usize, usage, Cli, CliError, Flag, PathSettings,
};
use rinha_backend_2026::records::ExpectedFormat;
use rinha_backend_2026::text::NumberError;

fn args(words: &[&str]) -> Vec<String> {
    words.iter().map(|word| word.to_string()).collect()
}

fn no_settings() -> PathSettings {
    PathSettings { artifact_dir: None, normalization: None, mcc_risk: None }
}

fn parse(words: &[&str]) -> Result<Cli, CliError> {
    Cli::parse(&args(words), &no_settings())
}

#[test]
fn defaults_apply_without_options() {
    assert_eq!(
        parse(&["--input", "in.json"]),
        Ok(Cli {
            input: "in.json".to_string(),
            artifact_dir: "docker/artifacts".to_string(),
            normalization: "resources/normalization.json".to_string(),
            mcc_risk: "resources/mcc_risk.json".to_string(),
            limit: None,
            print_mismatches: 0,
            expected_format: ExpectedFormat::Auto,
        })
    );
}

#[test]
fn options_are_read_in_any_order_and_the_last_one_counts() {
    assert_eq!(
        parse(&[
            "--expected-format", "label", "--limit", "7", "--mcc-risk", "m", "--input", "a",
            "--artifact-dir", "d", "--normalization", "n", "--print-mismatches", "+3", "--limit",
            "0", "--input", "--help",
        ]),
        Ok(Cli {
            input: "--help".to_string(),
            artifact_dir: "d".to_string(),
            normalization: "n".to_string(),
            mcc_risk: "m".to_string(),
            limit: Some(0),
            print_mismatches: 3,
            expected_format: ExpectedFormat::Label,
        })
    );
}

#[test]
fn environment_sets_paths_that_are_not_given() {
    let settings = PathSettings {
        artifact_dir: Some("env-dir".to_string()),
        normalization: Some("env-norm".to_string()),
        mcc_risk: Some("env-mcc".to_string()),
    };
    let cli =
        Cli::parse(&args(&["--input", "a", "--normalization", "given"]), &settings).unwrap();
    assert_eq!(cli.artifact_dir, "env-dir");
    assert_eq!(cli.normalization, "given");
    assert_eq!(cli.mcc_risk, "env-mcc");
    assert_eq!(env_path(&None, "x"), "x");
    assert_eq!(env_path(&Some("y".to_string()), "x"), "y");
}

#[test]
fn order_of_flags_plays_no_part_and_the_last_value_counts() {
    let pairs = [
        ["--input", "in"],
        ["--limit", "7"],
        ["--expected-format", "label"],
        ["--mcc-risk", "risk"],
    ];
    let expected = parse(&pairs.concat()).unwrap();
    assert_eq!(expected.limit, Some(7));
    for first in 0..4 {
        for second in 0..4 {
            let mut swapped = pairs;
            swapped.swap(first, second);
            assert_eq!(parse(&swapped.concat()).unwrap(), expected);
        }
    }
    let mut repeated = vec!["--limit", "9", "--input", "other", "--limit", "8"];
    repeated.extend(pairs.concat());
    assert_eq!(parse(&repeated).unwrap(), expected);
    // Of several faults the first one is told.
    assert_eq!(
        parse(&["--limit", "x", "--help"]),
        Err(CliError::InvalidNumber { flag: Flag::Limit, cause: NumberError::InvalidDigit })
    );
    // An argument after a flag is its value, whatever it is.
    assert_eq!(parse(&["--input", "--help"]).unwrap().input, "--help");
}

#[test]
fn every_error_is_told() {
    let usage_text = "usage: eval_ann --input <path> [--artifact-dir <path>] [--normalization <path>] \
         [--mcc-risk <path>] [--limit <n>] [--print-mismatches <n>] \
         [--expected-format auto|approved|label]";
    assert_eq!(usage(), usage_text);

    let error = parse(&["--help"]).unwrap_err();
    assert_eq!(error, CliError::Help);
    assert_eq!(error.message(), usage_text);
    assert_eq!(parse(&["-h", "--nonsense"]), Err(CliError::Help));

    let error = parse(&["--nonsense", "-h"]).unwrap_err();
    assert_eq!(error, CliError::UnknownArgument { argument: "--nonsense".to_string() });
    assert_eq!(error.message(), format!("unknown argument --nonsense\n{usage_text}"));

    let error = parse(&["--limit", "1"]).unwrap_err();
    assert_eq!(error, CliError::InputRequired);
    assert_eq!(error.message(), format!("--input is required\n{usage_text}"));

    let error = parse(&["--input", "a", "--mcc-risk"]).unwrap_err();
    assert_eq!(error, CliError::MissingValue { flag: Flag::MccRisk });
    assert_eq!(error.message(), "--mcc-risk requires a value");

    let error = parse(&["--limit", "-1", "--input", "a"]).unwrap_err();
    assert_eq!(
        error,
        CliError::InvalidNumber { flag: Flag::Limit, cause: NumberError::InvalidDigit }
    );
    assert_eq!(error.message(), "--limit requires a non-negative integer");
    assert_eq!(
        parse(&["--print-mismatches", "x"]).unwrap_err().message(),
        "--print-mismatches requires a non-negative integer"
    );

    let error = parse(&["--expected-format", "both"]).unwrap_err();
    assert_eq!(error, CliError::InvalidExpectedFormat { raw: "both".to_string() });
    assert_eq!(
        error.message(),
        "invalid --expected-format both; expected auto, approved, or label"
    );
}

#[test]
fn formats_have_names() {
    assert_eq!(ExpectedFormat::parse("auto"), Ok(ExpectedFormat::Auto));
    assert_eq!(ExpectedFormat::parse("approved"), Ok(ExpectedFormat::Approved));
    assert_eq!(ExpectedFormat::parse("label"), Ok(ExpectedFormat::Label));
    assert!(ExpectedFormat::parse("Auto").is_err());
}

#[test]
fn flags_are_read_back() {
    for flag in [
        Flag::Input,
        Flag::ArtifactDir,
        Flag::Normalization,
        Flag::MccRisk,
        Flag::Limit,
        Flag::PrintMismatches,
        Flag::ExpectedFormat,
    ] {
        assert_eq!(Flag::read(flag.name()), Some(flag));
    }
    assert_eq!(Flag::read("--help"), None);
    assert_eq!(Flag::read(""), None);
}

#[test]
fn values_follow_their_flag() {
    let words = args(&["a", "b"]);
    assert_eq!(next_arg(&words, 1, Flag::Limit), Ok(&"b".to_string()));
    assert_eq!(
        next_arg(&words, 2, Flag::Limit),
        Err(CliError::MissingValue { flag: Flag::Limit })
    );
    assert_eq!(parse_usize("18446744073709551615", Flag::Limit), Ok(usize::MAX));
    assert_eq!(
        parse_usize("18446744073709551616", Flag::Limit),
        Err(CliError::InvalidNumber { flag: Flag::Limit, cause: NumberError::TooLarge })
    );
    assert_eq!(
        parse_usize("", Flag::PrintMismatches),
        Err(CliError::InvalidNumber { flag: Flag::PrintMismatches, cause: NumberError::Empty })
    );
}
