use quill::cli::{parse_args, CliArg, CliError, Flag, NumberClass};

fn classify(text: &str) -> NumberClass {
    match text.parse::<f64>() {
        Err(_) => NumberClass::Unparsable,
        Ok(v) if v < 0.0 => NumberClass::Negative,
        Ok(v) if v == 0.0 => NumberClass::Zero,
        Ok(_) => NumberClass::Other,
    }
}

fn args(list: &[&str]) -> Vec<CliArg> {
    list.iter().map(|t| CliArg { text: t.to_string(), number: classify(t) }).collect()
}

#[test]
fn full_command_line() {
    let o = parse_args(&args(&["win", "--input", "in.mp4", "--output", "out.mkv", "--seek", "0", "--duration", "12.5"])).unwrap();
    assert_eq!(o.input_path, "in.mp4");
    assert_eq!(o.output_path, "out.mkv");
    assert_eq!(o.seek.as_deref(), Some("0"));
    assert_eq!(o.duration.as_deref(), Some("12.5"));
}

#[test]
fn later_flag_overrides() {
    let o = parse_args(&args(&["win", "--input", "a", "--output", "b", "--input", "c"])).unwrap();
    assert_eq!(o.input_path, "c");
    assert_eq!(o.seek, None);
    assert_eq!(o.duration, None);
}

#[test]
fn too_few_arguments() {
    assert_eq!(parse_args(&args(&["win", "--input"])).err(), Some(CliError::TooFewArguments));
    assert_eq!(parse_args(&args(&[])).err(), Some(CliError::TooFewArguments));
}

#[test]
fn value_missing() {
    assert_eq!(parse_args(&args(&["win", "--input", "a", "--output"])).err(), Some(CliError::MissingValue(Flag::Output)));
    assert_eq!(parse_args(&args(&["win", "--output", "b", "--seek"])).err(), Some(CliError::MissingValue(Flag::Seek)));
}

#[test]
fn numbers_checked() {
    assert_eq!(parse_args(&args(&["win", "--seek", "abc", "--bogus"])).err(), Some(CliError::InvalidNumber(Flag::Seek)));
    assert_eq!(parse_args(&args(&["win", "--seek", "-1"])).err(), Some(CliError::NegativeSeek));
    assert_eq!(parse_args(&args(&["win", "--duration", "0"])).err(), Some(CliError::NonPositiveDuration));
    assert_eq!(parse_args(&args(&["win", "--duration", "-0.0"])).err(), Some(CliError::NonPositiveDuration));
    assert_eq!(parse_args(&args(&["win", "--duration", "x1"])).err(), Some(CliError::InvalidNumber(Flag::Duration)));
}

#[test]
fn unknown_argument_position() {
    assert_eq!(parse_args(&args(&["win", "--input", "a", "-o", "b"])).err(), Some(CliError::UnknownArgument(3)));
}

#[test]
fn paths_required() {
    assert_eq!(parse_args(&args(&["win", "--input", "a", "--seek", "1"])).err(), Some(CliError::MissingPaths));
    assert_eq!(parse_args(&args(&["win", "--input", "", "--output", "b"])).err(), Some(CliError::MissingPaths));
}

#[test]
fn hyphen_paths_refused() {
    assert_eq!(parse_args(&args(&["win", "--input", "-f", "--output", "b"])).err(), Some(CliError::HyphenPath));
    assert_eq!(parse_args(&args(&["win", "--input", "a", "--output", "-y"])).err(), Some(CliError::HyphenPath));
}
