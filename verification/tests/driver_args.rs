use lnprototest_harness::bridge::ParamValue;
use lnprototest_harness::cli::{parse_cli, CliCommand, CliError};

fn args(xs: &[&str]) -> Vec<String> {
    xs.iter().map(|x| x.to_string()).collect()
}

#[test]
fn missing_method_is_a_fatal_parse_error() {
    let r = parse_cli(&args(&["--data-dir", "/tmp/lampo"]));
    assert_eq!(r, Err(CliError::MissingMethod));
    assert_eq!(
        CliError::MissingMethod.message(),
        "method is not specified"
    );
    assert_eq!(parse_cli(&args(&[])), Err(CliError::MissingMethod));
}

#[test]
fn missing_data_dir_is_a_fatal_parse_error() {
    let r = parse_cli(&args(&["get_events", "peer_id=03ab"]));
    assert_eq!(r, Err(CliError::MissingDataDir));
}

#[test]
fn help_flag_wins() {
    assert_eq!(parse_cli(&args(&["--help"])), Ok(CliCommand::Help));
    assert_eq!(parse_cli(&args(&["-h"])), Ok(CliCommand::Help));
    assert_eq!(
        parse_cli(&args(&["-h", "get_events"])),
        Ok(CliCommand::Help)
    );
}

#[test]
fn full_invocation_parses_with_value_coercion() {
    let r = parse_cli(&args(&[
        "-d",
        "/data/lampo",
        "-n",
        "regtest",
        "get_events",
        "peer_id=03ab",
        "since_seq=5",
        "verbose=true",
        "tag=alice",
    ]));
    match r {
        Ok(CliCommand::Run(a)) => {
            assert_eq!(a.datadir, "/data/lampo");
            assert_eq!(a.network.as_deref(), Some("regtest"));
            assert_eq!(a.method, "get_events");
            let params: Vec<(String, ParamValue)> = a.params;
            assert_eq!(params.len(), 4);
            assert_eq!(params[0].0, "peer_id");
            assert_eq!(params[0].1, ParamValue::Str("03ab".to_string()));
            assert_eq!(params[1].1, ParamValue::Num(5));
            assert_eq!(params[2].1, ParamValue::Bool(true));
            assert_eq!(params[3].1, ParamValue::Str("alice".to_string()));
        }
        other => panic!("expected a parsed run, got {:?}", other.is_ok()),
    }
}

#[test]
fn options_may_come_in_any_order_before_the_method() {
    let r = parse_cli(&args(&["-n", "testnet", "--data-dir", "/x", "list_peers"]));
    match r {
        Ok(CliCommand::Run(a)) => {
            assert_eq!(a.datadir, "/x");
            assert_eq!(a.method, "list_peers");
            assert!(a.params.is_empty());
        }
        _ => panic!("expected a parsed run"),
    }
}

#[test]
fn option_without_value_is_rejected() {
    assert_eq!(parse_cli(&args(&["-d"])), Err(CliError::MissingOptionValue));
    assert_eq!(
        parse_cli(&args(&["-d", "/x", "-n"])),
        Err(CliError::MissingOptionValue)
    );
}

#[test]
fn unknown_option_is_rejected() {
    assert_eq!(
        parse_cli(&args(&["--verbose", "list_peers"])),
        Err(CliError::UnknownOption)
    );
}

#[test]
fn trailing_argument_without_equals_is_rejected() {
    assert_eq!(
        parse_cli(&args(&["-d", "/x", "list_peers", "oops"])),
        Err(CliError::ExpectedKeyValue)
    );
}

#[test]
fn numeric_coercion_matches_u64_bounds() {
    let parsed = |v: &str| -> ParamValue {
        match parse_cli(&args(&["-d", "/x", "m", &format!("k={}", v)])) {
            Ok(CliCommand::Run(a)) => a.params.into_iter().next().unwrap().1,
            _ => panic!("expected a parsed run"),
        }
    };
    assert_eq!(parsed("0"), ParamValue::Num(0));
    assert_eq!(parsed("42"), ParamValue::Num(42));
    assert_eq!(parsed("01"), ParamValue::Num(1));
    assert_eq!(parsed("18446744073709551615"), ParamValue::Num(u64::MAX));
    // One past u64::MAX is not integer-parseable, so it stays a string.
    assert_eq!(
        parsed("18446744073709551616"),
        ParamValue::Str("18446744073709551616".to_string())
    );
    assert_eq!(parsed("false"), ParamValue::Bool(false));
    assert_eq!(parsed("12x"), ParamValue::Str("12x".to_string()));
    assert_eq!(parsed(""), ParamValue::Str("".to_string()));
}

#[test]
fn every_grammar_error_has_a_stable_message() {
    assert_eq!(CliError::MissingMethod.message(), "method is not specified");
    assert_eq!(
        CliError::MissingDataDir.message(),
        "data directory is not specified"
    );
    assert_eq!(
        CliError::MissingOptionValue.message(),
        "option requires a value"
    );
    assert_eq!(CliError::UnknownOption.message(), "unknown option");
    assert_eq!(
        CliError::ExpectedKeyValue.message(),
        "expected key=value argument"
    );
}

#[test]
fn value_splits_at_first_equals_sign() {
    match parse_cli(&args(&["-d", "/x", "m", "expr=a=b"])) {
        Ok(CliCommand::Run(a)) => {
            assert_eq!(a.params[0].0, "expr");
            assert_eq!(a.params[0].1, ParamValue::Str("a=b".to_string()));
        }
        _ => panic!("expected a parsed run"),
    }
}
