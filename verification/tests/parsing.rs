//! Parsing behavior with the real grammar engine linked: queries under
//! short and long names, undeclared names, repeated values, positional
//! captures, early exits and usage errors.

use coreopts::CoreOptions;
use coreopts::HelpTextBuilder;
use coreopts::Matches;
use coreopts::ParseOutcome;

fn args(tokens: &[&str]) -> Vec<String> {
    tokens.iter().map(|t| t.to_string()).collect()
}

fn must_succeed(opts: &CoreOptions, tokens: &[&str]) -> Matches {
    match opts.parse(args(tokens)) {
        ParseOutcome::Success(m) => m,
        ParseOutcome::HelpOrVersion(t) => panic!("unexpected help/version: {}", t),
        ParseOutcome::UsageError(t) => panic!("unexpected usage error: {}", t),
    }
}

fn sample_opts() -> CoreOptions {
    let mut opts = CoreOptions::new(HelpTextBuilder::new("prog").version("0.1").build());
    opts.optopt("a", "alpha", "takes one value", "VAL");
    opts.optflag("b", "beta", "a flag");
    opts.optmulti("m", "multi", "takes many values", "VAL");
    opts
}

#[test]
fn short_and_long_names_answer_alike() {
    let opts = sample_opts();
    let m = must_succeed(&opts, &["-a", "x", "-b"]);
    assert_eq!(m.opt_present("a"), m.opt_present("alpha"));
    assert_eq!(m.opt_present("b"), m.opt_present("beta"));
    assert_eq!(m.opt_present("m"), m.opt_present("multi"));
    assert_eq!(m.opt_str("a"), m.opt_str("alpha"));
    assert_eq!(m.opt_str("b"), m.opt_str("beta"));
    assert_eq!(m.opt_str("m"), m.opt_str("multi"));
    assert!(m.opt_present("a"));
    assert!(m.opt_present("beta"));
}

#[test]
fn undeclared_names_are_absent() {
    let opts = sample_opts();
    let m = must_succeed(&opts, &["-b"]);
    assert!(!m.opt_present("zeta"));
    assert!(!m.opt_present("z"));
    assert_eq!(m.opt_str("zeta"), None);
    assert_eq!(m.opt_str("z"), None);
    assert_eq!(m.opt_strs("zeta"), Vec::<String>::new());
}

#[test]
fn repeated_values_kept_in_encounter_order() {
    let opts = sample_opts();
    let m = must_succeed(&opts, &["-m", "v1", "-m", "v2", "--multi", "v3"]);
    assert_eq!(m.opt_strs("m"), vec!["v1".to_owned(), "v2".to_owned(), "v3".to_owned()]);
    assert_eq!(m.opt_strs("multi"), vec!["v1".to_owned(), "v2".to_owned(), "v3".to_owned()]);
    assert_eq!(m.opt_str("m"), Some("v1".to_owned()));
}

#[test]
fn positional_arguments_are_kept_in_order() {
    let mut opts = CoreOptions::new(HelpTextBuilder::new("prog").build());
    opts.optflag("f", "flag", "a flag");
    let m = must_succeed(&opts, &["a", "--flag", "b", "c"]);
    assert_eq!(m.free, vec!["a".to_owned(), "b".to_owned(), "c".to_owned()]);
    assert!(m.opt_present("flag"));
}

#[test]
fn help_is_an_early_exit_with_code_zero() {
    let opts = sample_opts();
    let out = opts.parse(args(&["-h"]));
    assert!(matches!(out, ParseOutcome::HelpOrVersion(_)));
    assert_eq!(out.exit_code(), 0);
    let out = opts.parse(args(&["--help"]));
    assert!(matches!(out, ParseOutcome::HelpOrVersion(_)));
}

#[test]
fn version_is_an_early_exit_with_code_zero() {
    let opts = sample_opts();
    let out = opts.parse(args(&["--version"]));
    assert!(matches!(out, ParseOutcome::HelpOrVersion(_)));
    assert_eq!(out.exit_code(), 0);
}

#[test]
fn undeclared_token_is_a_usage_error_naming_the_program() {
    let opts = sample_opts();
    let out = opts.parse(args(&["--bogus"]));
    assert_eq!(out.exit_code(), 1);
    match out {
        ParseOutcome::UsageError(text) => {
            assert!(text.starts_with("prog: "));
            assert!(!text["prog: ".len()..].is_empty());
        },
        other => panic!("expected a usage error, got exit code {}", other.exit_code()),
    }
}

#[test]
fn round_trip_of_a_small_configuration() {
    let mut opts = CoreOptions::new(HelpTextBuilder::new("prog").build());
    opts.optopt("a", "", "takes one value", "VAL");
    opts.optflag("b", "", "a flag");
    let m = must_succeed(&opts, &["-a", "x", "-b"]);
    assert_eq!(m.opt_str("a"), Some("x".to_owned()));
    assert!(m.opt_present("b"));
    assert_eq!(m.free, Vec::<String>::new());
}

#[test]
fn opts_present_answers_for_any_of_the_names() {
    let opts = sample_opts();
    let m = must_succeed(&opts, &["-b"]);
    assert!(m.opts_present(&["nope".to_owned(), "beta".to_owned()]));
    assert!(m.opts_present(&["b".to_owned()]));
    assert!(!m.opts_present(&["nope".to_owned(), "alpha".to_owned()]));
    assert!(!m.opts_present(&[]));
}

#[test]
fn aliases_dispatch_to_the_canonical_option() {
    let mut opts = CoreOptions::new(HelpTextBuilder::new("prog").build());
    opts.optflags(&["v", "V"], &["verbose", "loud"], "say more");
    let m = must_succeed(&opts, &["--loud"]);
    assert!(m.opt_present("verbose"));
    assert!(m.opt_present("v"));
    assert!(m.opt_present("V"));
    let m = must_succeed(&opts, &["-v"]);
    assert!(m.opt_present("verbose"));
}

#[test]
fn repeatable_flag_accepts_repetition() {
    let mut opts = CoreOptions::new(HelpTextBuilder::new("prog").build());
    opts.optflagmulti("d", "debug", "more noise");
    let m = must_succeed(&opts, &["-d", "-d", "-d"]);
    assert!(m.opt_present("d"));
    assert!(m.opt_present("debug"));
}

#[test]
fn optional_value_may_be_omitted() {
    let mut opts = CoreOptions::new(HelpTextBuilder::new("prog").build());
    opts.optflagopt("o", "out", "maybe a value", "FILE");
    let m = must_succeed(&opts, &["-o"]);
    assert!(m.opt_present("o"));
    assert_eq!(m.opt_str("o"), None);
    let m = must_succeed(&opts, &["-o", "file.txt"]);
    assert!(m.opt_present("out"));
    assert_eq!(m.opt_str("out"), Some("file.txt".to_owned()));
}

#[test]
fn empty_input_parses_to_an_empty_snapshot() {
    let opts = sample_opts();
    let m = must_succeed(&opts, &[]);
    assert!(!m.opt_present("a"));
    assert!(!m.opt_present("b"));
    assert_eq!(m.free, Vec::<String>::new());
}

#[test]
fn flag_with_no_value_has_no_string() {
    let opts = sample_opts();
    let m = must_succeed(&opts, &["-b"]);
    assert!(m.opt_present("b"));
    assert_eq!(m.opt_str("b"), None);
    assert_eq!(m.opt_strs("beta"), Vec::<String>::new());
}


#[test]
fn missing_required_value_is_a_usage_error() {
    let opts = sample_opts();
    let out = opts.parse(args(&["-a"]));
    assert_eq!(out.exit_code(), 1);
    match out {
        ParseOutcome::UsageError(text) => assert!(text.starts_with("prog: ")),
        _ => panic!("expected a usage error for a missing required value"),
    }
}

#[test]
fn optional_value_never_swallows_a_hyphen_token() {
    let mut opts = CoreOptions::new(HelpTextBuilder::new("prog").build());
    opts.optflagopt("o", "out", "maybe a value", "FILE");
    opts.optflag("b", "beta", "a flag");
    let m = must_succeed(&opts, &["-o", "-b"]);
    assert!(m.opt_present("o"));
    assert_eq!(m.opt_str("o"), None);
    assert!(m.opt_present("b"));
}

#[test]
fn colliding_declarations_are_detected() {
    let mut opts = CoreOptions::new(HelpTextBuilder::new("prog").build());
    opts.optflag("x", "one", "first owner");
    assert!(opts.is_engine_safe());
    opts.optflag("x", "two", "second owner");
    assert!(!opts.is_engine_safe());
}

#[test]
fn distinct_declarations_are_engine_safe() {
    let opts = sample_opts();
    assert!(opts.is_engine_safe());
    let mut opts = CoreOptions::new(HelpTextBuilder::new("prog").build());
    opts.optflag("", "ARGS", "reuses the reserved capture name");
    assert!(!opts.is_engine_safe());
    let mut opts = CoreOptions::new(HelpTextBuilder::new("prog").build());
    opts.optflag("a", "same", "one");
    opts.optflag("b", "-same", "hyphens trim to the same long form");
    assert!(!opts.is_engine_safe());
}
