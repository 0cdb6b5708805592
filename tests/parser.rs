use clrust::arg::{Arg, ArgCountValidator, ArgEmptyValidator, ArgOptionValidator, ArgValidator, DefaultArg, Validator};
use clrust::arg_key::ArgKey;
use clrust::arg_parser::ArgParser;
use clrust::argument::{ArgOptions, Arg as BuiltArg};
use clrust::argument_parser::ArgumentParser;
use clrust::error::ParseError as Failure;
use clrust::parse_error::{ParseError, ParseErrorKind};
use clrust::parsed_arg::ParsedArg;
use clrust::raw_args::RawArgs;

fn raw(tokens: &[&str]) -> RawArgs {
    RawArgs::new(tokens.iter().map(|t| t.to_string()).collect())
}

fn key(k: &str) -> ArgKey {
    ArgKey::make(k).unwrap()
}

fn action_parser() -> ArgumentParser {
    let mut p = ArgumentParser::new();
    let mut opts = ArgOptions::new();
    opts.add_option("build").add_option("test");
    p.get_mut(0).unwrap().arg_mut().add_validator(opts.to_validator());
    p.add_argument(key("--verbose")).optional();
    p
}

#[test]
fn action_and_flag_are_recorded() {
    let p = action_parser();
    let mut r = raw(&["build", "--verbose"]);
    let parsed = p.parse_args(&mut r).unwrap();
    assert_eq!(parsed.len(), 1);
    assert_eq!(parsed.positional_value(0), Some("build"));
    assert_eq!(parsed.first_of(&key("--verbose")), Some(&String::new()));
    assert_eq!(r.remaining(), 0);
}

#[test]
fn unknown_action_is_an_invalid_value_at_tier_zero() {
    let p = action_parser();
    let e = p.parse_args(&mut raw(&["deploy"])).unwrap_err();
    assert_eq!(e.err, Failure::InvalidValue);
    assert_eq!(e.pos, "0");
}

#[test]
fn option_where_action_expected_is_not_positional() {
    let p = action_parser();
    let e = p.parse_args(&mut raw(&["--verbose"])).unwrap_err();
    assert_eq!(e.err, Failure::NotPositional);
    assert_eq!(e.pos, "0");
}

fn name_parser() -> ArgParser {
    let mut parser = ArgParser::new();
    parser.add_argument("--name", Arg::new().required());
    parser
}

fn resumed(tokens: &[&str]) -> (Result<(), ParseError>, ParsedArg) {
    let parser = name_parser();
    let mut args = ParsedArg::new();
    args.add_positional_argument("prog".to_string());
    let mut r = raw(tokens);
    let res = parser.incremental_parse(&mut args, &mut r);
    (res, args)
}

#[test]
fn required_value_missing_at_end_of_input() {
    let (res, _) = resumed(&["--name"]);
    let e = res.unwrap_err();
    assert_eq!(e.kind, ParseErrorKind::NoValueGiven);
    assert_eq!(e.key, Some("--name".to_string()));
}

#[test]
fn required_value_taken_from_next_token() {
    let (res, args) = resumed(&["--name", "Ada"]);
    assert!(res.is_ok());
    assert_eq!(args.first_of(&key("--name")), Some(&"Ada".to_string()));
    assert_eq!(args.count(&key("--name")), 1);
}

#[test]
fn inline_and_split_values_agree() {
    let (r1, a1) = resumed(&["--name=Ada", "rest"]);
    let (r2, a2) = resumed(&["--name", "Ada", "rest"]);
    assert!(r1.is_ok() && r2.is_ok());
    assert_eq!(a1.filter(&key("--name")), vec!["Ada".to_string()]);
    assert_eq!(a2.filter(&key("--name")), vec!["Ada".to_string()]);
}

#[test]
fn program_name_fills_the_first_tier() {
    let parser = name_parser();
    let parsed = parser.parse(&mut raw(&["prog", "--name", "Ada"])).unwrap();
    assert_eq!(parsed.arg(), "prog");
    assert_eq!(parsed.first_of(&key("--name")), Some(&"Ada".to_string()));
}

#[test]
fn exactly_one_occurrence() {
    let (res, _) = resumed(&[]);
    assert_eq!(res.unwrap_err().kind, ParseErrorKind::TooManyValueGiven);
    let (res, _) = resumed(&["--name", "a"]);
    assert!(res.is_ok());
    let (res, _) = resumed(&["--name", "a", "--name", "b"]);
    let e = res.unwrap_err();
    assert_eq!(e.kind, ParseErrorKind::TooManyValueGiven);
    assert_eq!(e.key, Some("--name".to_string()));
}

#[test]
fn count_validator_on_records() {
    let mut args = ParsedArg::new();
    args.add_positional_argument("p".to_string());
    let one = ArgCountValidator::one();
    assert_eq!(one.post_validate(Some(&key("-k")), &mut args).unwrap_err().kind, ParseErrorKind::TooManyValueGiven);
    args.add_argument(key("-k"), "v".to_string());
    assert!(one.post_validate(Some(&key("-k")), &mut args).is_ok());
    args.add_argument(key("-k"), "w".to_string());
    assert!(one.post_validate(Some(&key("-k")), &mut args).is_err());
    assert!(one.post_validate(None, &mut args).is_ok());
}

#[test]
fn default_is_injected_once() {
    let mut args = ParsedArg::new();
    args.add_positional_argument("p".to_string());
    let d = DefaultArg::new("fast");
    assert!(d.post_validate(Some(&key("--mode")), &mut args).is_ok());
    assert!(d.post_validate(Some(&key("--mode")), &mut args).is_ok());
    assert_eq!(args.filter(&key("--mode")), vec!["fast".to_string()]);
}

#[test]
fn default_not_injected_when_present() {
    let mut parser = ArgParser::new();
    parser.add_argument("--mode", Arg::new().with_default("fast"));
    let parsed = parser.parse(&mut raw(&["prog", "--mode=slow"])).unwrap();
    assert_eq!(parsed.filter(&key("--mode")), vec!["slow".to_string()]);
    let parsed = parser.parse(&mut raw(&["prog"])).unwrap();
    assert_eq!(parsed.filter(&key("--mode")), vec!["fast".to_string()]);
}

#[test]
fn default_needs_a_key() {
    let mut args = ParsedArg::new();
    args.add_positional_argument("p".to_string());
    assert!(DefaultArg::new("x").post_validate(None, &mut args).is_ok());
    assert_eq!(args.param_iter().len(), 0);
}

#[test]
fn option_set_membership_is_exact() {
    let v = ArgOptionValidator::new().option("build", None).option("test", Some("run the tests"));
    assert!(v.validate(Some("build")).is_ok());
    assert!(v.validate(Some("test")).is_ok());
    assert_eq!(v.validate(Some("Build")).unwrap_err().kind, ParseErrorKind::InvalidValue);
    assert_eq!(v.validate(Some("buil")).unwrap_err().kind, ParseErrorKind::InvalidValue);
    assert_eq!(v.validate(None).unwrap_err().kind, ParseErrorKind::NoValueGiven);
}

#[test]
fn option_registered_twice_keeps_one_entry() {
    let v = ArgOptionValidator::new().option("a", None).option("a", Some("help"));
    assert_eq!(v.len(), 1);
    assert_eq!(v.iter()[0].1, Some("help".to_string()));
    let mut o = ArgOptions::new();
    o.add_option_help("a", "first").add_option("a").add_option("b");
    assert_eq!(o.len(), 2);
    assert_eq!(o.iter()[0].help_text, Some("first".to_string()));
}

#[test]
fn same_kind_validator_replaces() {
    let a = Arg::new().n_range(0, 1).n_range(1, 3).as_flag().require_value();
    assert_eq!(a.len(), 2);
    assert!(ArgValidator::validate(&a, None).is_err());
    let mut b = BuiltArg::new();
    b.optional().required();
    assert_eq!(b.inner.len(), 2);
}

#[test]
fn empty_validator() {
    assert!(ArgEmptyValidator::allow().validate(None).is_ok());
    assert_eq!(ArgEmptyValidator::require_value().validate(None).unwrap_err().kind, ParseErrorKind::NoValueGiven);
    assert!(ArgEmptyValidator::require_value().validate(Some("")).is_ok());
}

#[test]
fn incremental_parse_resumes_without_rereading() {
    let mut parser = ArgParser::new();
    parser.add_argument("-v", Arg::new().as_flag().optional());
    let mut args = ParsedArg::new();
    let mut r = raw(&["prog", "-v", "build", "--jobs", "4"]);
    assert!(parser.incremental_parse(&mut args, &mut r).is_ok());
    assert_eq!(args.len(), 1);
    assert_eq!(args.count(&key("-v")), 1);
    parser.add_positional_argument(Arg::new().validate(Validator::Options(ArgOptionValidator::new().option("build", None))));
    parser.add_argument("--jobs", Arg::new().required());
    assert!(parser.incremental_parse(&mut args, &mut r).is_ok());
    assert_eq!(args.len(), 2);
    assert_eq!(args.positional_value(0), Some("prog"));
    assert_eq!(args.positional_value(1), Some("build"));
    assert_eq!(args.first_of(&key("--jobs")), Some(&"4".to_string()));
    assert_eq!(r.remaining(), 0);
}

#[test]
fn unknown_option_stops_the_tier() {
    let parser = ArgParser::new();
    let mut r = raw(&["prog", "--other"]);
    let parsed = parser.parse(&mut r).unwrap();
    assert_eq!(parsed.len(), 1);
    assert_eq!(r.remaining(), 1);
    assert_eq!(r.peek(), Some(&"--other".to_string()));
}

#[test]
fn positional_error_is_tagged_with_its_slot() {
    let parser = ArgParser::new();
    let e = parser.parse(&mut raw(&["-x"])).unwrap_err();
    assert_eq!(e.kind, ParseErrorKind::NotPositional);
    assert_eq!(e.key, Some("arg0".to_string()));
}

#[test]
fn empty_input_parses_to_nothing() {
    let parsed = ArgParser::new().parse(&mut raw(&[])).unwrap();
    assert!(parsed.is_empty());
    assert_eq!(parsed.count(&key("-x")), 0);
    assert!(!parsed.contains(&key("-x")));
}

#[test]
fn key_shapes() {
    assert!(ArgKey::is_arg_key("-x"));
    assert!(!ArgKey::is_arg_key("--x"));
    assert!(ArgKey::is_arg_key("--xy"));
    assert!(ArgKey::is_arg_key("--name"));
    assert!(ArgKey::is_arg_key("--"));
    assert!(!ArgKey::is_arg_key("-"));
    assert!(!ArgKey::is_arg_key("-xy"));
    assert!(!ArgKey::is_arg_key("x"));
    assert!(!ArgKey::is_arg_key(""));
    assert_eq!(ArgKey::make("name").unwrap_err().kind, ParseErrorKind::NotArgumentKey);
}

#[test]
fn key_and_inline_value_split_at_first_equals() {
    let (k, v) = ArgKey::parse_arg("--kk=v=w").unwrap();
    assert_eq!(k.value, "--kk");
    assert_eq!(v, Some("v=w".to_string()));
    let (k, v) = ArgKey::parse_arg("--kk=").unwrap();
    assert_eq!(k.value, "--kk");
    assert_eq!(v, Some(String::new()));
    let (k, v) = ArgKey::parse_arg("--flag").unwrap();
    assert_eq!(k.value, "--flag");
    assert_eq!(v, None);
    assert!(ArgKey::parse_arg("value").is_err());
}

#[test]
fn error_tags() {
    let e = ParseError::invalid_value("bad").key("--k".to_string());
    assert_eq!(e.kind, ParseErrorKind::InvalidValue);
    assert_eq!(e.msg, "bad");
    assert_eq!(e.key, Some("--k".to_string()));
    assert_eq!(ParseError::duplicate_argument("").kind, ParseErrorKind::DuplicateArgument);
    assert_eq!(ParseError::not_required_argument("").kind, ParseErrorKind::NotRequiredArgument);
    assert_eq!(ParseError::too_many_value_given("").kind, ParseErrorKind::TooManyValueGiven);
    assert_eq!(ParseError::not_positional("").kind, ParseErrorKind::NotPositional);
    assert_eq!(ParseError::no_value_given("").kind, ParseErrorKind::NoValueGiven);
}

#[test]
fn second_parser_reports_cardinality_and_missing_values() {
    let mut p = ArgumentParser::new();
    p.add_argument(key("--out")).required();
    let e = p.parse_args(&mut raw(&["prog"])).unwrap_err();
    assert_eq!(e.err, Failure::TooManyOrTooLittleValue);
    assert_eq!(e.pos, "--out");
    let e = p.parse_args(&mut raw(&["prog", "--out"])).unwrap_err();
    assert_eq!(e.err, Failure::ValueRequired);
    let ok = p.parse_args(&mut raw(&["prog", "--out", "f.txt"])).unwrap();
    assert_eq!(ok.first_of(&key("--out")), Some(&"f.txt".to_string()));
}

#[test]
fn second_parser_structure_access() {
    let mut p = ArgumentParser::new();
    p.add_argument_unchecked("--x").n_at_least(2);
    p.add_argument_unchecked("--x").help("again");
    assert_eq!(p.last_arg().param_len(), 1);
    p.add_positional();
    assert_eq!(p.len(), 2);
    assert!(p.get(2).is_none());
    assert_eq!(p.arg_iter().len(), 2);
}

fn action_arg_parser() -> ArgParser {
    let mut p = ArgParser::empty();
    p.add_positional_argument(
        Arg::new().required().validate(Validator::Options(ArgOptionValidator::new().option("build", None).option("test", None))),
    );
    p.add_argument("--verbose", Arg::new().as_flag().optional());
    p
}

#[test]
fn action_scenario_on_first_tier() {
    let p = action_arg_parser();
    let mut r = raw(&["build", "--verbose"]);
    let parsed = p.parse(&mut r).unwrap();
    assert_eq!(parsed.len(), 1);
    assert_eq!(parsed.positional_value(0), Some("build"));
    assert_eq!(parsed.first_of_str("--verbose"), Some(&String::new()));
    assert_eq!(r.remaining(), 0);
    let e = p.parse(&mut raw(&["deploy"])).unwrap_err();
    assert_eq!(e.kind, ParseErrorKind::InvalidValue);
    assert_eq!(e.key, Some("arg0".to_string()));
    let mut r = raw(&["--verbose"]);
    let e = p.parse(&mut r).unwrap_err();
    assert_eq!(e.kind, ParseErrorKind::NotPositional);
    assert_eq!(e.key, Some("arg0".to_string()));
    assert_eq!(r.remaining(), 1);
}

#[test]
fn failed_retry_records_nothing() {
    let parser = name_parser();
    let mut args = ParsedArg::new();
    args.add_positional_argument("prog".to_string());
    let mut r = raw(&["--name"]);
    assert!(parser.incremental_parse(&mut args, &mut r).is_err());
    assert_eq!(args.count_str("--name"), 0);
    assert_eq!(args.len(), 1);
    assert_eq!(r.remaining(), 0);
}

#[test]
fn key_part_must_be_key_shaped() {
    assert_eq!(ArgKey::parse_arg("--a=b").unwrap_err().kind, ParseErrorKind::NotArgumentKey);
    assert_eq!(ArgKey::parse_arg("--x=y").unwrap_err().kind, ParseErrorKind::NotArgumentKey);
    assert_eq!(ArgKey::parse_arg("-x=y").unwrap_err().kind, ParseErrorKind::NotArgumentKey);
    let (k, v) = ArgKey::parse_arg("--ab=c").unwrap();
    assert_eq!(k.value, "--ab");
    assert_eq!(v, Some("c".to_string()));
}

#[test]
fn keys_compare_with_raw_strings() {
    let k = key("--name");
    assert!(k.eq_str("--name"));
    assert!(!k.eq_str("--nam"));
    let mut args = ParsedArg::new();
    args.add_positional_argument("p".to_string());
    args.add_argument(key("-v"), "1".to_string());
    args.add_argument(key("-v"), "2".to_string());
    assert_eq!(args.count_str("-v"), 2);
    assert!(args.contains_str("-v"));
    assert_eq!(args.filter_str("-v"), vec!["1".to_string(), "2".to_string()]);
    assert!(args.first_of_str("-w").is_none());
}
