use clrust::app_identity::AppIdentity;
use clrust::app_version::AppVersion;
use clrust::arg::{Arg, ArgCountValidator, ArgEmptyValidator, ArgOptionValidator, ArgValidator, DefaultArg};
use clrust::argument::{Arg as BuiltArg, ArgOptions, ArgValidator as ListingValidator};
use clrust::decimal::decimal;
use clrust::terminal::{TerminalNode, TerminalNodes};
use clrust::tui::{DomNode, DomStyle, Layout, Paragraph, RgbColor, TextEffect};

fn text_of(n: &DomNode) -> String {
    match n {
        DomNode::Text(p) => p.text.clone(),
        DomNode::VStack(_) => panic!("expected text"),
    }
}

#[test]
fn version_parses_three_fields() {
    assert_eq!(AppVersion::parse("1.2.3").unwrap(), AppVersion::new(1, 2, 3));
    assert_eq!(AppVersion::parse("10.0.7.9").unwrap(), AppVersion::new(10, 0, 7));
    assert_eq!(AppVersion::parse("+1.2.3").unwrap(), AppVersion::new(1, 2, 3));
    assert_eq!(AppVersion::parse("4294967295.0.0").unwrap(), AppVersion::new(4294967295, 0, 0));
}

#[test]
fn version_rejects_malformed_text() {
    for bad in ["1.2", "1", "", "1.x.3", "1..3", "1.2.", "4294967296.0.0", "-1.2.3", "1.2.3a"] {
        let e = AppVersion::parse(bad).unwrap_err();
        assert_eq!(e.kind, clrust::parse_error::ParseErrorKind::InvalidValue);
        assert_eq!(e.msg, bad);
    }
}

#[test]
fn version_order() {
    let a = AppVersion::new(1, 2, 3);
    assert!(a < AppVersion::new(1, 3, 0));
    assert!(a > AppVersion::new(1, 2, 2));
    assert!(a < AppVersion::new(2, 0, 0));
    assert_eq!(a.partial_cmp(&AppVersion::new(1, 2, 3)), Some(std::cmp::Ordering::Equal));
    assert_eq!(a.to_text(), "1.2.3");
}

#[test]
fn identity_banner() {
    let id = AppIdentity::new("tool", "does things", AppVersion::new(0, 4, 12)).author("Ada").license("MIT");
    assert_eq!(id.to_text(), "tool v0.4.12\ndoes things\nWritten by : Ada\nMIT\n");
    let bare = AppIdentity::new("tool", "", AppVersion::default());
    assert_eq!(bare.to_text(), "tool v0.0.0\n");
}

#[test]
fn decimal_digits() {
    assert_eq!(decimal(0), "0");
    assert_eq!(decimal(7), "7");
    assert_eq!(decimal(10), "10");
    assert_eq!(decimal(18446744073709551615), "18446744073709551615");
}

#[test]
fn count_help_lines() {
    assert_eq!(text_of(&ArgCountValidator::range(2, 5).help().unwrap()), "Arg Count: 2 <= n <= 5");
    assert_eq!(text_of(&ArgCountValidator::equal_to(3).help().unwrap()), "Arg Count: =3");
    assert_eq!(text_of(&ArgCountValidator::one().help().unwrap()), "Required");
    assert_eq!(text_of(&ArgCountValidator::at_most(1).help().unwrap()), "Optional");
    assert_eq!(text_of(&ArgCountValidator::at_least(1).help().unwrap()), "Arg Count: >= 18446744073709551615");
}

#[test]
fn other_help_lines() {
    assert_eq!(text_of(&ArgEmptyValidator::allow().help().unwrap()), "Flag");
    assert!(ArgEmptyValidator::require_value().help().is_none());
    assert_eq!(text_of(&DefaultArg::new("x").help().unwrap()), "Default: x");
    assert!(ArgOptionValidator::new().help().is_none());
    let opts = ArgOptionValidator::new().option("a", Some("first")).option("b", None);
    match opts.help().unwrap() {
        DomNode::VStack(l) => {
            assert_eq!(l.len(), 2);
            assert_eq!(text_of(&l.iter()[0]), "- a: first");
            assert_eq!(text_of(&l.iter()[1]), "- b: <no-help>");
        },
        _ => panic!("expected a stack"),
    }
}

#[test]
fn arg_help_stacks_text_and_validators() {
    let a = Arg::new().help("the name").required();
    match ArgValidator::help(&a).unwrap() {
        DomNode::VStack(l) => {
            assert_eq!(l.len(), 2);
            assert_eq!(text_of(&l.iter()[0]), "the name");
            assert_eq!(text_of(&l.iter()[1]), "Required");
        },
        _ => panic!("expected a stack"),
    }
}

fn texts(nodes: &TerminalNodes) -> Vec<String> {
    nodes
        .iter()
        .filter_map(|n| match n {
            TerminalNode::Text(t) => Some(t.clone()),
            _ => None,
        })
        .collect()
}

#[test]
fn listing_help() {
    let mut a = BuiltArg::new();
    BuiltArg::help(&mut a, "output file").required();
    let mut nodes = TerminalNodes::new(2);
    ListingValidator::help(&a, &mut nodes);
    assert_eq!(texts(&nodes), vec!["output file", "AllowEmpty: False", "Required"]);
    let mut o = ArgOptions::new();
    o.add_option_help("x", "an x").add_option("y");
    let mut nodes = TerminalNodes::new(0);
    ListingValidator::help(&o, &mut nodes);
    assert_eq!(texts(&nodes), vec!["Options: ", "- x: an x", "- y: <no-help>"]);
    let mut c = BuiltArg::new();
    c.n_at_least(2);
    let mut nodes = TerminalNodes::new(0);
    ListingValidator::help(&c, &mut nodes);
    assert_eq!(texts(&nodes), vec!["Arg Count: n >= 2"]);
}

#[test]
fn style_and_layout() {
    let s = DomStyle::new().indent(2).effect(TextEffect::Bold).effects(&[TextEffect::Bold, TextEffect::Dim]).fg(RgbColor::bright_green());
    assert_eq!(s.indentation, 2);
    assert_eq!(s.effects, Some(vec![TextEffect::Bold, TextEffect::Dim]));
    assert_eq!(s.fg, Some(RgbColor::new(0, 255, 0)));
    let l = Layout::new().style(s).append_child(DomNode::from(Paragraph::new("a"))).append_children(vec![
        DomNode::from(Paragraph::new("b").no_newline()),
        DomNode::from(Layout::new()),
    ]);
    assert_eq!(l.len(), 3);
    assert!(!l.is_empty());
    assert_eq!(RgbColor::from((1, 2, 3)), RgbColor::new(1, 2, 3));
    assert_eq!(RgbColor::default(), RgbColor::black());
    assert_eq!(RgbColor::bright_blue(), RgbColor::new(92, 92, 255));
}
