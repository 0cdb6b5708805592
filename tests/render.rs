use clrust::app_identity::AppIdentity;
use clrust::app_version::AppVersion;
use clrust::arg::Arg;
use clrust::arg_key::ArgKey;
use clrust::arg_parser::ArgParser;
use clrust::help_page::{action_argument, add_help_arguments, after_parse, help_page, ParseStep};
use clrust::parse_error::ParseError;
use clrust::parsed_arg::ParsedArg;
use clrust::raw_args::RawArgs;
use clrust::tui::{recursive_render_text, render_dom, DomNode, DomStyle, Layout, Paragraph, RgbColor, TextEffect};
use clrust::{Color, TerminalNode, TerminalNodes, TextEffect as Effect, TextFormat};

#[test]
fn terminal_text() {
    let mut fmt = TextFormat::new();
    fmt.fg(Color::Red).bg(Color::Indexed(8)).effect(Effect::Bold);
    let mut nodes = TerminalNodes::new(2);
    nodes.append_node(TerminalNode::from("a")).new_line().begin_format(fmt).append_node(TerminalNode::from("b")).end_format();
    assert_eq!(nodes.to_text(), "  a\n  \x1b[38;5;8m\x1b[31m\x1b[1mb\x1b[0m");
    assert_eq!(Color::Rgb(1, 2, 3).to_text(), "\x1b[38;2;1;2;3m");
    assert_eq!(Effect::DoubleUnderline.to_text(), "\x1b[21m");
}

#[test]
fn tree_text() {
    assert_eq!(render_dom(&DomNode::from(Paragraph::new("hi"))), "hi\n");
    assert_eq!(recursive_render_text(&Paragraph::new("x").no_newline(), 3), "   x");
    let inner = Layout::new().style(DomStyle::new().indent(2)).append_child(DomNode::from(Paragraph::new("b")));
    let outer = Layout::new().append_child(DomNode::from(Paragraph::new("a"))).append_child(DomNode::from(inner));
    assert_eq!(render_dom(&DomNode::from(outer)), "a\n  b\n");
    let styled = Layout::new()
        .style(DomStyle::new().fg(RgbColor::bright_green()).effect(TextEffect::Bold))
        .append_child(DomNode::from(Paragraph::new("c")));
    assert_eq!(render_dom(&DomNode::from(styled)), "\x1b[0m\x1b[1;92mc\n\x1b[0m");
}

#[test]
fn help_page_lists_tiers() {
    let id = AppIdentity::new("tool", "", AppVersion::new(1, 0, 0));
    let mut parser = ArgParser::new();
    parser.add_argument("--name", Arg::new().help("who").required());
    match help_page(&id, &parser) {
        DomNode::VStack(l) => {
            assert_eq!(l.len(), 4);
            match &l.iter()[0] {
                DomNode::Text(p) => assert_eq!(p.text, "tool v1.0.0"),
                _ => panic!("expected the banner"),
            }
        },
        _ => panic!("expected a stack"),
    }
    let text = render_dom(&help_page(&id, &parser));
    assert!(text.contains("arg0:"));
    assert!(text.contains("--name"));
    assert!(text.contains("who"));
}

#[test]
fn after_parse_decides() {
    let mut parser = ArgParser::new();
    add_help_arguments(&mut parser);
    let mut parsed = ParsedArg::new();
    let res = parser.incremental_parse(&mut parsed, &mut RawArgs::new(vec!["prog".to_string(), "--help".to_string()]));
    assert!(res.is_ok());
    assert!(matches!(after_parse(&res, &parsed, true), ParseStep::ShowHelp));
    assert!(matches!(after_parse(&res, &parsed, false), ParseStep::Proceed));
    let failed: Result<(), ParseError> = Err(ParseError::invalid_value("x").key("arg1".to_string()));
    match after_parse(&failed, &ParsedArg::new(), true) {
        ParseStep::Fail(line) => assert_eq!(line, "InvalidValue: arg1 - x"),
        _ => panic!("expected a failure"),
    }
    assert_eq!(ParseError::no_value_given("").to_text(), "NoValueGiven: ");
    assert!(parsed.contains(&ArgKey::make("--help").unwrap()));
}

#[test]
fn action_argument_accepts_listed_names() {
    let arg = action_argument(Some("what to do"), &vec![("build".to_string(), "b".to_string()), ("test".to_string(), "t".to_string())]);
    assert_eq!(arg.len(), 3);
    let mut parser = ArgParser::new();
    parser.add_positional_argument(arg);
    assert!(parser.parse(&mut RawArgs::new(vec!["prog".to_string(), "test".to_string()])).is_ok());
    let e = parser.parse(&mut RawArgs::new(vec!["prog".to_string(), "deploy".to_string()])).unwrap_err();
    assert_eq!(e.key, Some("arg1".to_string()));
}

#[test]
fn schema_listing() {
    let mut parser = ArgParser::new();
    parser.add_argument("-v", Arg::new().as_flag());
    parser.add_positional_argument(Arg::new());
    parser.add_argument("--out", Arg::new());
    assert_eq!(parser.to_text(), "arg0\n-v\narg1\n--out\n");
}

#[test]
fn located_error_line() {
    let e = clrust::error::ArgParseError::new("--out".to_string(), clrust::error::ParseError::ValueRequired);
    assert_eq!(e.to_text(), "--out: ValueRequired");
    assert_eq!(clrust::error::ParseError::NotEnd.name(), "NotEnd");
}
