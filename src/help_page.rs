use vstd::prelude::*;
use vstd::string::*;

use crate::app_identity::AppIdentity;
use crate::arg::{
    Arg, ArgOptionValidator, ArgValidator, OptionsView, Validator, ValidatorView, has_kind, is_text, opt_string_view,
    options_view, register, register_option, same_kind,
};
use crate::arg_key::ArgKey;
use crate::arg_parser::{ArgParser, has_param, lemma_register_keeps_keys};
use crate::decimal::decimal;
use crate::parse_error::ParseError;
use crate::parsed_arg::{ParsedArg, count_in, last_params};
use crate::tui::{DomNode, DomStyle, Layout, Paragraph, RgbColor};

verus! {

fn text_node(s: &str) -> (r: DomNode)
    ensures
        is_text(r, s@),
{
    DomNode::Text(Paragraph::new(s))
}

fn page_style() -> (r: DomStyle)
    ensures
        r.fg == Some(RgbColor::bright_green_spec()),
        r.bg.is_none(),
        r.indentation == 0,
        r.effects.is_none(),
{
    DomStyle::new().fg(RgbColor::bright_green())
}

/// The number of lines of a program's banner.
pub open spec fn banner_len(id: AppIdentity) -> int {
    1 + (if id.description@.len() > 0 {
        1int
    } else {
        0int
    }) + (if id.author.is_some() {
        1int
    } else {
        0int
    }) + (if id.license.is_some() {
        1int
    } else {
        0int
    })
}

/// The help page of a program: its banner (name and version, then the
/// description, author and licence that are given), an empty line, then for
/// each tier a section listing its keyed arguments with their help, each
/// section followed by an empty line.
pub fn help_page(identity: &AppIdentity, parser: &ArgParser) -> (r: DomNode)
    ensures
        r matches DomNode::VStack(l) && {
            &&& l.children@.len() == banner_len(*identity) + 1 + 2 * parser.spec_tiers().len()
            &&& is_text(l.children@[0], identity.name@ + " v"@ + identity.version.to_text_spec())
            &&& is_text(l.children@[banner_len(*identity)], Seq::empty())
        },
{
    let mut layout = Layout::new().style(page_style());
    let first = identity.name.clone().concat(" v").concat(identity.version.to_text().as_str());
    layout = layout.append_child(text_node(first.as_str()));
    if identity.description.as_str().unicode_len() > 0 {
        layout = layout.append_child(text_node(identity.description.as_str()));
    }
    match &identity.author {
        Some(a) => {
            let t = String::from_str("Written by : ").concat(a.as_str());
            layout = layout.append_child(text_node(t.as_str()));
        },
        None => {},
    }
    match &identity.license {
        Some(l) => {
            layout = layout.append_child(text_node(l.as_str()));
        },
        None => {},
    }
    proof {
        assert(layout.children@.len() == banner_len(*identity));
        assert(is_text(layout.children@[0], identity.name@ + " v"@ + identity.version.to_text_spec()));
    }
    let ghost first_child = layout.children@[0];
    layout = layout.append_child(text_node(""));
    let ghost blank = layout.children@[banner_len(*identity)];
    proof {
        reveal_strlit("");
        assert(""@ =~= Seq::<char>::empty());
    }
    let tiers = parser.iter();
    let n = tiers.len();
    let mut idx: usize = 0;
    while idx < n
        invariant
            n == parser.spec_tiers().len(),
            n == tiers@.len(),
            0 <= idx <= n,
            layout.children@.len() == banner_len(*identity) + 1 + 2 * idx,
            layout.children@[0] == first_child,
            layout.children@[banner_len(*identity)] == blank,
            is_text(first_child, identity.name@ + " v"@ + identity.version.to_text_spec()),
            is_text(blank, Seq::empty()),
        decreases n - idx,
    {
        let tier = &tiers[idx];
        let mut section = Layout::new().style(page_style());
        let title = String::from_str("arg").concat(decimal(idx as u64).as_str()).concat(":");
        section = section.append_child(text_node(title.as_str()));
        if tier.is_empty() {
            section = section.append_child(text_node("  <no keyword arguments defined>"));
        } else {
            section = section.append_child(text_node("  Keyword Arguments:"));
            let params = tier.params_iter();
            let m = params.len();
            let mut j: usize = 0;
            while j < m
                invariant
                    m == params@.len(),
                    0 <= j <= m,
                decreases m - j,
            {
                let mut entry = Layout::new().style(page_style().indent(2));
                entry = entry.append_child(text_node(params[j].0.value.as_str()));
                match ArgValidator::help(&params[j].1) {
                    Some(node) => {
                        entry = entry.append_child(node);
                    },
                    None => {
                        entry = entry.append_child(text_node("<no-help>"));
                    },
                }
                section = section.append_child(DomNode::VStack(entry));
                j = j + 1;
            }
        }
        layout = layout.append_child(DomNode::VStack(section));
        layout = layout.append_child(text_node(""));
        idx = idx + 1;
    }
    DomNode::VStack(layout)
}

/// What to do once a parse has run.
#[derive(Debug)]
pub enum ParseStep {
    /// Go on with the parsed arguments.
    Proceed,
    /// Show the help page and stop.
    ShowHelp,
    /// Report the error, as the given line, and stop.
    Fail(String),
}

/// Whether `-h` or `--help` was given in the last tier.
pub open spec fn help_requested(a: crate::parsed_arg::TiersView) -> bool {
    count_in(last_params(a), "-h"@) + count_in(last_params(a), "--help"@) > 0
}

/// Decides what follows a parse: the help page when `auto_help` is set and
/// help was asked for, else the error if the parse failed, else going on.
pub fn after_parse(res: &Result<(), ParseError>, parsed: &ParsedArg, auto_help: bool) -> (r: ParseStep)
    ensures
        auto_help && help_requested(parsed@) ==> r is ShowHelp,
        !(auto_help && help_requested(parsed@)) ==> match res {
            Ok(_) => r is Proceed,
            Err(e) => r matches ParseStep::Fail(line) && line@ == e.to_text_spec(),
        },
{
    if auto_help {
        let short = ArgKey { value: String::from_str("-h") };
        let long = ArgKey { value: String::from_str("--help") };
        let c1 = parsed.count(&short);
        let c2 = parsed.count(&long);
        if c1 > 0 || c2 > 0 {
            return ParseStep::ShowHelp;
        }
    }
    match res {
        Ok(_) => ParseStep::Proceed,
        Err(e) => ParseStep::Fail(e.to_text()),
    }
}

/// Registers `-h` and `--help` as flags, at most once each, in the last tier.
pub fn add_help_arguments(parser: &mut ArgParser)
    ensures
        final(parser).spec_tiers().len() == old(parser).spec_tiers().len(),
        old(parser).spec_tiers().len() > 0 ==> {
            &&& final(parser).spec_tiers().drop_last() == old(parser).spec_tiers().drop_last()
            &&& has_param(final(parser).spec_tiers().last().1, "-h"@)
            &&& has_param(final(parser).spec_tiers().last().1, "--help"@)
        },
{
    let h1 = crate::arg::Arg::new().help("Show the help message for the application").as_flag();
    let h2 = crate::arg::Arg::new().help("Show the help message for the application").as_flag();
    proof {
        reveal_strlit("-h");
        reveal_strlit("--help");
    }
    let ghost t0 = parser.spec_tiers();
    parser.add_argument("-h", h1);
    let ghost t1 = parser.spec_tiers();
    parser.add_argument("--help", h2);
    proof {
        if t0.len() > 0 {
            lemma_register_keeps_keys(t0.last().1, "-h"@, h1, "-h"@);
            lemma_register_keeps_keys(t1.last().1, "--help"@, h2, "-h"@);
            assert(t1.drop_last() =~= t0.drop_last());
            assert(parser.spec_tiers().drop_last() =~= t1.drop_last());
        }
    }
}

/// The allowed values of an action argument: each action's name, with its
/// help, registered in order.
pub open spec fn actions_options(actions: Seq<(Seq<char>, Seq<char>)>) -> OptionsView
    decreases actions.len(),
{
    if actions.len() == 0 {
        Seq::empty()
    } else {
        register_option(actions_options(actions.drop_last()), actions.last().0, Some(actions.last().1))
    }
}

/// The positional argument that picks one of `actions` (name and help):
/// the given help text, then exactly one value, which must be one of the
/// names.
pub fn action_argument(help: Option<&str>, actions: &Vec<(String, String)>) -> (r: Arg)
    ensures
        opt_string_view(r.help_text) == crate::arg::opt_view(help),
        r.spec_validators() == seq![
            ValidatorView::Options(actions_options(Seq::new(actions@.len(), |i: int| (actions@[i].0@, actions@[i].1@)))),
            ValidatorView::Empty(false),
            ValidatorView::Count(1, 1),
        ],
{
    let ghost list = Seq::new(actions@.len(), |i: int| (actions@[i].0@, actions@[i].1@));
    let mut options = ArgOptionValidator::new();
    let n = actions.len();
    let mut i: usize = 0;
    proof {
        assert(list.subrange(0, 0) =~= Seq::<(Seq<char>, Seq<char>)>::empty());
        assert(options_view(options.options@) =~= actions_options(list.subrange(0, 0)));
    }
    while i < n
        invariant
            n == actions@.len(),
            list == Seq::new(actions@.len(), |i: int| (actions@[i].0@, actions@[i].1@)),
            0 <= i <= n,
            options_view(options.options@) == actions_options(list.subrange(0, i as int)),
            options.wf(),
        decreases n - i,
    {
        proof {
            assert(list.subrange(0, i + 1).drop_last() =~= list.subrange(0, i as int));
        }
        options = options.option(actions[i].0.as_str(), Some(actions[i].1.as_str()));
        i = i + 1;
    }
    proof {
        assert(list.subrange(0, n as int) =~= list);
    }
    let base = match help {
        Some(h) => Arg::new().help(h),
        None => Arg::new(),
    };
    let ghost ov = options_view(options.options@);
    let r = base.validate(Validator::Options(options)).required();
    proof {
        let v0 = base.spec_validators();
        assert(v0 =~= Seq::<ValidatorView>::empty());
        let v1 = register(v0, ValidatorView::Options(ov));
        assert(!has_kind(v0, ValidatorView::Options(ov)));
        assert(v1 =~= seq![ValidatorView::Options(ov)]);
        let v2 = register(v1, ValidatorView::Empty(false));
        assert(!has_kind(v1, ValidatorView::Empty(false))) by {
            assert(!same_kind(v1[0], ValidatorView::Empty(false)));
        }
        assert(v2 =~= seq![ValidatorView::Options(ov), ValidatorView::Empty(false)]);
        let v3 = register(v2, ValidatorView::Count(1, 1));
        assert(!has_kind(v2, ValidatorView::Count(1, 1))) by {
            assert(!same_kind(v2[0], ValidatorView::Count(1, 1)));
            assert(!same_kind(v2[1], ValidatorView::Count(1, 1)));
        }
        assert(v3 =~= seq![ValidatorView::Options(ov), ValidatorView::Empty(false), ValidatorView::Count(1, 1)]);
    }
    r
}

} // verus!
