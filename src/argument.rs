use vstd::prelude::*;
use vstd::string::*;

use crate::arg::{self as base, opt_string_view, key_view, options_view, has_option, register_option, register, str_eq, OptionsView, ValidatorView, Validator, ArgOptionValidator, ArgCountValidator, ArgEmptyValidator, view_wf, options_unique};
use crate::arg::ArgValidator as BaseValidator;
use crate::arg_key::ArgKey;
use crate::error::{ParseError, error_of, error_from_kind};
use crate::parse_error;
use crate::parsed_arg::{ParsedArg, TiersView};
use crate::arg::option_line;
use crate::decimal::{decimal, dec_of};
use crate::terminal::{
    NodeView, TerminalNode, TerminalNodes, after_append, after_append_all, lemma_append_all_concat,
    lemma_append_all_push,
};

verus! {

pub open spec fn string_opt_view(v: Option<&String>) -> Option<Seq<char>> {
    match v {
        Some(s) => Some(s@),
        None => None,
    }
}

/// The error a check reports, if any.
pub open spec fn error_kind(r: Result<(), ParseError>) -> Option<ParseError> {
    match r {
        Ok(_) => None,
        Err(e) => Some(e),
    }
}

/// A constraint on an argument, reporting [`ParseError`]s.
pub trait ArgValidator {
    /// The error `validate` reports for the value `v`, if any.
    spec fn check_spec(&self, v: Option<Seq<char>>) -> Option<ParseError>;

    /// The records after `post_validate` for key `k`, and its error, if any.
    spec fn tier_end_spec(&self, k: Option<Seq<char>>, a: TiersView) -> (TiersView, Option<ParseError>);

    spec fn validator_id_spec(&self) -> Option<Seq<char>>;

    /// The nodes `help` appends.
    spec fn help_items(&self) -> Seq<NodeView>;

    /// Appends this constraint's help to `nodes`.
    fn help(&self, nodes: &mut TerminalNodes)
        ensures
            final(nodes)@ == after_append_all(old(nodes)@, old(nodes).spec_indent(), self.help_items()),
            final(nodes).spec_indent() == old(nodes).spec_indent(),
    ;

    fn validator_id(&self) -> (r: Option<String>)
        ensures
            opt_string_view(r) == self.validator_id_spec(),
    ;

    fn validate(&self, v: Option<&String>) -> (r: Result<(), ParseError>)
        ensures
            error_kind(r) == self.check_spec(string_opt_view(v)),
    ;

    fn post_validate(&self, k: Option<&ArgKey>, args: &mut ParsedArg) -> (r: Result<(), ParseError>)
        ensures
            (final(args)@, error_kind(r)) == self.tier_end_spec(key_view(k), old(args)@),
    ;
}

/// The help lines of the allowed values `o`, each followed by a line break.
pub open spec fn options_items(o: OptionsView) -> Seq<NodeView>
    decreases o.len(),
{
    if o.len() == 0 {
        Seq::empty()
    } else {
        options_items(o.drop_last()) + seq![NodeView::Text(option_line(o.last())), NodeView::NewLine]
    }
}

/// The help a validator appends.
pub open spec fn listing_items(v: ValidatorView) -> Seq<NodeView> {
    match v {
        ValidatorView::Options(o) => seq![NodeView::Text("Options: "@), NodeView::NewLine] + options_items(o),
        ValidatorView::Count(lo, hi) => if lo == hi && lo != 1 {
            seq![NodeView::Text("Arg Count: ="@ + dec_of(lo as nat)), NodeView::NewLine]
        } else if lo == 0 && hi == 1 {
            seq![NodeView::Text("Optional"@)]
        } else if lo == 1 && hi == 1 {
            seq![NodeView::Text("Required"@)]
        } else if lo != 1 && hi == usize::MAX as u64 {
            seq![NodeView::Text("Arg Count: n >= "@ + dec_of(lo as nat))]
        } else {
            seq![NodeView::Text("Arg Count: "@ + dec_of(lo as nat) + " <= n <= "@ + dec_of(hi as nat)), NodeView::NewLine]
        },
        ValidatorView::Empty(allow) => if allow {
            seq![NodeView::Text("AllowEmpty: True"@)]
        } else {
            seq![NodeView::Text("AllowEmpty: False"@)]
        },
        ValidatorView::Default(d) => seq![NodeView::Text("Default: "@ + d)],
    }
}

/// The help text of an argument, followed by a line break, if it has one.
pub open spec fn help_head(h: Option<String>) -> Seq<NodeView> {
    match h {
        Some(h) => seq![NodeView::Text(h@), NodeView::NewLine],
        None => Seq::empty(),
    }
}

/// The help of the validators `vs`, each followed by a line break.
pub open spec fn validators_items(vs: Seq<ValidatorView>) -> Seq<NodeView>
    decreases vs.len(),
{
    if vs.len() == 0 {
        Seq::empty()
    } else {
        validators_items(vs.drop_last()) + listing_items(vs.last()) + seq![NodeView::NewLine]
    }
}

fn append_text(nodes: &mut TerminalNodes, s: &str)
    ensures
        final(nodes)@ == after_append(old(nodes)@, old(nodes).spec_indent(), NodeView::Text(s@)),
        final(nodes).spec_indent() == old(nodes).spec_indent(),
{
    nodes.append_node(TerminalNode::text(s));
}

fn append_options(o: &Vec<(String, Option<String>)>, nodes: &mut TerminalNodes)
    ensures
        final(nodes)@ == after_append_all(old(nodes)@, old(nodes).spec_indent(), options_items(options_view(o@))),
        final(nodes).spec_indent() == old(nodes).spec_indent(),
{
    let ghost ov = options_view(o@);
    let ghost ns = nodes@;
    let ghost id = nodes.spec_indent();
    let n = o.len();
    let mut i: usize = 0;
    proof {
        assert(ov.subrange(0, 0) =~= Seq::<(Seq<char>, Option<Seq<char>>)>::empty());
    }
    while i < n
        invariant
            n == o@.len(),
            ov == options_view(o@),
            0 <= i <= n,
            id == nodes.spec_indent(),
            ns == old(nodes)@,
            id == old(nodes).spec_indent(),
            nodes@ == after_append_all(ns, id, options_items(ov.subrange(0, i as int))),
        decreases n - i,
    {
        let line = match &o[i].1 {
            Some(h) => String::from_str("- ").concat(o[i].0.as_str()).concat(": ").concat(h.as_str()),
            None => String::from_str("- ").concat(o[i].0.as_str()).concat(": ").concat("<no-help>"),
        };
        proof {
            assert(line@ == option_line(ov[i as int]));
            assert(ov.subrange(0, i + 1).drop_last() =~= ov.subrange(0, i as int));
            let xs = options_items(ov.subrange(0, i as int));
            lemma_append_all_push(ns, id, xs, NodeView::Text(line@));
            lemma_append_all_push(ns, id, xs.push(NodeView::Text(line@)), NodeView::NewLine);
            assert(options_items(ov.subrange(0, i + 1)) =~= xs.push(NodeView::Text(line@)).push(NodeView::NewLine));
        }
        append_text(nodes, line.as_str());
        nodes.new_line();
        i = i + 1;
    }
    proof {
        assert(ov.subrange(0, n as int) =~= ov);
    }
}

/// Appends the help of the validator `v`.
fn append_listing(v: &Validator, nodes: &mut TerminalNodes)
    ensures
        final(nodes)@ == after_append_all(old(nodes)@, old(nodes).spec_indent(), listing_items(v@)),
        final(nodes).spec_indent() == old(nodes).spec_indent(),
{
    let ghost ns = nodes@;
    let ghost id = nodes.spec_indent();
    match v {
        Validator::Options(o) => {
            append_text(nodes, "Options: ");
            nodes.new_line();
            proof {
                let h = seq![NodeView::Text("Options: "@), NodeView::NewLine];
                lemma_append_all_push(ns, id, seq![NodeView::Text("Options: "@)], NodeView::NewLine);
                lemma_append_all_push(ns, id, Seq::empty(), NodeView::Text("Options: "@));
                assert(seq![NodeView::Text("Options: "@)].push(NodeView::NewLine) =~= h);
                assert(Seq::<NodeView>::empty().push(NodeView::Text("Options: "@)) =~= seq![NodeView::Text("Options: "@)]);
                lemma_append_all_concat(ns, id, h, options_items(options_view(o.options@)));
            }
            append_options(&o.options, nodes);
        },
        Validator::Count(c) => {
            let lo = c.min_size;
            let hi = c.max_size;
            if lo == hi && lo != 1 {
                let t = String::from_str("Arg Count: =").concat(decimal(lo).as_str());
                append_text(nodes, t.as_str());
                nodes.new_line();
                proof {
                    lemma_append_all_push(ns, id, Seq::empty(), NodeView::Text(t@));
                    lemma_append_all_push(ns, id, seq![NodeView::Text(t@)], NodeView::NewLine);
                    assert(Seq::<NodeView>::empty().push(NodeView::Text(t@)) =~= seq![NodeView::Text(t@)]);
                    assert(seq![NodeView::Text(t@)].push(NodeView::NewLine) =~= listing_items(v@));
                }
            } else if lo == 0 && hi == 1 {
                append_text(nodes, "Optional");
                proof {
                    lemma_append_all_push(ns, id, Seq::empty(), NodeView::Text("Optional"@));
                    assert(Seq::<NodeView>::empty().push(NodeView::Text("Optional"@)) =~= listing_items(v@));
                }
            } else if lo == 1 && hi == 1 {
                append_text(nodes, "Required");
                proof {
                    lemma_append_all_push(ns, id, Seq::empty(), NodeView::Text("Required"@));
                    assert(Seq::<NodeView>::empty().push(NodeView::Text("Required"@)) =~= listing_items(v@));
                }
            } else if lo != 1 && hi == usize::MAX as u64 {
                let t = String::from_str("Arg Count: n >= ").concat(decimal(lo).as_str());
                append_text(nodes, t.as_str());
                proof {
                    lemma_append_all_push(ns, id, Seq::empty(), NodeView::Text(t@));
                    assert(Seq::<NodeView>::empty().push(NodeView::Text(t@)) =~= listing_items(v@));
                }
            } else {
                let t = String::from_str("Arg Count: ").concat(decimal(lo).as_str()).concat(" <= n <= ").concat(
                    decimal(hi).as_str(),
                );
                append_text(nodes, t.as_str());
                nodes.new_line();
                proof {
                    lemma_append_all_push(ns, id, Seq::empty(), NodeView::Text(t@));
                    lemma_append_all_push(ns, id, seq![NodeView::Text(t@)], NodeView::NewLine);
                    assert(Seq::<NodeView>::empty().push(NodeView::Text(t@)) =~= seq![NodeView::Text(t@)]);
                    assert(seq![NodeView::Text(t@)].push(NodeView::NewLine) =~= listing_items(v@));
                }
            }
        },
        Validator::Empty(e) => {
            let t = if e.allow_empty {
                "AllowEmpty: True"
            } else {
                "AllowEmpty: False"
            };
            append_text(nodes, t);
            proof {
                lemma_append_all_push(ns, id, Seq::empty(), NodeView::Text(t@));
                assert(Seq::<NodeView>::empty().push(NodeView::Text(t@)) =~= listing_items(v@));
            }
        },
        Validator::Default(d) => {
            let t = String::from_str("Default: ").concat(d.value.as_str());
            append_text(nodes, t.as_str());
            proof {
                lemma_append_all_push(ns, id, Seq::empty(), NodeView::Text(t@));
                assert(Seq::<NodeView>::empty().push(NodeView::Text(t@)) =~= listing_items(v@));
            }
        },
    }
}

/// An allowed value with its optional help text.
#[derive(Debug)]
pub struct ArgOption {
    pub value: String,
    pub help_text: Option<String>,
}

pub open spec fn arg_options_view(o: Seq<ArgOption>) -> OptionsView {
    Seq::new(o.len(), |i: int| (o[i].value@, opt_string_view(o[i].help_text)))
}

/// An enumerated set of allowed values; each value occurs at most once.
#[derive(Debug)]
pub struct ArgOptions {
    options: Vec<ArgOption>,
}

impl Default for ArgOptions {
    fn default() -> (r: Self)
        ensures
            r@.len() == 0,
            r.wf(),
    {
        ArgOptions { options: Vec::new() }
    }
}

impl View for ArgOptions {
    type V = OptionsView;

    closed spec fn view(&self) -> OptionsView {
        arg_options_view(self.options@)
    }
}

/// `o` with `v` allowed; an existing entry is kept as it is.
pub open spec fn add_value(o: OptionsView, v: Seq<char>) -> OptionsView {
    if has_option(o, v) {
        o
    } else {
        o.push((v, None))
    }
}

impl ArgOptions {
    /// Whether each value is listed once.
    pub open spec fn wf(&self) -> bool {
        options_unique(self@)
    }

    pub fn new() -> (r: Self)
        ensures
            r.wf(),
            r@.len() == 0,
    {
        ArgOptions { options: Vec::new() }
    }

    fn position(&self, v: &str) -> (r: usize)
        ensures
            r <= self@.len(),
            r < self@.len() ==> self@[r as int].0 == v@
                && forall|j: int| 0 <= j < r ==> self@[j].0 != v@,
            r == self@.len() ==> !has_option(self@, v@),
    {
        let n = self.options.len();
        let mut i: usize = 0;
        while i < n
            invariant
                n == self@.len(),
                0 <= i <= n,
                forall|j: int| 0 <= j < i ==> self@[j].0 != v@,
            decreases n - i,
        {
            if str_eq(self.options[i].value.as_str(), v) {
                return i;
            }
            i = i + 1;
        }
        n
    }

    /// Allows the value `v`, keeping the help of an existing entry.
    pub fn add_option(&mut self, v: &str) -> (r: &mut Self)
        requires
            old(self).wf(),
        ensures
            r.wf(),
            r@ == add_value(old(self)@, v@),
            *final(self) == *final(r),
    {
        let i = self.position(v);
        proof {
            crate::arg::lemma_register_option_unique(self@, v@, None);
        }
        if i == self.options.len() {
            self.options.push(ArgOption { value: String::from_str(v), help_text: None });
            proof {
                assert(self@ =~= add_value(old(self)@, v@));
            }
        }
        self
    }

    /// Allows the value `v` with help text `help`, replacing the help of an
    /// existing entry.
    pub fn add_option_help(&mut self, v: &str, help: &str) -> (r: &mut Self)
        requires
            old(self).wf(),
        ensures
            r.wf(),
            r@ == register_option(old(self)@, v@, Some(help@)),
            *final(self) == *final(r),
    {
        let i = self.position(v);
        let ghost o = self@;
        proof {
            crate::arg::lemma_register_option_unique(o, v@, Some(help@));
        }
        if i == self.options.len() {
            self.options.push(ArgOption { value: String::from_str(v), help_text: Some(String::from_str(help)) });
            proof {
                assert(self@ =~= register_option(o, v@, Some(help@)));
            }
        } else {
            proof {
                crate::arg::lemma_first_option(o, v@, i as int);
            }
            let value = self.options[i].value.clone();
            self.options.set(i, ArgOption { value, help_text: Some(String::from_str(help)) });
            proof {
                assert(self@ =~= register_option(o, v@, Some(help@)));
            }
        }
        self
    }

    /// The allowed values, in registration order.
    pub fn iter(&self) -> (r: &[ArgOption])
        ensures
            arg_options_view(r@) == self@,
    {
        self.options.as_slice()
    }

    pub fn len(&self) -> (r: usize)
        ensures
            r == self@.len(),
    {
        self.options.len()
    }

    /// Moves the options out, leaving an empty set.
    pub fn take(&mut self) -> (r: Self)
        ensures
            r@ == old(self)@,
            final(self)@.len() == 0,
            final(self).wf(),
    {
        let mut empty: Vec<ArgOption> = Vec::new();
        std::mem::swap(&mut self.options, &mut empty);
        ArgOptions { options: empty }
    }

    /// The same set, as a validator of an [`Arg`].
    pub fn to_validator(&self) -> (r: Validator)
        ensures
            r@ == ValidatorView::Options(self@),
    {
        let mut out: Vec<(String, Option<String>)> = Vec::new();
        let n = self.options.len();
        let mut i: usize = 0;
        while i < n
            invariant
                n == self.options@.len(),
                0 <= i <= n,
                out@.len() == i,
                forall|j: int| 0 <= j < i ==> (#[trigger] out@[j]).0@ == self.options@[j].value@
                    && opt_string_view(out@[j].1) == opt_string_view(self.options@[j].help_text),
            decreases n - i,
        {
            let h = match &self.options[i].help_text {
                Some(h) => Some(h.clone()),
                None => None,
            };
            proof {
                assert(opt_string_view(h) == opt_string_view(self.options@[i as int].help_text));
            }
            out.push((self.options[i].value.clone(), h));
            i = i + 1;
        }
        proof {
            assert(options_view(out@) =~= self@);
        }
        Validator::Options(ArgOptionValidator { options: out })
    }
}

impl ArgValidator for ArgOptions {
    open spec fn check_spec(&self, v: Option<Seq<char>>) -> Option<ParseError> {
        match v {
            None => Some(ParseError::ValueRequired),
            Some(s) => if has_option(self@, s) {
                None
            } else {
                Some(ParseError::InvalidValue)
            },
        }
    }

    open spec fn tier_end_spec(&self, k: Option<Seq<char>>, a: TiersView) -> (TiersView, Option<ParseError>) {
        (a, None)
    }

    open spec fn validator_id_spec(&self) -> Option<Seq<char>> {
        Some("ArgOption"@)
    }

    fn validator_id(&self) -> (r: Option<String>) {
        Some(String::from_str("ArgOption"))
    }

    open spec fn help_items(&self) -> Seq<NodeView> {
        listing_items(ValidatorView::Options(self@))
    }

    fn help(&self, nodes: &mut TerminalNodes) {
        let v = self.to_validator();
        append_listing(&v, nodes);
    }

    fn validate(&self, v: Option<&String>) -> (r: Result<(), ParseError>) {
        match v {
            None => Err(ParseError::ValueRequired),
            Some(s) => {
                let i = self.position(s.as_str());
                if i < self.options.len() {
                    Ok(())
                } else {
                    Err(ParseError::InvalidValue)
                }
            },
        }
    }

    fn post_validate(&self, k: Option<&ArgKey>, args: &mut ParsedArg) -> (r: Result<(), ParseError>) {
        Ok(())
    }
}

/// An inclusive range of allowed occurrence counts.
#[derive(Debug, Clone, Copy)]
pub struct CountValidator {
    pub max_size: usize,
    pub min_size: usize,
}

impl Default for CountValidator {
    /// Exactly one occurrence.
    fn default() -> (r: Self)
        ensures
            r.min_size == 1,
            r.max_size == 1,
    {
        CountValidator { max_size: 1, min_size: 1 }
    }
}

impl CountValidator {
    pub fn range(min_size: usize, max_size: usize) -> (r: Self)
        ensures
            r.min_size == min_size,
            r.max_size == max_size,
    {
        CountValidator { min_size, max_size }
    }

    pub fn at_least(min_size: usize) -> (r: Self)
        ensures
            r.min_size == min_size,
            r.max_size == usize::MAX,
    {
        CountValidator { min_size, max_size: usize::MAX }
    }

    pub fn at_most(max_size: usize) -> (r: Self)
        ensures
            r.min_size == 0,
            r.max_size == max_size,
    {
        CountValidator { min_size: 0, max_size }
    }

    pub fn equal_to(v: usize) -> (r: Self)
        ensures
            r.min_size == v,
            r.max_size == v,
    {
        CountValidator { min_size: v, max_size: v }
    }

    /// The same range, as a validator of an [`Arg`].
    pub fn to_validator(&self) -> (r: Validator)
        ensures
            r@ == ValidatorView::Count(self.min_size as u64, self.max_size as u64),
    {
        Validator::Count(ArgCountValidator::range(self.min_size as u64, self.max_size as u64))
    }
}

/// An argument's definition, built in place: its help text and validators,
/// at most one of each kind.
#[derive(Debug)]
pub struct Arg {
    pub inner: base::Arg,
}

impl Default for Arg {
    fn default() -> (r: Self)
        ensures
            r.inner.wf(),
            r.inner.help_text.is_none(),
            r.inner.spec_validators().len() == 0,
    {
        Arg { inner: base::Arg::new() }
    }
}

impl Arg {
    pub fn new() -> (r: Self)
        ensures
            r.inner.wf(),
            r.inner.help_text.is_none(),
            r.inner.spec_validators().len() == 0,
    {
        Arg { inner: base::Arg::new() }
    }

    /// A positional argument: exactly one occurrence.
    pub fn positional() -> (r: Self)
        ensures
            r.inner.wf(),
            r.inner.help_text.is_none(),
            r.inner.spec_validators() == seq![ValidatorView::Count(1, 1)],
    {
        let mut a = Self::new();
        a.n_equal_to(1);
        proof {
            assert(register(Seq::empty(), ValidatorView::Count(1, 1)) =~= seq![ValidatorView::Count(1, 1)]);
        }
        a
    }

    /// An option without constraints.
    pub fn flag() -> (r: Self)
        ensures
            r.inner.wf(),
            r.inner.help_text.is_none(),
            r.inner.spec_validators().len() == 0,
    {
        Self::new()
    }

    /// Registers `v`; a validator of the same kind is replaced in its slot.
    pub fn add_validator(&mut self, v: Validator) -> (r: &mut Self)
        requires
            old(self).inner.wf(),
            view_wf(v@),
        ensures
            r.inner.wf(),
            r.inner.spec_validators() == register(old(self).inner.spec_validators(), v@),
            r.inner.help_text == old(self).inner.help_text,
            *final(self) == *final(r),
    {
        let mut cur = base::Arg::new();
        std::mem::swap(&mut cur, &mut self.inner);
        self.inner = cur.validate(v);
        self
    }

    pub fn help(&mut self, h: &str) -> (r: &mut Self)
        requires
            old(self).inner.wf(),
        ensures
            r.inner.wf(),
            opt_string_view(r.inner.help_text) == Some(h@),
            r.inner.spec_validators() == old(self).inner.spec_validators(),
            *final(self) == *final(r),
    {
        self.inner.help_text = Some(String::from_str(h));
        self
    }

    /// Moves the definition out, leaving an argument without constraints.
    pub fn take(&mut self) -> (r: Self)
        ensures
            r == *old(self),
            final(self).inner.wf(),
            final(self).inner.help_text.is_none(),
            final(self).inner.spec_validators().len() == 0,
    {
        let mut out = Arg::new();
        std::mem::swap(&mut out, self);
        out
    }

    pub fn n_at_least(&mut self, min_size: usize) -> (r: &mut Self)
        requires
            old(self).inner.wf(),
        ensures
            r.inner.wf(),
            r.inner.spec_validators() == register(
                old(self).inner.spec_validators(),
                ValidatorView::Count(min_size as u64, usize::MAX as u64),
            ),
            r.inner.help_text == old(self).inner.help_text,
            *final(self) == *final(r),
    {
        self.add_validator(CountValidator::at_least(min_size).to_validator())
    }

    pub fn n_at_most(&mut self, max_size: usize) -> (r: &mut Self)
        requires
            old(self).inner.wf(),
        ensures
            r.inner.wf(),
            r.inner.spec_validators() == register(old(self).inner.spec_validators(), ValidatorView::Count(0, max_size as u64)),
            r.inner.help_text == old(self).inner.help_text,
            *final(self) == *final(r),
    {
        self.add_validator(CountValidator::at_most(max_size).to_validator())
    }

    pub fn n_equal_to(&mut self, v: usize) -> (r: &mut Self)
        requires
            old(self).inner.wf(),
        ensures
            r.inner.wf(),
            r.inner.spec_validators() == register(old(self).inner.spec_validators(), ValidatorView::Count(v as u64, v as u64)),
            r.inner.help_text == old(self).inner.help_text,
            *final(self) == *final(r),
    {
        self.add_validator(CountValidator::equal_to(v).to_validator())
    }

    pub fn n_range(&mut self, min_size: usize, max_size: usize) -> (r: &mut Self)
        requires
            old(self).inner.wf(),
        ensures
            r.inner.wf(),
            r.inner.spec_validators() == register(
                old(self).inner.spec_validators(),
                ValidatorView::Count(min_size as u64, max_size as u64),
            ),
            r.inner.help_text == old(self).inner.help_text,
            *final(self) == *final(r),
    {
        self.add_validator(CountValidator::range(min_size, max_size).to_validator())
    }

    /// The argument must be given with a value.
    pub fn not_empty(&mut self) -> (r: &mut Self)
        requires
            old(self).inner.wf(),
        ensures
            r.inner.wf(),
            r.inner.spec_validators() == register(old(self).inner.spec_validators(), ValidatorView::Empty(false)),
            r.inner.help_text == old(self).inner.help_text,
            *final(self) == *final(r),
    {
        self.add_validator(Validator::Empty(ArgEmptyValidator::require_value()))
    }

    /// Exactly one occurrence, with a value.
    pub fn required(&mut self) -> (r: &mut Self)
        requires
            old(self).inner.wf(),
        ensures
            r.inner.wf(),
            r.inner.spec_validators() == register(
                register(old(self).inner.spec_validators(), ValidatorView::Empty(false)),
                ValidatorView::Count(1, 1),
            ),
            r.inner.help_text == old(self).inner.help_text,
            *final(self) == *final(r),
    {
        self.not_empty().n_equal_to(1)
    }

    /// At most one occurrence.
    pub fn optional(&mut self) -> (r: &mut Self)
        requires
            old(self).inner.wf(),
        ensures
            r.inner.wf(),
            r.inner.spec_validators() == register(old(self).inner.spec_validators(), ValidatorView::Count(0, 1)),
            r.inner.help_text == old(self).inner.help_text,
            *final(self) == *final(r),
    {
        self.n_range(0, 1)
    }
}

impl base::ArgValidator for Arg {
    open spec fn validate_spec(&self, v: Option<Seq<char>>) -> Option<parse_error::ParseErrorKind> {
        self.inner.validate_spec(v)
    }

    open spec fn post_spec(&self, k: Option<Seq<char>>, a: TiersView) -> (TiersView, Option<parse_error::ParseErrorKind>) {
        self.inner.post_spec(k, a)
    }

    open spec fn id_spec(&self) -> Option<Seq<char>> {
        None
    }

    fn id(&self) -> (r: Option<String>) {
        None
    }

    open spec fn help_spec(&self, r: Option<crate::tui::DomNode>) -> bool {
        self.inner.help_spec(r)
    }

    fn help(&self) -> (r: Option<crate::tui::DomNode>) {
        base::ArgValidator::help(&self.inner)
    }

    fn validate(&self, v: Option<&str>) -> (r: Result<(), parse_error::ParseError>) {
        base::ArgValidator::validate(&self.inner, v)
    }

    fn post_validate(&self, k: Option<&ArgKey>, args: &mut ParsedArg) -> (r: Result<(), parse_error::ParseError>) {
        base::ArgValidator::post_validate(&self.inner, k, args)
    }
}

pub open spec fn map_error(e: Option<parse_error::ParseErrorKind>) -> Option<ParseError> {
    match e {
        Some(k) => Some(error_of(k)),
        None => None,
    }
}

impl ArgValidator for Arg {
    open spec fn check_spec(&self, v: Option<Seq<char>>) -> Option<ParseError> {
        map_error(self.inner.validate_spec(v))
    }

    open spec fn tier_end_spec(&self, k: Option<Seq<char>>, a: TiersView) -> (TiersView, Option<ParseError>) {
        (self.inner.post_spec(k, a).0, map_error(self.inner.post_spec(k, a).1))
    }

    open spec fn validator_id_spec(&self) -> Option<Seq<char>> {
        None
    }

    fn validator_id(&self) -> (r: Option<String>) {
        None
    }

    open spec fn help_items(&self) -> Seq<NodeView> {
        help_head(self.inner.help_text) + validators_items(self.inner.spec_validators())
    }

    fn help(&self, nodes: &mut TerminalNodes) {
        let ghost ns = nodes@;
        let ghost id = nodes.spec_indent();
        let ghost vs = self.inner.spec_validators();
        let ghost head: Seq<NodeView> = help_head(self.inner.help_text);
        match &self.inner.help_text {
            Some(h) => {
                append_text(nodes, h.as_str());
                nodes.new_line();
                proof {
                    lemma_append_all_push(ns, id, Seq::empty(), NodeView::Text(h@));
                    lemma_append_all_push(ns, id, seq![NodeView::Text(h@)], NodeView::NewLine);
                    assert(Seq::<NodeView>::empty().push(NodeView::Text(h@)) =~= seq![NodeView::Text(h@)]);
                    assert(seq![NodeView::Text(h@)].push(NodeView::NewLine) =~= head);
                }
            },
            None => {},
        }
        let n = self.inner.validators.len();
        let mut i: usize = 0;
        proof {
            assert(vs.subrange(0, 0) =~= Seq::<ValidatorView>::empty());
            assert(head + validators_items(vs.subrange(0, 0)) =~= head);
        }
        while i < n
            invariant
                n == vs.len(),
                vs == self.inner.spec_validators(),
                0 <= i <= n,
                ns == old(nodes)@,
                id == old(nodes).spec_indent(),
                id == nodes.spec_indent(),
                nodes@ == after_append_all(ns, id, head + validators_items(vs.subrange(0, i as int))),
            decreases n - i,
        {
            let ghost before = head + validators_items(vs.subrange(0, i as int));
            proof {
                assert(vs[i as int] == self.inner.validators@[i as int]@);
            }
            append_listing(&self.inner.validators[i], nodes);
            proof {
                lemma_append_all_concat(ns, id, before, listing_items(vs[i as int]));
            }
            nodes.new_line();
            proof {
                lemma_append_all_push(ns, id, before + listing_items(vs[i as int]), NodeView::NewLine);
                assert(vs.subrange(0, i + 1).drop_last() =~= vs.subrange(0, i as int));
                assert(head + validators_items(vs.subrange(0, i + 1)) =~= (before + listing_items(vs[i as int])).push(
                    NodeView::NewLine,
                ));
            }
            i = i + 1;
        }
        proof {
            assert(vs.subrange(0, n as int) =~= vs);
        }
    }

    fn validate(&self, v: Option<&String>) -> (r: Result<(), ParseError>) {
        let s = match v {
            Some(s) => Some(s.as_str()),
            None => None,
        };
        match base::ArgValidator::validate(&self.inner, s) {
            Ok(_) => Ok(()),
            Err(e) => Err(error_from_kind(e.kind)),
        }
    }

    fn post_validate(&self, k: Option<&ArgKey>, args: &mut ParsedArg) -> (r: Result<(), ParseError>) {
        match base::ArgValidator::post_validate(&self.inner, k, args) {
            Ok(_) => Ok(()),
            Err(e) => Err(error_from_kind(e.kind)),
        }
    }
}

} // verus!
