use vstd::prelude::*;
use vstd::string::*;

use crate::arg_key::ArgKey;
use crate::parse_error::{ParseError, ParseErrorKind};
use crate::decimal::{decimal, dec_of};
use crate::tui::{DomNode, DomStyle, Layout, Paragraph};
use crate::parsed_arg::{count_in, values_in, lemma_values_in_len, last_params, push_param, ParsedArg, TiersView};

verus! {

pub open spec fn opt_view(v: Option<&str>) -> Option<Seq<char>> {
    match v {
        Some(s) => Some(s@),
        None => None,
    }
}

pub open spec fn key_view(k: Option<&ArgKey>) -> Option<Seq<char>> {
    match k {
        Some(k) => Some(k@),
        None => None,
    }
}

pub open spec fn opt_string_view(v: Option<String>) -> Option<Seq<char>> {
    match v {
        Some(s) => Some(s@),
        None => None,
    }
}

/// The kind of a failed check, or none when it passed.
pub open spec fn err_kind(r: Result<(), ParseError>) -> Option<ParseErrorKind> {
    match r {
        Ok(_) => None,
        Err(e) => Some(e.kind),
    }
}

/// Whether `n` is a paragraph holding `s` that ends its line.
pub open spec fn is_text(n: DomNode, s: Seq<char>) -> bool {
    n matches DomNode::Text(p) && p.text@ == s && p.newline
}

/// A style with nothing set.
pub open spec fn plain_style(s: DomStyle) -> bool {
    s.indentation == 0 && s.effects.is_none() && s.bg.is_none() && s.fg.is_none()
}

/// The help line of one allowed value.
pub open spec fn option_line(o: (Seq<char>, Option<Seq<char>>)) -> Seq<char> {
    "- "@ + o.0 + ": "@ + match o.1 {
        Some(h) => h,
        None => "<no-help>"@,
    }
}

/// The help line of an occurrence range.
pub open spec fn count_help(lo: u64, hi: u64) -> Seq<char> {
    if lo == hi && lo != 1 {
        "Arg Count: ="@ + dec_of(lo as nat)
    } else if lo == 0 && hi == 1 {
        "Optional"@
    } else if lo == 1 && hi == 1 {
        "Required"@
    } else if lo == 1 && hi == u64::MAX {
        "Arg Count: >= "@ + dec_of(hi as nat)
    } else {
        "Arg Count: "@ + dec_of(lo as nat) + " <= n <= "@ + dec_of(hi as nat)
    }
}

/// Whether `r` is the help of the validator `v`.
pub open spec fn view_help(v: ValidatorView, r: Option<DomNode>) -> bool {
    match v {
        ValidatorView::Options(o) => if o.len() == 0 {
            r.is_none()
        } else {
            r matches Some(DomNode::VStack(l)) && plain_style(l.style) && l.children@.len() == o.len()
                && forall|i: int| 0 <= i < o.len() ==> is_text(#[trigger] l.children@[i], option_line(o[i]))
        },
        ValidatorView::Count(lo, hi) => r matches Some(n) && is_text(n, count_help(lo, hi)),
        ValidatorView::Empty(allow) => if allow {
            r matches Some(n) && is_text(n, "Flag"@)
        } else {
            r.is_none()
        },
        ValidatorView::Default(d) => r matches Some(n) && is_text(n, "Default: "@ + d),
    }
}

/// The nodes that are given among `hs`, in order.
pub open spec fn somes(hs: Seq<Option<DomNode>>) -> Seq<DomNode>
    decreases hs.len(),
{
    if hs.len() == 0 {
        Seq::empty()
    } else {
        somes(hs.drop_last()) + match hs.last() {
            Some(n) => seq![n],
            None => Seq::empty(),
        }
    }
}

/// Whether `r` is the help of an argument with help text `h` and validators
/// `vs`: a stack of the help text, then the help of each validator that
/// gives one, in order.
pub open spec fn arg_help(h: Option<Seq<char>>, vs: Seq<ValidatorView>, r: Option<DomNode>) -> bool {
    r matches Some(DomNode::VStack(l)) && plain_style(l.style) && exists|hs: Seq<Option<DomNode>>|
        #![trigger somes(hs)]
        {
            let k: int = if h.is_some() { 1 } else { 0 };
            &&& hs.len() == vs.len()
            &&& forall|i: int| 0 <= i < vs.len() ==> view_help(#[trigger] vs[i], hs[i])
            &&& l.children@.len() == k + somes(hs).len()
            &&& (h matches Some(t) ==> is_text(l.children@[0], t))
            &&& forall|i: int| 0 <= i < somes(hs).len() ==> #[trigger] l.children@[k + i] == somes(hs)[i]
        }
}

fn text_node(s: &str) -> (r: DomNode)
    ensures
        is_text(r, s@),
{
    DomNode::Text(Paragraph::new(s))
}

/// A constraint on an argument, checked when a value is read (`validate`)
/// and once the whole tier has been read (`post_validate`).
pub trait ArgValidator {
    /// The kind of error `validate` reports for the value `v`, if any.
    spec fn validate_spec(&self, v: Option<Seq<char>>) -> Option<ParseErrorKind>;

    /// The records after `post_validate` for key `k` (none for a positional
    /// argument), and the kind of error it reports, if any.
    spec fn post_spec(&self, k: Option<Seq<char>>, a: TiersView) -> (TiersView, Option<ParseErrorKind>);

    /// The name that identifies the kind of this constraint, if it has one.
    spec fn id_spec(&self) -> Option<Seq<char>>;

    /// Whether `r` is the help this constraint gives.
    spec fn help_spec(&self, r: Option<DomNode>) -> bool;

    fn help(&self) -> (r: Option<DomNode>)
        ensures
            self.help_spec(r),
    ;

    fn id(&self) -> (r: Option<String>)
        ensures
            opt_string_view(r) == self.id_spec(),
    ;

    fn validate(&self, v: Option<&str>) -> (r: Result<(), ParseError>)
        ensures
            err_kind(r) == self.validate_spec(opt_view(v)),
            r matches Err(e) ==> e.key.is_none(),
    ;

    fn post_validate(&self, k: Option<&ArgKey>, args: &mut ParsedArg) -> (r: Result<(), ParseError>)
        ensures
            (final(args)@, err_kind(r)) == self.post_spec(key_view(k), old(args)@),
            r matches Err(e) ==> e.key.is_none(),
    ;
}

pub type OptionsView = Seq<(Seq<char>, Option<Seq<char>>)>;

pub open spec fn options_view(o: Seq<(String, Option<String>)>) -> OptionsView {
    Seq::new(o.len(), |i: int| (o[i].0@, opt_string_view(o[i].1)))
}

/// Whether `v` is one of the allowed values in `o` (exact match).
pub open spec fn has_option(o: OptionsView, v: Seq<char>) -> bool {
    exists|i: int| 0 <= i < o.len() && #[trigger] o[i].0 == v
}

/// An enumerated set of allowed values, each with optional help text; each
/// value occurs at most once.
#[derive(Debug)]
pub struct ArgOptionValidator {
    pub options: Vec<(String, Option<String>)>,
}

impl Clone for ArgOptionValidator {
    fn clone(&self) -> (r: Self)
        ensures
            options_view(r.options@) == options_view(self.options@),
    {
        let mut out: Vec<(String, Option<String>)> = Vec::new();
        let n = self.options.len();
        let mut i: usize = 0;
        while i < n
            invariant
                n == self.options@.len(),
                0 <= i <= n,
                out@.len() == i,
                forall|j: int| 0 <= j < i ==> (#[trigger] out@[j]).0@ == self.options@[j].0@
                    && opt_string_view(out@[j].1) == opt_string_view(self.options@[j].1),
            decreases n - i,
        {
            let h = match &self.options[i].1 {
                Some(h) => Some(h.clone()),
                None => None,
            };
            proof {
                assert(opt_string_view(h) == opt_string_view(self.options@[i as int].1));
            }
            out.push((self.options[i].0.clone(), h));
            i = i + 1;
        }
        proof {
            assert(options_view(out@) =~= options_view(self.options@));
        }
        ArgOptionValidator { options: out }
    }
}

/// The position of the first entry of `o` whose value is `v`, searched forward.
pub open spec fn first_option(o: OptionsView, v: Seq<char>) -> int {
    if has_option(o, v) {
        choose|i: int| 0 <= i < o.len() && o[i].0 == v && forall|j: int| 0 <= j < i ==> o[j].0 != v
    } else {
        o.len() as int
    }
}

/// `o` with `(v, h)` registered: the help of an existing value is replaced,
/// a new value is appended.
pub open spec fn register_option(o: OptionsView, v: Seq<char>, h: Option<Seq<char>>) -> OptionsView {
    if has_option(o, v) {
        o.update(first_option(o, v), (v, h))
    } else {
        o.push((v, h))
    }
}

pub(crate) proof fn lemma_first_option(o: OptionsView, v: Seq<char>, i: int)
    requires
        0 <= i < o.len(),
        o[i].0 == v,
        forall|j: int| 0 <= j < i ==> o[j].0 != v,
    ensures
        has_option(o, v),
        first_option(o, v) == i,
{
    assert(has_option(o, v));
    let f = first_option(o, v);
    assert(0 <= f < o.len() && o[f].0 == v && forall|j: int| 0 <= j < f ==> o[j].0 != v);
    if f < i {
        assert(o[f].0 != v);
    }
    if i < f {
        assert(o[i].0 != v);
    }
}

impl ArgOptionValidator {
    /// Whether each value is listed once.
    pub open spec fn wf(&self) -> bool {
        options_unique(options_view(self.options@))
    }

    pub fn new() -> (r: Self)
        ensures
            r.wf(),
            r.options@.len() == 0,
    {
        ArgOptionValidator { options: Vec::new() }
    }

    /// Allows the value `value`, with help text `help`; registering a value
    /// again replaces its help text.
    pub fn option(self, value: &str, help: Option<&str>) -> (r: Self)
        requires
            self.wf(),
        ensures
            r.wf(),
            options_view(r.options@) == register_option(options_view(self.options@), value@, opt_view(help)),
    {
        let mut s = self;
        let ghost o = options_view(s.options@);
        proof {
            lemma_register_option_unique(o, value@, opt_view(help));
        }
        let h = match help {
            Some(h) => Some(String::from_str(h)),
            None => None,
        };
        assert(opt_string_view(h) == opt_view(help));
        let n = s.options.len();
        let mut i: usize = 0;
        while i < n
            invariant
                n == s.options@.len(),
                o == options_view(s.options@),
                o == options_view(self.options@),
                options_unique(register_option(o, value@, opt_view(help))),
                opt_string_view(h) == opt_view(help),
                0 <= i <= n,
                forall|j: int| 0 <= j < i ==> o[j].0 != value@,
            decreases n - i,
        {
            if str_eq(s.options[i].0.as_str(), value) {
                proof {
                    lemma_first_option(o, value@, i as int);
                }
                let v = s.options[i].0.clone();
                assert(v@ == value@);
                s.options.set(i, (v, h));
                proof {
                    assert(options_view(s.options@) =~= register_option(o, value@, opt_view(help)));
                }
                return s;
            }
            i = i + 1;
        }
        proof {
            assert(!has_option(o, value@));
        }
        s.options.push((String::from_str(value), h));
        proof {
            assert(options_view(s.options@) =~= register_option(o, value@, opt_view(help)));
        }
        s
    }

    /// The allowed values with their help, in registration order.
    pub fn iter(&self) -> (r: &[(String, Option<String>)])
        ensures
            r@ == self.options@,
    {
        self.options.as_slice()
    }

    pub fn len(&self) -> (r: usize)
        ensures
            r == self.options@.len(),
    {
        self.options.len()
    }

    pub fn is_empty(&self) -> (r: bool)
        ensures
            r == (self.options@.len() == 0),
    {
        self.options.len() == 0
    }

    /// Whether `v` is one of the allowed values.
    pub fn contains(&self, v: &str) -> (r: bool)
        ensures
            r == has_option(options_view(self.options@), v@),
    {
        let ghost o = options_view(self.options@);
        let n = self.options.len();
        let mut i: usize = 0;
        while i < n
            invariant
                n == self.options@.len(),
                o == options_view(self.options@),
                0 <= i <= n,
                forall|j: int| 0 <= j < i ==> o[j].0 != v@,
            decreases n - i,
        {
            if str_eq(self.options[i].0.as_str(), v) {
                proof {
                    assert(o[i as int].0 == v@);
                }
                return true;
            }
            i = i + 1;
        }
        false
    }
}

/// Character-wise equality of two strings.
pub fn str_eq(a: &str, b: &str) -> (r: bool)
    ensures
        r == (a@ == b@),
{
    let n = a.unicode_len();
    if n != b.unicode_len() {
        return false;
    }
    let mut i: usize = 0;
    while i < n
        invariant
            n == a@.len(),
            n == b@.len(),
            0 <= i <= n,
            forall|j: int| 0 <= j < i ==> a@[j] == b@[j],
        decreases n - i,
    {
        if a.get_char(i) != b.get_char(i) {
            return false;
        }
        i = i + 1;
    }
    proof {
        assert(a@ =~= b@);
    }
    true
}

impl ArgValidator for ArgOptionValidator {
    open spec fn validate_spec(&self, v: Option<Seq<char>>) -> Option<ParseErrorKind> {
        match v {
            None => Some(ParseErrorKind::NoValueGiven),
            Some(s) => if has_option(options_view(self.options@), s) {
                None
            } else {
                Some(ParseErrorKind::InvalidValue)
            },
        }
    }

    open spec fn post_spec(&self, k: Option<Seq<char>>, a: TiersView) -> (TiersView, Option<ParseErrorKind>) {
        (a, None)
    }

    open spec fn id_spec(&self) -> Option<Seq<char>> {
        Some("Option"@)
    }

    fn id(&self) -> (r: Option<String>) {
        Some(String::from_str("Option"))
    }

    open spec fn help_spec(&self, r: Option<DomNode>) -> bool {
        view_help(ValidatorView::Options(options_view(self.options@)), r)
    }

    fn help(&self) -> (r: Option<DomNode>) {
        let ghost o = options_view(self.options@);
        let n = self.options.len();
        if n == 0 {
            return None;
        }
        let mut layout = Layout::new();
        let mut i: usize = 0;
        while i < n
            invariant
                n == self.options@.len(),
                o == options_view(self.options@),
                0 <= i <= n,
                plain_style(layout.style),
                layout.children@.len() == i,
                forall|j: int| 0 <= j < i ==> is_text(#[trigger] layout.children@[j], option_line(o[j])),
            decreases n - i,
        {
            let line = match &self.options[i].1 {
                Some(h) => String::from_str("- ").concat(self.options[i].0.as_str()).concat(": ").concat(h.as_str()),
                None => String::from_str("- ").concat(self.options[i].0.as_str()).concat(": ").concat("<no-help>"),
            };
            proof {
                assert(line@ == option_line(o[i as int]));
            }
            layout = layout.append_child(text_node(line.as_str()));
            i = i + 1;
        }
        Some(DomNode::VStack(layout))
    }

    fn validate(&self, v: Option<&str>) -> (r: Result<(), ParseError>) {
        match v {
            None => Err(ParseError::no_value_given("")),
            Some(s) => if self.contains(s) {
                Ok(())
            } else {
                Err(ParseError::invalid_value(s))
            },
        }
    }

    fn post_validate(&self, k: Option<&ArgKey>, args: &mut ParsedArg) -> (r: Result<(), ParseError>) {
        Ok(())
    }
}

/// An inclusive range of allowed occurrence counts.
#[derive(Debug, Clone, Copy)]
pub struct ArgCountValidator {
    pub min_size: u64,
    pub max_size: u64,
}

impl ArgCountValidator {
    pub fn range(min_size: u64, max_size: u64) -> (r: Self)
        ensures
            r.min_size == min_size,
            r.max_size == max_size,
    {
        ArgCountValidator { min_size, max_size }
    }

    pub fn at_least(min_size: u64) -> (r: Self)
        ensures
            r.min_size == min_size,
            r.max_size == u64::MAX,
    {
        Self::range(min_size, u64::MAX)
    }

    pub fn at_most(max_size: u64) -> (r: Self)
        ensures
            r.min_size == 0,
            r.max_size == max_size,
    {
        Self::range(0, max_size)
    }

    pub fn equal_to(value: u64) -> (r: Self)
        ensures
            r.min_size == value,
            r.max_size == value,
    {
        Self::range(value, value)
    }

    pub fn one() -> (r: Self)
        ensures
            r.min_size == 1,
            r.max_size == 1,
    {
        Self::equal_to(1)
    }
}

/// How often key `k` occurred in the current tier of `a`; a positional
/// argument (no key) counts as one occurrence.
pub open spec fn occurrences(k: Option<Seq<char>>, a: TiersView) -> nat {
    match k {
        None => 1,
        Some(k) => count_in(last_params(a), k),
    }
}

impl ArgValidator for ArgCountValidator {
    open spec fn validate_spec(&self, v: Option<Seq<char>>) -> Option<ParseErrorKind> {
        None
    }

    open spec fn post_spec(&self, k: Option<Seq<char>>, a: TiersView) -> (TiersView, Option<ParseErrorKind>) {
        let c = occurrences(k, a);
        if c < self.min_size || c > self.max_size {
            (a, Some(ParseErrorKind::TooManyValueGiven))
        } else {
            (a, None)
        }
    }

    open spec fn id_spec(&self) -> Option<Seq<char>> {
        Some("ArgCountValidator"@)
    }

    fn id(&self) -> (r: Option<String>) {
        Some(String::from_str("ArgCountValidator"))
    }

    open spec fn help_spec(&self, r: Option<DomNode>) -> bool {
        view_help(ValidatorView::Count(self.min_size, self.max_size), r)
    }

    fn help(&self) -> (r: Option<DomNode>) {
        let lo = self.min_size;
        let hi = self.max_size;
        let text = if lo == hi && lo != 1 {
            String::from_str("Arg Count: =").concat(decimal(lo).as_str())
        } else if lo == 0 && hi == 1 {
            String::from_str("Optional")
        } else if lo == 1 && hi == 1 {
            String::from_str("Required")
        } else if lo == 1 && hi == u64::MAX {
            String::from_str("Arg Count: >= ").concat(decimal(hi).as_str())
        } else {
            String::from_str("Arg Count: ").concat(decimal(lo).as_str()).concat(" <= n <= ").concat(
                decimal(hi).as_str(),
            )
        };
        Some(text_node(text.as_str()))
    }

    fn validate(&self, v: Option<&str>) -> (r: Result<(), ParseError>) {
        Ok(())
    }

    fn post_validate(&self, k: Option<&ArgKey>, args: &mut ParsedArg) -> (r: Result<(), ParseError>) {
        let count: u64 = match k {
            Some(k) => args.count(k) as u64,
            None => 1,
        };
        if count < self.min_size || count > self.max_size {
            Err(ParseError::too_many_value_given("occurrence count out of range"))
        } else {
            Ok(())
        }
    }
}

/// Whether an option may appear without a value (flag semantics).
#[derive(Debug, Clone, Copy)]
pub struct ArgEmptyValidator {
    pub allow_empty: bool,
}

impl ArgEmptyValidator {
    pub fn new(allow_empty: bool) -> (r: Self)
        ensures
            r.allow_empty == allow_empty,
    {
        ArgEmptyValidator { allow_empty }
    }

    pub fn allow() -> (r: Self)
        ensures
            r.allow_empty,
    {
        Self::new(true)
    }

    pub fn require_value() -> (r: Self)
        ensures
            !r.allow_empty,
    {
        Self::new(false)
    }
}

impl ArgValidator for ArgEmptyValidator {
    open spec fn validate_spec(&self, v: Option<Seq<char>>) -> Option<ParseErrorKind> {
        if !self.allow_empty && v.is_none() {
            Some(ParseErrorKind::NoValueGiven)
        } else {
            None
        }
    }

    open spec fn post_spec(&self, k: Option<Seq<char>>, a: TiersView) -> (TiersView, Option<ParseErrorKind>) {
        (a, None)
    }

    open spec fn id_spec(&self) -> Option<Seq<char>> {
        Some("ArgEmptyValidator"@)
    }

    fn id(&self) -> (r: Option<String>) {
        Some(String::from_str("ArgEmptyValidator"))
    }

    open spec fn help_spec(&self, r: Option<DomNode>) -> bool {
        view_help(ValidatorView::Empty(self.allow_empty), r)
    }

    fn help(&self) -> (r: Option<DomNode>) {
        if self.allow_empty {
            Some(text_node("Flag"))
        } else {
            None
        }
    }

    fn validate(&self, v: Option<&str>) -> (r: Result<(), ParseError>) {
        if !self.allow_empty && v.is_none() {
            Err(ParseError::no_value_given(""))
        } else {
            Ok(())
        }
    }

    fn post_validate(&self, k: Option<&ArgKey>, args: &mut ParsedArg) -> (r: Result<(), ParseError>) {
        Ok(())
    }
}

/// A value recorded for a key that did not occur in its tier.
#[derive(Debug)]
pub struct DefaultArg {
    pub value: String,
}

impl Clone for DefaultArg {
    fn clone(&self) -> (r: Self)
        ensures
            r.value@ == self.value@,
    {
        DefaultArg { value: self.value.clone() }
    }
}

impl DefaultArg {
    pub fn new(value: &str) -> (r: Self)
        ensures
            r.value@ == value@,
    {
        DefaultArg { value: String::from_str(value) }
    }
}

impl ArgValidator for DefaultArg {
    open spec fn validate_spec(&self, v: Option<Seq<char>>) -> Option<ParseErrorKind> {
        None
    }

    open spec fn post_spec(&self, k: Option<Seq<char>>, a: TiersView) -> (TiersView, Option<ParseErrorKind>) {
        match k {
            Some(k) => if count_in(last_params(a), k) == 0 {
                (push_param(a, k, self.value@), None)
            } else {
                (a, None)
            },
            None => (a, None),
        }
    }

    open spec fn id_spec(&self) -> Option<Seq<char>> {
        Some("DefaultArg"@)
    }

    fn id(&self) -> (r: Option<String>) {
        Some(String::from_str("DefaultArg"))
    }

    open spec fn help_spec(&self, r: Option<DomNode>) -> bool {
        view_help(ValidatorView::Default(self.value@), r)
    }

    fn help(&self) -> (r: Option<DomNode>) {
        let text = String::from_str("Default: ").concat(self.value.as_str());
        Some(text_node(text.as_str()))
    }

    fn validate(&self, v: Option<&str>) -> (r: Result<(), ParseError>) {
        Ok(())
    }

    fn post_validate(&self, k: Option<&ArgKey>, args: &mut ParsedArg) -> (r: Result<(), ParseError>) {
        if let Some(k) = k {
            if args.count(k) == 0 {
                args.add_argument(k.clone(), self.value.clone());
            }
        }
        Ok(())
    }
}

/// What a validator is, as a value: its kind and its parameters.
pub enum ValidatorView {
    Options(OptionsView),
    Count(u64, u64),
    Empty(bool),
    Default(Seq<char>),
}

/// The error kind a validator reports for the value `x`, if any.
pub open spec fn view_validate(v: ValidatorView, x: Option<Seq<char>>) -> Option<ParseErrorKind> {
    match v {
        ValidatorView::Options(o) => match x {
            None => Some(ParseErrorKind::NoValueGiven),
            Some(s) => if has_option(o, s) {
                None
            } else {
                Some(ParseErrorKind::InvalidValue)
            },
        },
        ValidatorView::Count(_, _) => None,
        ValidatorView::Empty(allow) => if !allow && x.is_none() {
            Some(ParseErrorKind::NoValueGiven)
        } else {
            None
        },
        ValidatorView::Default(_) => None,
    }
}

/// The records after a validator's tier-end check for key `k`, and the error
/// kind it reports, if any.
pub open spec fn view_post(v: ValidatorView, k: Option<Seq<char>>, a: TiersView) -> (TiersView, Option<ParseErrorKind>) {
    match v {
        ValidatorView::Options(_) => (a, None),
        ValidatorView::Count(lo, hi) => {
            let c = occurrences(k, a);
            if c < lo || c > hi {
                (a, Some(ParseErrorKind::TooManyValueGiven))
            } else {
                (a, None)
            }
        },
        ValidatorView::Empty(_) => (a, None),
        ValidatorView::Default(d) => match k {
            Some(k) => if count_in(last_params(a), k) == 0 {
                (push_param(a, k, d), None)
            } else {
                (a, None)
            },
            None => (a, None),
        },
    }
}

/// One constraint of an [`Arg`].
#[derive(Debug)]
pub enum Validator {
    Options(ArgOptionValidator),
    Count(ArgCountValidator),
    Empty(ArgEmptyValidator),
    Default(DefaultArg),
}

impl View for Validator {
    type V = ValidatorView;

    open spec fn view(&self) -> ValidatorView {
        match self {
            Validator::Options(o) => ValidatorView::Options(options_view(o.options@)),
            Validator::Count(c) => ValidatorView::Count(c.min_size, c.max_size),
            Validator::Empty(e) => ValidatorView::Empty(e.allow_empty),
            Validator::Default(d) => ValidatorView::Default(d.value@),
        }
    }
}

impl ArgValidator for Validator {
    open spec fn validate_spec(&self, v: Option<Seq<char>>) -> Option<ParseErrorKind> {
        view_validate(self@, v)
    }

    open spec fn post_spec(&self, k: Option<Seq<char>>, a: TiersView) -> (TiersView, Option<ParseErrorKind>) {
        view_post(self@, k, a)
    }

    open spec fn id_spec(&self) -> Option<Seq<char>> {
        match self {
            Validator::Options(o) => o.id_spec(),
            Validator::Count(c) => c.id_spec(),
            Validator::Empty(e) => e.id_spec(),
            Validator::Default(d) => d.id_spec(),
        }
    }

    fn id(&self) -> (r: Option<String>) {
        match self {
            Validator::Options(o) => o.id(),
            Validator::Count(c) => c.id(),
            Validator::Empty(e) => e.id(),
            Validator::Default(d) => d.id(),
        }
    }

    open spec fn help_spec(&self, r: Option<DomNode>) -> bool {
        view_help(self@, r)
    }

    fn help(&self) -> (r: Option<DomNode>) {
        match self {
            Validator::Options(o) => o.help(),
            Validator::Count(c) => c.help(),
            Validator::Empty(e) => e.help(),
            Validator::Default(d) => d.help(),
        }
    }

    fn validate(&self, v: Option<&str>) -> (r: Result<(), ParseError>) {
        match self {
            Validator::Options(o) => o.validate(v),
            Validator::Count(c) => c.validate(v),
            Validator::Empty(e) => e.validate(v),
            Validator::Default(d) => d.validate(v),
        }
    }

    fn post_validate(&self, k: Option<&ArgKey>, args: &mut ParsedArg) -> (r: Result<(), ParseError>) {
        match self {
            Validator::Options(o) => o.post_validate(k, args),
            Validator::Count(c) => c.post_validate(k, args),
            Validator::Empty(e) => e.post_validate(k, args),
            Validator::Default(d) => d.post_validate(k, args),
        }
    }
}

/// Whether two validators are of the same kind.
pub open spec fn same_kind(a: ValidatorView, b: ValidatorView) -> bool {
    match (a, b) {
        (ValidatorView::Options(_), ValidatorView::Options(_)) => true,
        (ValidatorView::Count(_, _), ValidatorView::Count(_, _)) => true,
        (ValidatorView::Empty(_), ValidatorView::Empty(_)) => true,
        (ValidatorView::Default(_), ValidatorView::Default(_)) => true,
        _ => false,
    }
}

pub open spec fn has_kind(vs: Seq<ValidatorView>, v: ValidatorView) -> bool {
    exists|i: int| 0 <= i < vs.len() && same_kind(#[trigger] vs[i], v)
}

/// The slot of the first validator in `vs` of the same kind as `v`.
pub open spec fn kind_slot(vs: Seq<ValidatorView>, v: ValidatorView) -> int {
    choose|i: int| 0 <= i < vs.len() && same_kind(vs[i], v) && forall|j: int| 0 <= j < i ==> !same_kind(#[trigger] vs[j], v)
}

/// `vs` with `v` registered: a validator of the same kind is replaced in its
/// slot, otherwise `v` is appended.
pub open spec fn register(vs: Seq<ValidatorView>, v: ValidatorView) -> Seq<ValidatorView> {
    if has_kind(vs, v) {
        vs.update(kind_slot(vs, v), v)
    } else {
        vs.push(v)
    }
}

/// The first error kind that the validators `vs`, in order, report for `x`.
pub open spec fn fold_validate(vs: Seq<ValidatorView>, x: Option<Seq<char>>) -> Option<ParseErrorKind>
    decreases vs.len(),
{
    if vs.len() == 0 {
        None
    } else {
        match view_validate(vs[0], x) {
            Some(e) => Some(e),
            None => fold_validate(vs.drop_first(), x),
        }
    }
}

/// The tier-end checks of `vs` run in order, stopping at the first error.
pub open spec fn fold_post(vs: Seq<ValidatorView>, k: Option<Seq<char>>, a: TiersView) -> (TiersView, Option<ParseErrorKind>)
    decreases vs.len(),
{
    if vs.len() == 0 {
        (a, None)
    } else {
        let (a1, e) = view_post(vs[0], k, a);
        match e {
            Some(e) => (a1, Some(e)),
            None => fold_post(vs.drop_first(), k, a1),
        }
    }
}

/// An argument's definition: optional help text and its ordered validators,
/// at most one of each kind.
#[derive(Debug)]
pub struct Arg {
    pub help_text: Option<String>,
    pub validators: Vec<Validator>,
}

impl Arg {
    /// The validators of this argument, as values.
    pub open spec fn spec_validators(&self) -> Seq<ValidatorView> {
        Seq::new(self.validators@.len(), |i: int| self.validators@[i]@)
    }
}

impl ArgValidator for Arg {
    open spec fn validate_spec(&self, v: Option<Seq<char>>) -> Option<ParseErrorKind> {
        fold_validate(self.spec_validators(), v)
    }

    open spec fn post_spec(&self, k: Option<Seq<char>>, a: TiersView) -> (TiersView, Option<ParseErrorKind>) {
        fold_post(self.spec_validators(), k, a)
    }

    open spec fn id_spec(&self) -> Option<Seq<char>> {
        None
    }

    fn id(&self) -> (r: Option<String>) {
        None
    }

    open spec fn help_spec(&self, r: Option<DomNode>) -> bool {
        arg_help(opt_string_view(self.help_text), self.spec_validators(), r)
    }

    fn help(&self) -> (r: Option<DomNode>) {
        let ghost vs = self.spec_validators();
        let ghost k: int = if self.help_text.is_some() { 1 } else { 0 };
        let mut layout = Layout::new();
        match &self.help_text {
            Some(h) => {
                layout = layout.append_child(text_node(h.as_str()));
            },
            None => {},
        }
        let ghost mut hs: Seq<Option<DomNode>> = Seq::empty();
        let n = self.validators.len();
        let mut i: usize = 0;
        while i < n
            invariant
                n == vs.len(),
                vs == self.spec_validators(),
                k == (if self.help_text.is_some() { 1int } else { 0int }),
                0 <= i <= n,
                plain_style(layout.style),
                hs.len() == i,
                forall|j: int| 0 <= j < i ==> view_help(#[trigger] vs[j], hs[j]),
                layout.children@.len() == k + somes(hs).len(),
                self.help_text matches Some(t) ==> is_text(layout.children@[0], t@),
                forall|j: int| 0 <= j < somes(hs).len() ==> #[trigger] layout.children@[k + j] == somes(hs)[j],
            decreases n - i,
        {
            let h = self.validators[i].help();
            proof {
                assert(vs[i as int] == self.validators@[i as int]@);
                let hs2 = hs.push(h);
                assert(hs2.drop_last() =~= hs);
            }
            let ghost old_children = layout.children@;
            let ghost old_hs = hs;
            proof {
                hs = hs.push(h);
            }
            match h {
                Some(node) => {
                    layout = layout.append_child(node);
                },
                None => {},
            }
            proof {
                assert(hs.drop_last() =~= old_hs);
                assert forall|j: int| 0 <= j < somes(hs).len() implies #[trigger] layout.children@[k + j] == somes(hs)[j] by {
                    if j < somes(old_hs).len() {
                        assert(layout.children@[k + j] == old_children[k + j]);
                    }
                }
            }
            i = i + 1;
        }
        proof {
            assert(arg_help(opt_string_view(self.help_text), vs, Some(DomNode::VStack(layout))));
        }
        Some(DomNode::VStack(layout))
    }

    fn validate(&self, v: Option<&str>) -> (r: Result<(), ParseError>) {
        let ghost vs = self.spec_validators();
        let n = self.validators.len();
        proof {
            assert(vs.subrange(0, n as int) =~= vs);
        }
        let mut i: usize = 0;
        while i < n
            invariant
                n == vs.len(),
                vs == self.spec_validators(),
                0 <= i <= n,
                fold_validate(vs, opt_view(v)) == fold_validate(vs.subrange(i as int, n as int), opt_view(v)),
            decreases n - i,
        {
            proof {
                assert(vs.subrange(i as int, n as int).drop_first() =~= vs.subrange(i + 1, n as int));
                assert(vs.subrange(i as int, n as int)[0] == self.validators@[i as int]@);
            }
            match self.validators[i].validate(v) {
                Err(e) => {
                    return Err(e);
                },
                Ok(_) => {},
            }
            i = i + 1;
        }
        proof {
            assert(vs.subrange(n as int, n as int).len() == 0);
        }
        Ok(())
    }

    fn post_validate(&self, k: Option<&ArgKey>, args: &mut ParsedArg) -> (r: Result<(), ParseError>) {
        let ghost vs = self.spec_validators();
        let ghost a0 = args@;
        let n = self.validators.len();
        proof {
            assert(vs.subrange(0, n as int) =~= vs);
        }
        let mut i: usize = 0;
        while i < n
            invariant
                n == vs.len(),
                vs == self.spec_validators(),
                0 <= i <= n,
                a0 == old(args)@,
                fold_post(vs, key_view(k), a0) == fold_post(vs.subrange(i as int, n as int), key_view(k), args@),
            decreases n - i,
        {
            proof {
                assert(vs.subrange(i as int, n as int).drop_first() =~= vs.subrange(i + 1, n as int));
                assert(vs.subrange(i as int, n as int)[0] == self.validators@[i as int]@);
            }
            match self.validators[i].post_validate(k, args) {
                Err(e) => {
                    return Err(e);
                },
                Ok(_) => {},
            }
            i = i + 1;
        }
        proof {
            assert(vs.subrange(n as int, n as int).len() == 0);
        }
        Ok(())
    }
}

fn same_kind_exec(a: &Validator, b: &Validator) -> (r: bool)
    ensures
        r == same_kind(a@, b@),
{
    match (a, b) {
        (Validator::Options(_), Validator::Options(_)) => true,
        (Validator::Count(_), Validator::Count(_)) => true,
        (Validator::Empty(_), Validator::Empty(_)) => true,
        (Validator::Default(_), Validator::Default(_)) => true,
        _ => false,
    }
}

proof fn lemma_kind_slot(vs: Seq<ValidatorView>, v: ValidatorView, i: int)
    requires
        0 <= i < vs.len(),
        same_kind(vs[i], v),
        forall|j: int| 0 <= j < i ==> !same_kind(#[trigger] vs[j], v),
    ensures
        has_kind(vs, v),
        kind_slot(vs, v) == i,
{
    assert(has_kind(vs, v));
    let f = kind_slot(vs, v);
    assert(0 <= f < vs.len() && same_kind(vs[f], v) && forall|j: int| 0 <= j < f ==> !same_kind(#[trigger] vs[j], v));
    if f < i {
        assert(!same_kind(vs[f], v));
    }
    if i < f {
        assert(!same_kind(vs[i], v));
    }
}

/// Registering a validator of a kind already present replaces it in its slot:
/// the number of validators stays the same.
pub proof fn lemma_register_replaces(vs: Seq<ValidatorView>, v: ValidatorView)
    requires
        has_kind(vs, v),
    ensures
        register(vs, v).len() == vs.len(),
        register(vs, v)[kind_slot(vs, v)] == v,
        forall|j: int| 0 <= j < vs.len() && j != kind_slot(vs, v) ==> #[trigger] register(vs, v)[j] == vs[j],
{
    let i = choose|i: int| 0 <= i < vs.len() && same_kind(#[trigger] vs[i], v);
    assert(0 <= kind_slot(vs, v) < vs.len()) by {
        lemma_has_first_kind(vs, v, i);
    }
}

proof fn lemma_has_first_kind(vs: Seq<ValidatorView>, v: ValidatorView, i: int)
    requires
        0 <= i < vs.len(),
        same_kind(vs[i], v),
    ensures
        exists|f: int| 0 <= f < vs.len() && same_kind(vs[f], v) && forall|j: int| 0 <= j < f ==> !same_kind(#[trigger] vs[j], v),
    decreases i,
{
    if exists|j: int| 0 <= j < i && same_kind(#[trigger] vs[j], v) {
        let j = choose|j: int| 0 <= j < i && same_kind(#[trigger] vs[j], v);
        lemma_has_first_kind(vs, v, j);
    } else {
        assert(forall|j: int| 0 <= j < i ==> !same_kind(#[trigger] vs[j], v));
    }
}

/// Whether the values of `o` are distinct.
pub open spec fn options_unique(o: OptionsView) -> bool {
    forall|i: int, j: int| 0 <= i < j < o.len() ==> #[trigger] o[i].0 != #[trigger] o[j].0
}

/// Whether a validator is well formed: an option set lists each value once.
pub open spec fn view_wf(v: ValidatorView) -> bool {
    match v {
        ValidatorView::Options(o) => options_unique(o),
        _ => true,
    }
}

/// Whether validators are well formed: at most one of each kind, each well
/// formed itself.
pub open spec fn validators_wf(vs: Seq<ValidatorView>) -> bool {
    &&& forall|i: int, j: int| 0 <= i < j < vs.len() ==> !same_kind(#[trigger] vs[i], #[trigger] vs[j])
    &&& forall|i: int| 0 <= i < vs.len() ==> view_wf(#[trigger] vs[i])
}

/// Registering a well-formed validator keeps validators well formed.
pub proof fn lemma_register_wf(vs: Seq<ValidatorView>, v: ValidatorView)
    requires
        validators_wf(vs),
        view_wf(v),
    ensures
        validators_wf(register(vs, v)),
{
    let r = register(vs, v);
    if has_kind(vs, v) {
        lemma_register_replaces(vs, v);
        let k = kind_slot(vs, v);
        assert(same_kind(vs[k], v));
        assert forall|i: int, j: int| 0 <= i < j < r.len() implies !same_kind(#[trigger] r[i], #[trigger] r[j]) by {
            if i == k {
                assert(!same_kind(vs[k], vs[j]));
            } else if j == k {
                assert(!same_kind(vs[i], vs[k]));
            } else {
                assert(r[i] == vs[i] && r[j] == vs[j]);
            }
        }
        assert forall|i: int| 0 <= i < r.len() implies view_wf(#[trigger] r[i]) by {
            if i != k {
                assert(r[i] == vs[i]);
            }
        }
    } else {
        assert forall|i: int, j: int| 0 <= i < j < r.len() implies !same_kind(#[trigger] r[i], #[trigger] r[j]) by {
            if j == vs.len() {
                assert(r[i] == vs[i]);
                assert(!same_kind(vs[i], v));
            } else {
                assert(r[i] == vs[i] && r[j] == vs[j]);
            }
        }
        assert forall|i: int| 0 <= i < r.len() implies view_wf(#[trigger] r[i]) by {
            if i < vs.len() {
                assert(r[i] == vs[i]);
            }
        }
    }
}

/// Registering an option keeps the values distinct.
pub proof fn lemma_register_option_unique(o: OptionsView, v: Seq<char>, h: Option<Seq<char>>)
    requires
        options_unique(o),
    ensures
        options_unique(register_option(o, v, h)),
{
    let r = register_option(o, v, h);
    if has_option(o, v) {
        let f = first_option(o, v);
        assert(0 <= f < o.len() && o[f].0 == v);
        assert forall|i: int, j: int| 0 <= i < j < r.len() implies #[trigger] r[i].0 != #[trigger] r[j].0 by {
            if i == f {
                assert(o[f].0 != o[j].0);
            } else if j == f {
                assert(o[i].0 != o[f].0);
            } else {
                assert(r[i] == o[i] && r[j] == o[j]);
            }
        }
    } else {
        assert forall|i: int, j: int| 0 <= i < j < r.len() implies #[trigger] r[i].0 != #[trigger] r[j].0 by {
            if j == o.len() {
                assert(r[i] == o[i]);
                assert(o[i].0 != v);
            } else {
                assert(r[i] == o[i] && r[j] == o[j]);
            }
        }
    }
}

impl Arg {
    /// Whether this argument is well formed; see [`validators_wf`].
    pub open spec fn wf(&self) -> bool {
        validators_wf(self.spec_validators())
    }
}

impl Default for Arg {
    fn default() -> (r: Self)
        ensures
            r.help_text.is_none(),
            r.validators@.len() == 0,
    {
        Arg { help_text: None, validators: Vec::new() }
    }
}

impl Arg {
    pub fn new() -> (r: Self)
        ensures
            r.wf(),
            r.help_text.is_none(),
            r.validators@.len() == 0,
    {
        Arg { help_text: None, validators: Vec::new() }
    }

    /// Sets the help text.
    pub fn help(self, text: &str) -> (r: Self)
        requires
            self.wf(),
        ensures
            r.wf(),
            opt_string_view(r.help_text) == Some(text@),
            r.spec_validators() == self.spec_validators(),
    {
        Arg { help_text: Some(String::from_str(text)), validators: self.validators }
    }

    /// Registers `validator`; one of the same kind already present is
    /// replaced in its slot.
    pub fn validate(self, validator: Validator) -> (r: Self)
        requires
            self.wf(),
            view_wf(validator@),
        ensures
            r.wf(),
            r.spec_validators() == register(self.spec_validators(), validator@),
            r.help_text == self.help_text,
    {
        let mut s = self;
        let ghost vs = s.spec_validators();
        let n = s.validators.len();
        let mut i: usize = 0;
        while i < n
            invariant
                n == vs.len(),
                vs == s.spec_validators(),
                vs == self.spec_validators(),
                validators_wf(vs),
                view_wf(validator@),
                s.help_text == self.help_text,
                0 <= i <= n,
                forall|j: int| 0 <= j < i ==> !same_kind(#[trigger] vs[j], validator@),
            decreases n - i,
        {
            if same_kind_exec(&s.validators[i], &validator) {
                proof {
                    lemma_kind_slot(vs, validator@, i as int);
                    lemma_register_wf(vs, validator@);
                }
                s.validators.set(i, validator);
                proof {
                    assert(s.spec_validators() =~= register(vs, validator@));
                }
                return s;
            }
            i = i + 1;
        }
        proof {
            assert(!has_kind(vs, validator@));
            lemma_register_wf(vs, validator@);
        }
        s.validators.push(validator);
        proof {
            assert(s.spec_validators() =~= register(vs, validator@));
        }
        s
    }

    pub fn with_default(self, value: &str) -> (r: Self)
        requires
            self.wf(),
        ensures
            r.wf(),
            r.spec_validators() == register(self.spec_validators(), ValidatorView::Default(value@)),
            r.help_text == self.help_text,
    {
        self.validate(Validator::Default(DefaultArg::new(value)))
    }

    pub fn n_at_least(self, min_size: u64) -> (r: Self)
        requires
            self.wf(),
        ensures
            r.wf(),
            r.spec_validators() == register(self.spec_validators(), ValidatorView::Count(min_size, u64::MAX)),
            r.help_text == self.help_text,
    {
        self.validate(Validator::Count(ArgCountValidator::at_least(min_size)))
    }

    pub fn n_at_most(self, max_size: u64) -> (r: Self)
        requires
            self.wf(),
        ensures
            r.wf(),
            r.spec_validators() == register(self.spec_validators(), ValidatorView::Count(0, max_size)),
            r.help_text == self.help_text,
    {
        self.validate(Validator::Count(ArgCountValidator::at_most(max_size)))
    }

    pub fn n_equal_to(self, value: u64) -> (r: Self)
        requires
            self.wf(),
        ensures
            r.wf(),
            r.spec_validators() == register(self.spec_validators(), ValidatorView::Count(value, value)),
            r.help_text == self.help_text,
    {
        self.validate(Validator::Count(ArgCountValidator::equal_to(value)))
    }

    pub fn n_range(self, min_size: u64, max_size: u64) -> (r: Self)
        requires
            self.wf(),
        ensures
            r.wf(),
            r.spec_validators() == register(self.spec_validators(), ValidatorView::Count(min_size, max_size)),
            r.help_text == self.help_text,
    {
        self.validate(Validator::Count(ArgCountValidator::range(min_size, max_size)))
    }

    /// The argument must be given with a value.
    pub fn require_value(self) -> (r: Self)
        requires
            self.wf(),
        ensures
            r.wf(),
            r.spec_validators() == register(self.spec_validators(), ValidatorView::Empty(false)),
            r.help_text == self.help_text,
    {
        self.validate(Validator::Empty(ArgEmptyValidator::require_value()))
    }

    /// The argument may be given without a value.
    pub fn as_flag(self) -> (r: Self)
        requires
            self.wf(),
        ensures
            r.wf(),
            r.spec_validators() == register(self.spec_validators(), ValidatorView::Empty(true)),
            r.help_text == self.help_text,
    {
        self.validate(Validator::Empty(ArgEmptyValidator::allow()))
    }

    /// Exactly one occurrence, with a value.
    pub fn required(self) -> (r: Self)
        requires
            self.wf(),
        ensures
            r.wf(),
            r.spec_validators() == register(
                register(self.spec_validators(), ValidatorView::Empty(false)),
                ValidatorView::Count(1, 1),
            ),
            r.help_text == self.help_text,
    {
        self.require_value().n_equal_to(1)
    }

    /// At most one occurrence.
    pub fn optional(self) -> (r: Self)
        requires
            self.wf(),
        ensures
            r.wf(),
            r.spec_validators() == register(self.spec_validators(), ValidatorView::Count(0, 1)),
            r.help_text == self.help_text,
    {
        self.n_range(0, 1)
    }

    /// The number of validators.
    pub fn len(&self) -> (r: usize)
        ensures
            r == self.spec_validators().len(),
    {
        self.validators.len()
    }

    pub fn is_empty(&self) -> (r: bool)
        ensures
            r == (self.spec_validators().len() == 0),
    {
        self.validators.len() == 0
    }
}

/// A count of exactly one: with no occurrence, or with two or more, the
/// tier-end check fails with `TooManyValueGiven`; with exactly one it passes.
/// The records are left as they are.
pub proof fn lemma_exactly_one(k: Seq<char>, a: TiersView)
    ensures
        view_post(ValidatorView::Count(1, 1), Some(k), a).0 == a,
        count_in(last_params(a), k) == 0 ==> view_post(ValidatorView::Count(1, 1), Some(k), a).1
            == Some(ParseErrorKind::TooManyValueGiven),
        count_in(last_params(a), k) == 1 ==> view_post(ValidatorView::Count(1, 1), Some(k), a).1.is_none(),
        count_in(last_params(a), k) >= 2 ==> view_post(ValidatorView::Count(1, 1), Some(k), a).1
            == Some(ParseErrorKind::TooManyValueGiven),
{
}

/// A default value is recorded once when its key is absent from the tier,
/// never when the key is present; running the check again changes nothing.
pub proof fn lemma_default_once(d: Seq<char>, k: Seq<char>, a: TiersView)
    requires
        a.len() > 0,
    ensures
        view_post(ValidatorView::Default(d), Some(k), a).1.is_none(),
        count_in(last_params(a), k) == 0 ==> values_in(last_params(view_post(ValidatorView::Default(d), Some(k), a).0), k)
            == seq![d],
        count_in(last_params(a), k) > 0 ==> view_post(ValidatorView::Default(d), Some(k), a).0 == a,
        view_post(ValidatorView::Default(d), Some(k), view_post(ValidatorView::Default(d), Some(k), a).0)
            == view_post(ValidatorView::Default(d), Some(k), a),
{
    let a1 = view_post(ValidatorView::Default(d), Some(k), a).0;
    let p = last_params(a);
    if count_in(p, k) == 0 {
        let q = p.push((k, d));
        assert(a1 == push_param(a, k, d));
        assert(last_params(a1) == q);
        assert(q.drop_last() =~= p);
        lemma_values_in_len(p, k);
        assert(values_in(p, k) =~= Seq::<Seq<char>>::empty());
        assert(values_in(q, k) =~= seq![d]);
        assert(count_in(q, k) == 1);
    }
}

} // verus!
