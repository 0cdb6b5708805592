use vstd::prelude::*;
use vstd::string::*;

use crate::decimal::{decimal, dec_of};
use crate::tui::{spaces, make_spaces};

verus! {

/// A terminal colour: one of the sixteen named ones, an index into the
/// 256-colour palette, or a 24-bit colour.
#[derive(Debug, Clone, Copy, PartialEq, Eq, Structural)]
pub enum Color {
    Black,
    Red,
    Green,
    Yellow,
    Blue,
    Magenta,
    Cyan,
    White,
    BrightBlack,
    BrightRed,
    BrightGreen,
    BrightYellow,
    BrightBlue,
    BrightMagenta,
    BrightCyan,
    BrightWhite,
    Indexed(u8),
    Rgb(u8, u8, u8),
}

#[derive(Debug, Clone, Copy, PartialEq, Eq, Hash, Structural)]
pub enum TextEffect {
    Bold,
    Dim,
    Italic,
    Underline,
    SlowBlink,
    RapidBlink,
    Reverse,
    Strikethrough,
    DoubleUnderline,
}

/// A text format as a value: background, foreground, and the set of effects
/// (each effect at most once, in the order first added).
pub type FormatView = (Option<Color>, Option<Color>, Seq<TextEffect>);

/// `es` with `e` added, unless already there.
pub open spec fn add_effect(es: Seq<TextEffect>, e: TextEffect) -> Seq<TextEffect> {
    if es.contains(e) {
        es
    } else {
        es.push(e)
    }
}

/// `es` with each of `more` added in turn.
pub open spec fn add_effects(es: Seq<TextEffect>, more: Seq<TextEffect>) -> Seq<TextEffect>
    decreases more.len(),
{
    if more.len() == 0 {
        es
    } else {
        add_effect(add_effects(es, more.drop_last()), more.last())
    }
}

/// Background and foreground colours and a set of text effects.
#[derive(Debug)]
pub struct TextFormat {
    bg: Option<Color>,
    fg: Option<Color>,
    effects: Vec<TextEffect>,
}

impl View for TextFormat {
    type V = FormatView;

    closed spec fn view(&self) -> FormatView {
        (self.bg, self.fg, self.effects@)
    }
}

impl Clone for TextFormat {
    fn clone(&self) -> (r: Self)
        ensures
            r@ == self@,
    {
        let mut effects: Vec<TextEffect> = Vec::new();
        let n = self.effects.len();
        let mut i: usize = 0;
        while i < n
            invariant
                n == self.effects@.len(),
                0 <= i <= n,
                effects@ =~= self.effects@.subrange(0, i as int),
            decreases n - i,
        {
            effects.push(self.effects[i]);
            i = i + 1;
        }
        proof {
            assert(effects@ =~= self.effects@);
        }
        TextFormat { bg: self.bg, fg: self.fg, effects }
    }
}

impl Default for TextFormat {
    fn default() -> (r: Self)
        ensures
            r@ == (None::<Color>, None::<Color>, Seq::<TextEffect>::empty()),
    {
        TextFormat { bg: None, fg: None, effects: Vec::new() }
    }
}

/// Whether two formats are alike: the same colours and the same set of
/// effects, in whatever order they were added.
pub open spec fn same_format(a: FormatView, b: FormatView) -> bool {
    &&& a.0 == b.0
    &&& a.1 == b.1
    &&& a.2.len() == b.2.len()
    &&& forall|i: int| 0 <= i < a.2.len() ==> b.2.contains(#[trigger] a.2[i])
}

impl PartialEq for TextFormat {
    fn eq(&self, other: &TextFormat) -> (r: bool) {
        if self.bg != other.bg || self.fg != other.fg || self.effects.len() != other.effects.len() {
            return false;
        }
        let n = self.effects.len();
        let mut i: usize = 0;
        while i < n
            invariant
                n == self.effects@.len(),
                0 <= i <= n,
                forall|j: int| 0 <= j < i ==> other.effects@.contains(#[trigger] self.effects@[j]),
            decreases n - i,
        {
            if !other.has_effect(&self.effects[i]) {
                return false;
            }
            i = i + 1;
        }
        true
    }
}

impl vstd::std_specs::cmp::PartialEqSpecImpl for TextFormat {
    open spec fn obeys_eq_spec() -> bool {
        true
    }

    open spec fn eq_spec(&self, other: &TextFormat) -> bool {
        same_format(self@, other@)
    }
}

impl TextFormat {
    pub fn new() -> (r: Self)
        ensures
            r@ == (None::<Color>, None::<Color>, Seq::<TextEffect>::empty()),
    {
        TextFormat { bg: None, fg: None, effects: Vec::new() }
    }

    pub fn bg(&mut self, color: Color) -> (r: &mut Self)
        ensures
            r@ == (Some(color), old(self)@.1, old(self)@.2),
            *final(self) == *final(r),
    {
        self.bg = Some(color);
        self
    }

    pub fn fg(&mut self, color: Color) -> (r: &mut Self)
        ensures
            r@ == (old(self)@.0, Some(color), old(self)@.2),
            *final(self) == *final(r),
    {
        self.fg = Some(color);
        self
    }

    /// Adds `effect`; an effect already present is not added twice.
    pub fn effect(&mut self, effect: TextEffect) -> (r: &mut Self)
        ensures
            r@ == (old(self)@.0, old(self)@.1, add_effect(old(self)@.2, effect)),
            *final(self) == *final(r),
    {
        if !self.has_effect(&effect) {
            self.effects.push(effect);
        }
        self
    }

    /// Adds each of `effects` in turn.
    pub fn effects(&mut self, effects: &[TextEffect]) -> (r: &mut Self)
        ensures
            r@ == (old(self)@.0, old(self)@.1, add_effects(old(self)@.2, effects@)),
            *final(self) == *final(r),
    {
        let n = effects.len();
        let mut i: usize = 0;
        while i < n
            invariant
                n == effects@.len(),
                0 <= i <= n,
                self@ == (old(self)@.0, old(self)@.1, add_effects(old(self)@.2, effects@.subrange(0, i as int))),
            decreases n - i,
        {
            proof {
                assert(effects@.subrange(0, i + 1).drop_last() =~= effects@.subrange(0, i as int));
            }
            self.effect(effects[i]);
            i = i + 1;
        }
        proof {
            assert(effects@.subrange(0, n as int) =~= effects@);
        }
        self
    }

    pub fn has_effect(&self, effect: &TextEffect) -> (r: bool)
        ensures
            r == self@.2.contains(*effect),
    {
        let n = self.effects.len();
        let mut i: usize = 0;
        while i < n
            invariant
                n == self.effects@.len(),
                0 <= i <= n,
                forall|j: int| 0 <= j < i ==> self.effects@[j] != *effect,
            decreases n - i,
        {
            if self.effects[i] == *effect {
                return true;
            }
            i = i + 1;
        }
        false
    }

    /// The number of distinct effects.
    pub fn len_effects(&self) -> (r: usize)
        ensures
            r == self@.2.len(),
    {
        self.effects.len()
    }

    pub fn get_bg(&self) -> (r: Option<&Color>)
        ensures
            r matches Some(c) ==> self@.0 == Some(*c),
            r.is_none() ==> self@.0.is_none(),
    {
        match &self.bg {
            Some(c) => Some(c),
            None => None,
        }
    }

    pub fn get_fg(&self) -> (r: Option<&Color>)
        ensures
            r matches Some(c) ==> self@.1 == Some(*c),
            r.is_none() ==> self@.1.is_none(),
    {
        match &self.fg {
            Some(c) => Some(c),
            None => None,
        }
    }

    /// Moves the format out, leaving the default one.
    pub fn take(&mut self) -> (r: Self)
        ensures
            r@ == old(self)@,
            final(self)@ == (None::<Color>, None::<Color>, Seq::<TextEffect>::empty()),
    {
        let mut out = TextFormat::new();
        std::mem::swap(&mut out, self);
        out
    }
}

/// A terminal node as a value.
pub enum NodeView {
    Begin(FormatView),
    End,
    Text(Seq<char>),
    NewLine,
    Indent(usize),
}

/// One element of styled terminal output.
#[derive(Debug, Clone)]
pub enum TerminalNode {
    Begin(TextFormat),
    End,
    Text(String),
    NewLine,
    Indent(usize),
}

impl View for TerminalNode {
    type V = NodeView;

    open spec fn view(&self) -> NodeView {
        match self {
            TerminalNode::Begin(f) => NodeView::Begin(f@),
            TerminalNode::End => NodeView::End,
            TerminalNode::Text(s) => NodeView::Text(s@),
            TerminalNode::NewLine => NodeView::NewLine,
            TerminalNode::Indent(n) => NodeView::Indent(*n),
        }
    }
}

impl TerminalNode {
    /// A text node holding `s`.
    pub fn text(s: &str) -> (r: Self)
        ensures
            r@ == NodeView::Text(s@),
    {
        TerminalNode::Text(String::from_str(s))
    }

    /// A node that starts the format `f`.
    pub fn begin(f: TextFormat) -> (r: Self)
        ensures
            r@ == NodeView::Begin(f@),
    {
        TerminalNode::Begin(f)
    }
}

impl From<TextFormat> for TerminalNode {
    fn from(value: TextFormat) -> (r: Self) {
        TerminalNode::Begin(value)
    }
}

impl vstd::std_specs::convert::FromSpecImpl<TextFormat> for TerminalNode {
    open spec fn obeys_from_spec() -> bool {
        true
    }

    open spec fn from_spec(v: TextFormat) -> TerminalNode {
        TerminalNode::Begin(v)
    }
}

impl From<String> for TerminalNode {
    fn from(value: String) -> (r: Self) {
        TerminalNode::Text(value)
    }
}

impl vstd::std_specs::convert::FromSpecImpl<String> for TerminalNode {
    open spec fn obeys_from_spec() -> bool {
        true
    }

    open spec fn from_spec(v: String) -> TerminalNode {
        TerminalNode::Text(v)
    }
}

impl From<&str> for TerminalNode {
    fn from(value: &str) -> (r: Self) {
        Self::text(value)
    }
}

impl vstd::std_specs::convert::FromSpecImpl<&str> for TerminalNode {
    open spec fn obeys_from_spec() -> bool {
        false
    }

    open spec fn from_spec(v: &str) -> TerminalNode {
        TerminalNode::End
    }
}

/// The nodes after appending `x` to `ns`: after a line break, an indent of
/// `ident` comes first.
pub open spec fn after_append(ns: Seq<NodeView>, ident: usize, x: NodeView) -> Seq<NodeView> {
    if ns.len() > 0 && ns.last() is NewLine {
        ns.push(NodeView::Indent(ident)).push(x)
    } else {
        ns.push(x)
    }
}

/// The nodes after appending each of `xs` in turn.
pub open spec fn after_append_all(ns: Seq<NodeView>, ident: usize, xs: Seq<NodeView>) -> Seq<NodeView>
    decreases xs.len(),
{
    if xs.len() == 0 {
        ns
    } else {
        after_append(after_append_all(ns, ident, xs.drop_last()), ident, xs.last())
    }
}

/// Appending `xs` and then `ys` is appending `xs + ys`.
pub proof fn lemma_append_all_concat(ns: Seq<NodeView>, ident: usize, xs: Seq<NodeView>, ys: Seq<NodeView>)
    ensures
        after_append_all(ns, ident, xs + ys) == after_append_all(after_append_all(ns, ident, xs), ident, ys),
    decreases ys.len(),
{
    if ys.len() == 0 {
        assert(xs + ys =~= xs);
    } else {
        lemma_append_all_concat(ns, ident, xs, ys.drop_last());
        assert((xs + ys).drop_last() =~= xs + ys.drop_last());
        assert((xs + ys).last() == ys.last());
    }
}

/// Appending one more node after `xs`.
pub proof fn lemma_append_all_push(ns: Seq<NodeView>, ident: usize, xs: Seq<NodeView>, x: NodeView)
    ensures
        after_append_all(ns, ident, xs.push(x)) == after_append(after_append_all(ns, ident, xs), ident, x),
{
    assert(xs.push(x).drop_last() =~= xs);
}

pub open spec fn nodes_view(v: Seq<TerminalNode>) -> Seq<NodeView> {
    Seq::new(v.len(), |i: int| v[i]@)
}

/// A sequence of terminal nodes, indented by `ident` after each line break.
#[derive(Debug, Clone)]
pub struct TerminalNodes {
    nodes: Vec<TerminalNode>,
    ident: usize,
}

impl View for TerminalNodes {
    type V = Seq<NodeView>;

    closed spec fn view(&self) -> Seq<NodeView> {
        nodes_view(self.nodes@)
    }
}

impl Default for TerminalNodes {
    fn default() -> (r: Self)
        ensures
            r@ == seq![NodeView::Indent(0)],
            r.spec_indent() == 0,
    {
        Self::new(0)
    }
}

impl TerminalNodes {
    /// The indentation used after each line break.
    pub closed spec fn spec_indent(&self) -> usize {
        self.ident
    }

    /// Nodes starting with an indent of `ident`.
    pub fn new(ident: usize) -> (r: Self)
        ensures
            r@ == seq![NodeView::Indent(ident)],
            r.spec_indent() == ident,
    {
        let mut nodes: Vec<TerminalNode> = Vec::new();
        nodes.push(TerminalNode::Indent(ident));
        let r = TerminalNodes { ident, nodes };
        proof {
            assert(r@ =~= seq![NodeView::Indent(ident)]);
        }
        r
    }

    /// The node `node` in the format `fmt`, indented by `ident`.
    pub fn with_format(fmt: TextFormat, node: TerminalNode, ident: usize) -> (r: Self)
        ensures
            r@ == seq![NodeView::Indent(ident), NodeView::Begin(fmt@), node@, NodeView::End],
            r.spec_indent() == ident,
    {
        let mut r = Self::new(ident);
        r.begin_format(fmt);
        r.append_node(node);
        r.end_format();
        proof {
            assert(r@ =~= seq![NodeView::Indent(ident), NodeView::Begin(fmt@), node@, NodeView::End]);
        }
        r
    }

    /// Appends `n`, after an indent when the last node is a line break.
    pub fn append_node(&mut self, n: TerminalNode) -> (r: &mut Self)
        ensures
            r@ == after_append(old(self)@, old(self).spec_indent(), n@),
            r.spec_indent() == old(self).spec_indent(),
            *final(self) == *final(r),
    {
        let len = self.nodes.len();
        let after_break = len > 0 && match &self.nodes[len - 1] {
            TerminalNode::NewLine => true,
            _ => false,
        };
        if after_break {
            self.nodes.push(TerminalNode::Indent(self.ident));
        }
        self.nodes.push(n);
        proof {
            assert(self@ =~= after_append(old(self)@, old(self).spec_indent(), n@));
        }
        self
    }

    /// Appends each node of `sub_nodes` in turn.
    pub fn append_sub_node(&mut self, sub_nodes: TerminalNodes) -> (r: &mut Self)
        ensures
            r@ == after_append_all(old(self)@, old(self).spec_indent(), sub_nodes@),
            r.spec_indent() == old(self).spec_indent(),
            *final(self) == *final(r),
    {
        let ghost xs = sub_nodes@;
        let mut rest = sub_nodes.nodes;
        let n = rest.len();
        let mut i: usize = 0;
        proof {
            assert(nodes_view(rest@) =~= xs.subrange(0, n as int));
        }
        while i < n
            invariant
                n == xs.len(),
                0 <= i <= n,
                nodes_view(rest@) == xs.subrange(i as int, n as int),
                rest@.len() == n - i,
                self.ident == old(self).ident,
                self@ == after_append_all(old(self)@, old(self).spec_indent(), xs.subrange(0, i as int)),
            decreases n - i,
        {
            proof {
                assert(xs.subrange(0, i + 1).drop_last() =~= xs.subrange(0, i as int));
                assert(nodes_view(rest@)[0] == xs[i as int]);
            }
            let ghost before = rest@;
            let x = rest.remove(0);
            proof {
                assert(rest@ == before.remove(0));
                assert forall|j: int| 0 <= j < rest@.len() implies nodes_view(rest@)[j] == xs.subrange(i + 1, n as int)[j] by {
                    assert(rest@[j] == before[j + 1]);
                    assert(nodes_view(before)[j + 1] == xs[i + 1 + j]);
                }
                assert(nodes_view(rest@) =~= xs.subrange(i + 1, n as int));
            }
            self.append_node(x);
            i = i + 1;
        }
        proof {
            assert(xs.subrange(0, n as int) =~= xs);
        }
        self
    }

    /// Starts the format `fmt`.
    pub fn begin_format(&mut self, fmt: TextFormat) -> (r: &mut Self)
        ensures
            r@ == after_append(old(self)@, old(self).spec_indent(), NodeView::Begin(fmt@)),
            r.spec_indent() == old(self).spec_indent(),
            *final(self) == *final(r),
    {
        self.append_node(TerminalNode::Begin(fmt))
    }

    /// Ends the current format.
    pub fn end_format(&mut self) -> (r: &mut Self)
        ensures
            r@ == old(self)@.push(NodeView::End),
            r.spec_indent() == old(self).spec_indent(),
            *final(self) == *final(r),
    {
        self.nodes.push(TerminalNode::End);
        proof {
            assert(self@ =~= old(self)@.push(NodeView::End));
        }
        self
    }

    /// Appends a line break.
    pub fn new_line(&mut self) -> (r: &mut Self)
        ensures
            r@ == after_append(old(self)@, old(self).spec_indent(), NodeView::NewLine),
            r.spec_indent() == old(self).spec_indent(),
            *final(self) == *final(r),
    {
        self.append_node(TerminalNode::NewLine)
    }

    pub fn len(&self) -> (r: usize)
        ensures
            r == self@.len(),
    {
        self.nodes.len()
    }

    /// The nodes, in order.
    pub fn iter(&self) -> (r: std::slice::Iter<'_, TerminalNode>)
        ensures
            nodes_view(vstd::std_specs::slice::into_iter_elts(r)) == self@,
    {
        self.nodes.iter()
    }

    /// Moves the nodes out, leaving the default ones.
    pub fn take(&mut self) -> (r: Self)
        ensures
            r@ == old(self)@,
            r.spec_indent() == old(self).spec_indent(),
            final(self)@ == seq![NodeView::Indent(0)],
            final(self).spec_indent() == 0,
    {
        let mut out = Self::new(0);
        std::mem::swap(&mut out, self);
        out
    }

    /// The indentation used after each line break.
    pub fn indent(&self) -> (r: usize)
        ensures
            r == self.spec_indent(),
    {
        self.ident
    }
}

/// The escape sequence that selects colour `c`.
pub open spec fn color_text(c: Color) -> Seq<char> {
    match c {
        Color::Black => "\x1b[30m"@,
        Color::Red => "\x1b[31m"@,
        Color::Green => "\x1b[32m"@,
        Color::Yellow => "\x1b[33m"@,
        Color::Blue => "\x1b[34m"@,
        Color::Magenta => "\x1b[35m"@,
        Color::Cyan => "\x1b[36m"@,
        Color::White => "\x1b[37m"@,
        Color::BrightBlack => "\x1b[90m"@,
        Color::BrightRed => "\x1b[91m"@,
        Color::BrightGreen => "\x1b[92m"@,
        Color::BrightYellow => "\x1b[93m"@,
        Color::BrightBlue => "\x1b[94m"@,
        Color::BrightMagenta => "\x1b[95m"@,
        Color::BrightCyan => "\x1b[96m"@,
        Color::BrightWhite => "\x1b[97m"@,
        Color::Indexed(n) => "\x1b[38;5;"@ + dec_of(n as nat) + "m"@,
        Color::Rgb(r, g, b) => "\x1b[38;2;"@ + dec_of(r as nat) + ";"@ + dec_of(g as nat) + ";"@ + dec_of(b as nat)
            + "m"@,
    }
}

/// The escape sequence that selects effect `e`.
pub open spec fn effect_text(e: TextEffect) -> Seq<char> {
    match e {
        TextEffect::Bold => "\x1b[1m"@,
        TextEffect::Dim => "\x1b[2m"@,
        TextEffect::Italic => "\x1b[3m"@,
        TextEffect::Underline => "\x1b[4m"@,
        TextEffect::SlowBlink => "\x1b[5m"@,
        TextEffect::RapidBlink => "\x1b[6m"@,
        TextEffect::Reverse => "\x1b[7m"@,
        TextEffect::Strikethrough => "\x1b[9m"@,
        TextEffect::DoubleUnderline => "\x1b[21m"@,
    }
}

pub open spec fn effects_text(es: Seq<TextEffect>) -> Seq<char>
    decreases es.len(),
{
    if es.len() == 0 {
        Seq::empty()
    } else {
        effects_text(es.drop_last()) + effect_text(es.last())
    }
}

pub open spec fn opt_color_text(c: Option<Color>) -> Seq<char> {
    match c {
        Some(c) => color_text(c),
        None => Seq::empty(),
    }
}

/// The escape sequences that select format `f`: background, foreground,
/// then each effect.
pub open spec fn format_text(f: FormatView) -> Seq<char> {
    opt_color_text(f.0) + opt_color_text(f.1) + effects_text(f.2)
}

/// A node as terminal text.
pub open spec fn node_text(n: NodeView) -> Seq<char> {
    match n {
        NodeView::Begin(f) => format_text(f),
        NodeView::End => "\x1b[0m"@,
        NodeView::Text(t) => t,
        NodeView::NewLine => "\n"@,
        NodeView::Indent(k) => spaces(k as nat),
    }
}

pub open spec fn nodes_text(ns: Seq<NodeView>) -> Seq<char>
    decreases ns.len(),
{
    if ns.len() == 0 {
        Seq::empty()
    } else {
        nodes_text(ns.drop_last()) + node_text(ns.last())
    }
}

impl Color {
    /// The escape sequence that selects this colour.
    pub fn to_text(&self) -> (r: String)
        ensures
            r@ == color_text(*self),
    {
        match self {
            Color::Black => String::from_str("\x1b[30m"),
            Color::Red => String::from_str("\x1b[31m"),
            Color::Green => String::from_str("\x1b[32m"),
            Color::Yellow => String::from_str("\x1b[33m"),
            Color::Blue => String::from_str("\x1b[34m"),
            Color::Magenta => String::from_str("\x1b[35m"),
            Color::Cyan => String::from_str("\x1b[36m"),
            Color::White => String::from_str("\x1b[37m"),
            Color::BrightBlack => String::from_str("\x1b[90m"),
            Color::BrightRed => String::from_str("\x1b[91m"),
            Color::BrightGreen => String::from_str("\x1b[92m"),
            Color::BrightYellow => String::from_str("\x1b[93m"),
            Color::BrightBlue => String::from_str("\x1b[94m"),
            Color::BrightMagenta => String::from_str("\x1b[95m"),
            Color::BrightCyan => String::from_str("\x1b[96m"),
            Color::BrightWhite => String::from_str("\x1b[97m"),
            Color::Indexed(n) => String::from_str("\x1b[38;5;").concat(decimal(*n as u64).as_str()).concat("m"),
            Color::Rgb(r, g, b) => String::from_str("\x1b[38;2;").concat(decimal(*r as u64).as_str()).concat(";").concat(
                decimal(*g as u64).as_str(),
            ).concat(";").concat(decimal(*b as u64).as_str()).concat("m"),
        }
    }
}

impl TextEffect {
    /// The escape sequence that selects this effect.
    pub fn to_text(&self) -> (r: String)
        ensures
            r@ == effect_text(*self),
    {
        match self {
            TextEffect::Bold => String::from_str("\x1b[1m"),
            TextEffect::Dim => String::from_str("\x1b[2m"),
            TextEffect::Italic => String::from_str("\x1b[3m"),
            TextEffect::Underline => String::from_str("\x1b[4m"),
            TextEffect::SlowBlink => String::from_str("\x1b[5m"),
            TextEffect::RapidBlink => String::from_str("\x1b[6m"),
            TextEffect::Reverse => String::from_str("\x1b[7m"),
            TextEffect::Strikethrough => String::from_str("\x1b[9m"),
            TextEffect::DoubleUnderline => String::from_str("\x1b[21m"),
        }
    }
}

impl TextFormat {
    /// The escape sequences that select this format.
    pub fn to_text(&self) -> (r: String)
        ensures
            r@ == format_text(self@),
    {
        let mut out = String::new();
        match &self.bg {
            Some(c) => {
                out = out.concat(c.to_text().as_str());
            },
            None => {},
        }
        match &self.fg {
            Some(c) => {
                out = out.concat(c.to_text().as_str());
            },
            None => {},
        }
        let ghost head = out@;
        proof {
            assert(head =~= opt_color_text(self@.0) + opt_color_text(self@.1));
            assert(self.effects@.subrange(0, 0) =~= Seq::<TextEffect>::empty());
            assert(head + effects_text(Seq::empty()) =~= head);
        }
        let n = self.effects.len();
        let mut i: usize = 0;
        while i < n
            invariant
                n == self.effects@.len(),
                0 <= i <= n,
                out@ == head + effects_text(self.effects@.subrange(0, i as int)),
            decreases n - i,
        {
            proof {
                assert(self.effects@.subrange(0, i + 1).drop_last() =~= self.effects@.subrange(0, i as int));
            }
            out = out.concat(self.effects[i].to_text().as_str());
            proof {
                assert(out@ =~= head + effects_text(self.effects@.subrange(0, i + 1)));
            }
            i = i + 1;
        }
        proof {
            assert(self.effects@.subrange(0, n as int) =~= self.effects@);
        }
        out
    }
}

impl TerminalNode {
    /// This node as terminal text.
    pub fn to_text(&self) -> (r: String)
        ensures
            r@ == node_text(self@),
    {
        match self {
            TerminalNode::Begin(f) => f.to_text(),
            TerminalNode::End => String::from_str("\x1b[0m"),
            TerminalNode::Text(t) => t.clone(),
            TerminalNode::NewLine => String::from_str("\n"),
            TerminalNode::Indent(k) => make_spaces(*k),
        }
    }
}

impl TerminalNodes {
    /// The nodes as terminal text, in order.
    pub fn to_text(&self) -> (r: String)
        ensures
            r@ == nodes_text(self@),
    {
        let ghost ns = self@;
        let mut out = String::new();
        let n = self.nodes.len();
        let mut i: usize = 0;
        proof {
            assert(ns.subrange(0, 0) =~= Seq::<NodeView>::empty());
        }
        while i < n
            invariant
                n == ns.len(),
                ns == self@,
                0 <= i <= n,
                out@ == nodes_text(ns.subrange(0, i as int)),
            decreases n - i,
        {
            proof {
                assert(ns.subrange(0, i + 1).drop_last() =~= ns.subrange(0, i as int));
                assert(ns[i as int] == self.nodes@[i as int]@);
            }
            out = out.concat(self.nodes[i].to_text().as_str());
            i = i + 1;
        }
        proof {
            assert(ns.subrange(0, n as int) =~= ns);
        }
        out
    }
}

} // verus!
