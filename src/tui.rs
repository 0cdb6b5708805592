use vstd::prelude::*;
use vstd::string::*;

verus! {

/// A 24-bit colour.
#[derive(Debug, Clone, Copy, PartialEq, Eq, Hash, Structural)]
pub struct RgbColor {
    pub r: u8,
    pub g: u8,
    pub b: u8,
}

impl Default for RgbColor {
    fn default() -> (r: Self)
        ensures
            r == (RgbColor { r: 0, g: 0, b: 0 }),
    {
        Self::new(0, 0, 0)
    }
}

impl From<(u8, u8, u8)> for RgbColor {
    fn from(value: (u8, u8, u8)) -> (r: Self) {
        RgbColor { r: value.0, g: value.1, b: value.2 }
    }
}

impl vstd::std_specs::convert::FromSpecImpl<(u8, u8, u8)> for RgbColor {
    open spec fn obeys_from_spec() -> bool {
        true
    }

    open spec fn from_spec(v: (u8, u8, u8)) -> RgbColor {
        RgbColor { r: v.0, g: v.1, b: v.2 }
    }
}

impl RgbColor {
    pub fn new(r: u8, g: u8, b: u8) -> (c: Self)
        ensures
            c == (RgbColor { r, g, b }),
    {
        RgbColor { r, g, b }
    }

    pub fn black() -> (c: Self)
        ensures
            c == (RgbColor { r: 0, g: 0, b: 0 }),
    {
        Self::new(0, 0, 0)
    }

    pub fn red() -> (c: Self)
        ensures
            c == (RgbColor { r: 205, g: 0, b: 0 }),
    {
        Self::new(205, 0, 0)
    }

    pub fn green() -> (c: Self)
        ensures
            c == (RgbColor { r: 0, g: 205, b: 0 }),
    {
        Self::new(0, 205, 0)
    }

    pub fn yellow() -> (c: Self)
        ensures
            c == (RgbColor { r: 205, g: 205, b: 0 }),
    {
        Self::new(205, 205, 0)
    }

    pub fn blue() -> (c: Self)
        ensures
            c == (RgbColor { r: 0, g: 0, b: 205 }),
    {
        Self::new(0, 0, 205)
    }

    pub fn magenta() -> (c: Self)
        ensures
            c == (RgbColor { r: 205, g: 0, b: 205 }),
    {
        Self::new(205, 0, 205)
    }

    pub fn cyan() -> (c: Self)
        ensures
            c == (RgbColor { r: 0, g: 205, b: 205 }),
    {
        Self::new(0, 205, 205)
    }

    pub fn white() -> (c: Self)
        ensures
            c == (RgbColor { r: 229, g: 229, b: 229 }),
    {
        Self::new(229, 229, 229)
    }

    pub fn bright_black() -> (c: Self)
        ensures
            c == (RgbColor { r: 127, g: 127, b: 127 }),
    {
        Self::new(127, 127, 127)
    }

    pub fn bright_red() -> (c: Self)
        ensures
            c == (RgbColor { r: 255, g: 0, b: 0 }),
    {
        Self::new(255, 0, 0)
    }

    pub open spec fn bright_green_spec() -> Self {
        RgbColor { r: 0, g: 255, b: 0 }
    }

    pub fn bright_green() -> (c: Self)
        ensures
            c == (RgbColor { r: 0, g: 255, b: 0 }),
    {
        Self::new(0, 255, 0)
    }

    pub fn bright_yellow() -> (c: Self)
        ensures
            c == (RgbColor { r: 255, g: 255, b: 0 }),
    {
        Self::new(255, 255, 0)
    }

    pub fn bright_blue() -> (c: Self)
        ensures
            c == (RgbColor { r: 92, g: 92, b: 255 }),
    {
        Self::new(92, 92, 255)
    }

    pub fn bright_magenta() -> (c: Self)
        ensures
            c == (RgbColor { r: 255, g: 0, b: 255 }),
    {
        Self::new(255, 0, 255)
    }

    pub fn bright_cyan() -> (c: Self)
        ensures
            c == (RgbColor { r: 0, g: 255, b: 255 }),
    {
        Self::new(0, 255, 255)
    }

    pub fn bright_white() -> (c: Self)
        ensures
            c == (RgbColor { r: 255, g: 255, b: 255 }),
    {
        Self::new(255, 255, 255)
    }
}

#[derive(Debug, Clone, Copy, PartialEq, Eq, Hash, Structural)]
pub enum TextEffect {
    Bold,
    Dim,
    Italic,
    Underline,
    SlowBlink,
    RapidBlink,
    Reverse,
    Strikethrough,
    DoubleUnderline,
}

/// `es` with `e` added, unless already there.
pub open spec fn with_effect(es: Seq<TextEffect>, e: TextEffect) -> Seq<TextEffect> {
    if es.contains(e) {
        es
    } else {
        es.push(e)
    }
}

/// `es` with each of `more` added in turn.
pub open spec fn with_effects(es: Seq<TextEffect>, more: Seq<TextEffect>) -> Seq<TextEffect>
    decreases more.len(),
{
    if more.len() == 0 {
        es
    } else {
        with_effect(with_effects(es, more.drop_last()), more.last())
    }
}

/// The style of a layout: indentation, text effects (each at most once) and
/// colours.
#[derive(Debug, Default, Clone)]
pub struct DomStyle {
    pub indentation: u32,
    pub effects: Option<Vec<TextEffect>>,
    pub bg: Option<RgbColor>,
    pub fg: Option<RgbColor>,
}

/// The effects of a style; none set reads as the empty set.
pub open spec fn style_effects(s: DomStyle) -> Seq<TextEffect> {
    match s.effects {
        Some(v) => v@,
        None => Seq::empty(),
    }
}

fn contains_effect(es: &Vec<TextEffect>, e: TextEffect) -> (r: bool)
    ensures
        r == es@.contains(e),
{
    let n = es.len();
    let mut i: usize = 0;
    while i < n
        invariant
            n == es@.len(),
            0 <= i <= n,
            forall|j: int| 0 <= j < i ==> es@[j] != e,
        decreases n - i,
    {
        if es[i] == e {
            return true;
        }
        i = i + 1;
    }
    false
}

impl DomStyle {
    pub fn new() -> (r: Self)
        ensures
            r.indentation == 0,
            r.effects.is_none(),
            r.bg.is_none(),
            r.fg.is_none(),
    {
        DomStyle { indentation: 0, effects: None, bg: None, fg: None }
    }

    pub fn indent(self, v: u32) -> (r: Self)
        ensures
            r.indentation == v,
            style_effects(r) == style_effects(self),
            r.effects == self.effects,
            r.bg == self.bg,
            r.fg == self.fg,
    {
        DomStyle { indentation: v, effects: self.effects, bg: self.bg, fg: self.fg }
    }

    /// Adds `effect`; an effect already present is not added twice.
    pub fn effect(self, effect: TextEffect) -> (r: Self)
        ensures
            r.effects.is_some(),
            style_effects(r) == with_effect(style_effects(self), effect),
            r.indentation == self.indentation,
            r.bg == self.bg,
            r.fg == self.fg,
    {
        let mut es = match self.effects {
            Some(v) => v,
            None => Vec::new(),
        };
        if !contains_effect(&es, effect) {
            es.push(effect);
        }
        DomStyle { indentation: self.indentation, effects: Some(es), bg: self.bg, fg: self.fg }
    }

    /// Adds each of `effects` in turn.
    pub fn effects(self, effects: &[TextEffect]) -> (r: Self)
        ensures
            style_effects(r) == with_effects(style_effects(self), effects@),
            effects@.len() > 0 ==> r.effects.is_some(),
            r.indentation == self.indentation,
            r.bg == self.bg,
            r.fg == self.fg,
    {
        let mut s = self;
        let n = effects.len();
        let mut i: usize = 0;
        while i < n
            invariant
                n == effects@.len(),
                0 <= i <= n,
                style_effects(s) == with_effects(style_effects(self), effects@.subrange(0, i as int)),
                i > 0 ==> s.effects.is_some(),
                s.indentation == self.indentation,
                s.bg == self.bg,
                s.fg == self.fg,
            decreases n - i,
        {
            proof {
                assert(effects@.subrange(0, i + 1).drop_last() =~= effects@.subrange(0, i as int));
            }
            s = s.effect(effects[i]);
            i = i + 1;
        }
        proof {
            assert(effects@.subrange(0, n as int) =~= effects@);
        }
        s
    }

    pub fn bg(self, color: RgbColor) -> (r: Self)
        ensures
            r.bg == Some(color),
            r.fg == self.fg,
            r.effects == self.effects,
            r.indentation == self.indentation,
            style_effects(r) == style_effects(self),
    {
        DomStyle { indentation: self.indentation, effects: self.effects, bg: Some(color), fg: self.fg }
    }

    pub fn fg(self, color: RgbColor) -> (r: Self)
        ensures
            r.fg == Some(color),
            r.bg == self.bg,
            r.effects == self.effects,
            r.indentation == self.indentation,
            style_effects(r) == style_effects(self),
    {
        DomStyle { indentation: self.indentation, effects: self.effects, bg: self.bg, fg: Some(color) }
    }
}

/// A vertical stack of nodes under one style.
#[derive(Debug)]
pub struct Layout {
    pub children: Vec<DomNode>,
    pub style: DomStyle,
}

/// A piece of text, ending its line unless told otherwise.
#[derive(Debug, Clone)]
pub struct Paragraph {
    pub text: String,
    pub newline: bool,
}

/// A node of the help tree: a stack of nodes, or a piece of text.
#[derive(Debug)]
pub enum DomNode {
    VStack(Layout),
    Text(Paragraph),
}

impl Default for Layout {
    fn default() -> (r: Self)
        ensures
            r.children@.len() == 0,
            r.style.indentation == 0,
            r.style.effects.is_none(),
            r.style.bg.is_none(),
            r.style.fg.is_none(),
    {
        Layout::new()
    }
}

impl Layout {
    pub fn new() -> (r: Self)
        ensures
            r.children@.len() == 0,
            r.style.indentation == 0,
            r.style.effects.is_none(),
            r.style.bg.is_none(),
            r.style.fg.is_none(),
    {
        Layout { children: Vec::new(), style: DomStyle::new() }
    }

    pub fn style(self, style: DomStyle) -> (r: Self)
        ensures
            r.style == style,
            r.children == self.children,
    {
        Layout { children: self.children, style }
    }

    pub fn append_child(self, child: DomNode) -> (r: Self)
        ensures
            r.children@ == self.children@.push(child),
            r.style == self.style,
    {
        let mut s = self;
        s.children.push(child);
        s
    }

    /// Appends each of `children`, in order.
    pub fn append_children(self, children: Vec<DomNode>) -> (r: Self)
        ensures
            r.children@ == self.children@ + children@,
            r.style == self.style,
    {
        let mut s = self;
        let mut more = children;
        s.children.append(&mut more);
        s
    }

    pub fn len(&self) -> (r: usize)
        ensures
            r == self.children@.len(),
    {
        self.children.len()
    }

    /// The children, in order.
    pub fn iter(&self) -> (r: &[DomNode])
        ensures
            r@ == self.children@,
    {
        self.children.as_slice()
    }

    pub fn is_empty(&self) -> (r: bool)
        ensures
            r == (self.children@.len() == 0),
    {
        self.children.len() == 0
    }
}

impl Paragraph {
    /// A paragraph holding `text`, ending its line.
    pub fn new(text: &str) -> (r: Self)
        ensures
            r.text@ == text@,
            r.newline,
    {
        Paragraph { text: String::from_str(text), newline: true }
    }

    /// The same text, without ending its line.
    pub fn no_newline(self) -> (r: Self)
        ensures
            r.text == self.text,
            !r.newline,
    {
        Paragraph { text: self.text, newline: false }
    }
}

impl From<Paragraph> for DomNode {
    fn from(value: Paragraph) -> (r: Self) {
        DomNode::Text(value)
    }
}

impl vstd::std_specs::convert::FromSpecImpl<Paragraph> for DomNode {
    open spec fn obeys_from_spec() -> bool {
        true
    }

    open spec fn from_spec(v: Paragraph) -> DomNode {
        DomNode::Text(v)
    }
}

impl From<Layout> for DomNode {
    fn from(value: Layout) -> (r: Self) {
        DomNode::VStack(value)
    }
}

impl vstd::std_specs::convert::FromSpecImpl<Layout> for DomNode {
    open spec fn obeys_from_spec() -> bool {
        true
    }

    open spec fn from_spec(v: Layout) -> DomNode {
        DomNode::VStack(v)
    }
}

/// `n` spaces.
pub open spec fn spaces(n: nat) -> Seq<char>
    decreases n,
{
    if n == 0 {
        Seq::empty()
    } else {
        spaces((n - 1) as nat).push(' ')
    }
}

pub fn make_spaces(n: usize) -> (r: String)
    ensures
        r@ == spaces(n as nat),
{
    let mut out = String::new();
    let mut i: usize = 0;
    while i < n
        invariant
            0 <= i <= n,
            out@ == spaces(i as nat),
        decreases n - i,
    {
        out = out.concat(" ");
        proof {
            reveal_strlit(" ");
            assert(out@ =~= spaces((i + 1) as nat));
        }
        i = i + 1;
    }
    out
}

/// The terminal code of an effect.
pub open spec fn effect_code_text(e: TextEffect) -> Seq<char> {
    match e {
        TextEffect::Bold => "1"@,
        TextEffect::Dim => "2"@,
        TextEffect::Italic => "3"@,
        TextEffect::Underline => "4"@,
        TextEffect::SlowBlink => "5"@,
        TextEffect::RapidBlink => "6"@,
        TextEffect::Reverse => "7"@,
        TextEffect::Strikethrough => "8"@,
        TextEffect::DoubleUnderline => "9"@,
    }
}

fn effect_code(e: TextEffect) -> (r: &'static str)
    ensures
        r@ == effect_code_text(e),
{
    match e {
        TextEffect::Bold => "1",
        TextEffect::Dim => "2",
        TextEffect::Italic => "3",
        TextEffect::Underline => "4",
        TextEffect::SlowBlink => "5",
        TextEffect::RapidBlink => "6",
        TextEffect::Reverse => "7",
        TextEffect::Strikethrough => "8",
        TextEffect::DoubleUnderline => "9",
    }
}

/// The terminal code of one of the sixteen named colours, as a background
/// or a foreground colour; other colours have none.
pub open spec fn color_code_text(c: RgbColor, background: bool) -> Option<Seq<char>> {
    let (fg, bg) = if c == (RgbColor { r: 0, g: 0, b: 0 }) {
        ("30"@, "40"@)
    } else if c == (RgbColor { r: 205, g: 0, b: 0 }) {
        ("31"@, "41"@)
    } else if c == (RgbColor { r: 0, g: 205, b: 0 }) {
        ("32"@, "42"@)
    } else if c == (RgbColor { r: 205, g: 205, b: 0 }) {
        ("33"@, "43"@)
    } else if c == (RgbColor { r: 0, g: 0, b: 205 }) {
        ("34"@, "44"@)
    } else if c == (RgbColor { r: 205, g: 0, b: 205 }) {
        ("35"@, "45"@)
    } else if c == (RgbColor { r: 0, g: 205, b: 205 }) {
        ("36"@, "46"@)
    } else if c == (RgbColor { r: 229, g: 229, b: 229 }) {
        ("37"@, "47"@)
    } else if c == (RgbColor { r: 127, g: 127, b: 127 }) {
        ("90"@, "100"@)
    } else if c == (RgbColor { r: 255, g: 0, b: 0 }) {
        ("91"@, "101"@)
    } else if c == (RgbColor { r: 0, g: 255, b: 0 }) {
        ("92"@, "102"@)
    } else if c == (RgbColor { r: 255, g: 255, b: 0 }) {
        ("93"@, "103"@)
    } else if c == (RgbColor { r: 92, g: 92, b: 255 }) {
        ("94"@, "104"@)
    } else if c == (RgbColor { r: 255, g: 0, b: 255 }) {
        ("95"@, "105"@)
    } else if c == (RgbColor { r: 0, g: 255, b: 255 }) {
        ("96"@, "106"@)
    } else if c == (RgbColor { r: 255, g: 255, b: 255 }) {
        ("97"@, "107"@)
    } else {
        (Seq::empty(), Seq::empty())
    };
    if fg.len() == 0 {
        None
    } else if background {
        Some(bg)
    } else {
        Some(fg)
    }
}

fn color_code(c: RgbColor, background: bool) -> (r: Option<&'static str>)
    ensures
        match r {
            Some(s) => color_code_text(c, background) == Some(s@),
            None => color_code_text(c, background).is_none(),
        },
{
    let (fg, bg) = if c == RgbColor::black() {
        ("30", "40")
    } else if c == RgbColor::red() {
        ("31", "41")
    } else if c == RgbColor::green() {
        ("32", "42")
    } else if c == RgbColor::yellow() {
        ("33", "43")
    } else if c == RgbColor::blue() {
        ("34", "44")
    } else if c == RgbColor::magenta() {
        ("35", "45")
    } else if c == RgbColor::cyan() {
        ("36", "46")
    } else if c == RgbColor::white() {
        ("37", "47")
    } else if c == RgbColor::bright_black() {
        ("90", "100")
    } else if c == RgbColor::bright_red() {
        ("91", "101")
    } else if c == RgbColor::bright_green() {
        ("92", "102")
    } else if c == RgbColor::bright_yellow() {
        ("93", "103")
    } else if c == RgbColor::bright_blue() {
        ("94", "104")
    } else if c == RgbColor::bright_magenta() {
        ("95", "105")
    } else if c == RgbColor::bright_cyan() {
        ("96", "106")
    } else if c == RgbColor::bright_white() {
        ("97", "107")
    } else {
        proof {
            assert(color_code_text(c, background).is_none());
        }
        return None;
    };
    proof {
        reveal_strlit("30");
        reveal_strlit("31");
        reveal_strlit("32");
        reveal_strlit("33");
        reveal_strlit("34");
        reveal_strlit("35");
        reveal_strlit("36");
        reveal_strlit("37");
        reveal_strlit("90");
        reveal_strlit("91");
        reveal_strlit("92");
        reveal_strlit("93");
        reveal_strlit("94");
        reveal_strlit("95");
        reveal_strlit("96");
        reveal_strlit("97");
    }
    if background {
        Some(bg)
    } else {
        Some(fg)
    }
}

pub open spec fn opt_code(o: Option<Seq<char>>) -> Seq<Seq<char>> {
    match o {
        Some(c) => seq![c],
        None => Seq::empty(),
    }
}

/// The terminal codes a style selects: its effects in order, then its
/// background and its foreground colour.
pub open spec fn style_codes(s: DomStyle) -> Seq<Seq<char>> {
    Seq::new(style_effects(s).len(), |i: int| effect_code_text(style_effects(s)[i])) + (match s.bg {
        Some(c) => opt_code(color_code_text(c, true)),
        None => Seq::empty(),
    }) + (match s.fg {
        Some(c) => opt_code(color_code_text(c, false)),
        None => Seq::empty(),
    })
}

/// The codes `cs` separated by `;`.
pub open spec fn join_codes(cs: Seq<Seq<char>>) -> Seq<char>
    decreases cs.len(),
{
    if cs.len() == 0 {
        Seq::empty()
    } else if cs.len() == 1 {
        cs[0]
    } else {
        join_codes(cs.drop_last()) + ";"@ + cs.last()
    }
}

/// The escape sequence that selects a style, if it selects anything.
pub open spec fn style_text(s: DomStyle) -> Option<Seq<char>> {
    if style_codes(s).len() == 0 {
        None
    } else {
        Some("\x1b["@ + join_codes(style_codes(s)) + "m"@)
    }
}

/// The escape sequence that selects `style`, if it sets anything the
/// terminal knows.
fn render_style(style: &DomStyle) -> (r: Option<String>)
    ensures
        match r {
            Some(s) => style_text(*style) == Some(s@),
            None => style_text(*style).is_none(),
        },
{
    let ghost want = style_codes(*style);
    let mut codes: Vec<&'static str> = Vec::new();
    let ghost es = style_effects(*style);
    match &style.effects {
        Some(v) => {
            let n = v.len();
            let mut i: usize = 0;
            while i < n
                invariant
                    n == v@.len(),
                    es == v@,
                    0 <= i <= n,
                    codes@.len() == i,
                    forall|j: int| 0 <= j < i ==> (#[trigger] codes@[j])@ == effect_code_text(es[j]),
                decreases n - i,
            {
                codes.push(effect_code(v[i]));
                i = i + 1;
            }
        },
        None => {},
    }
    let ghost k0 = codes@.len();
    match style.bg {
        Some(c) => match color_code(c, true) {
            Some(code) => codes.push(code),
            None => {},
        },
        None => {},
    }
    let ghost k1 = codes@.len();
    match style.fg {
        Some(c) => match color_code(c, false) {
            Some(code) => codes.push(code),
            None => {},
        },
        None => {},
    }
    let ghost cv = Seq::new(codes@.len(), |i: int| codes@[i]@);
    proof {
        assert(cv =~= want);
    }
    let n = codes.len();
    if n == 0 {
        return None;
    }
    let mut out = String::from_str("\x1b[");
    let mut i: usize = 0;
    while i < n
        invariant
            n == codes@.len(),
            n > 0,
            cv == Seq::new(codes@.len(), |i: int| codes@[i]@),
            0 <= i <= n,
            out@ == "\x1b["@ + join_codes(cv.subrange(0, i as int)),
        decreases n - i,
    {
        proof {
            assert(cv.subrange(0, i + 1).drop_last() =~= cv.subrange(0, i as int));
            if i == 0 {
                assert(cv.subrange(0, 0).len() == 0);
            }
        }
        if i > 0 {
            out = out.concat(";");
        }
        out = out.concat(codes[i]);
        proof {
            if i == 0 {
                assert(out@ =~= "\x1b["@ + join_codes(cv.subrange(0, 1)));
            } else {
                assert(out@ =~= "\x1b["@ + join_codes(cv.subrange(0, i + 1)));
            }
        }
        i = i + 1;
    }
    proof {
        assert(cv.subrange(0, n as int) =~= cv);
    }
    Some(out.concat("m"))
}

/// `a + b`, capped at the largest `usize`.
pub open spec fn capped_add(a: usize, b: u32) -> usize {
    if a + b <= usize::MAX {
        (a + b) as usize
    } else {
        usize::MAX
    }
}

pub open spec fn opt_text(o: Option<Seq<char>>) -> Seq<char> {
    match o {
        Some(s) => s,
        None => Seq::empty(),
    }
}

pub open spec fn ref_view(o: Option<&String>) -> Option<Seq<char>> {
    match o {
        Some(s) => Some(s@),
        None => None,
    }
}

/// A paragraph as text: `indent` spaces, its text, and a line break if it
/// ends its line.
pub open spec fn paragraph_text(p: Paragraph, indent: usize) -> Seq<char> {
    spaces(indent as nat) + p.text@ + (if p.newline {
        "\n"@
    } else {
        Seq::empty()
    })
}

/// A node as text, indented by `indent`, inside a stack whose style is
/// selected by `prev`.
pub open spec fn node_text(n: DomNode, indent: usize, prev: Option<Seq<char>>) -> Seq<char>
    decreases n, 0nat,
{
    match n {
        DomNode::Text(p) => paragraph_text(p, indent),
        DomNode::VStack(l) => stack_text(l, indent, prev),
    }
}

/// A stack as text: when its style selects anything, a reset and that
/// style first and a reset last; its children in between, indented by
/// `indent` plus the stack's indentation; then `prev` selected again.
pub open spec fn stack_text(l: Layout, indent: usize, prev: Option<Seq<char>>) -> Seq<char>
    decreases l, 0nat,
{
    let cur = style_text(l.style);
    (match cur {
        Some(c) => "\x1b[0m"@ + c,
        None => Seq::empty(),
    }) + children_text(l.children@, l.children@.len(), capped_add(indent, l.style.indentation), cur) + (match cur {
        Some(_) => "\x1b[0m"@,
        None => Seq::empty(),
    }) + opt_text(prev)
}

/// The first `k` of `cs` as text, one after another.
pub open spec fn children_text(cs: Seq<DomNode>, k: nat, indent: usize, cur: Option<Seq<char>>) -> Seq<char>
    decreases cs, k,
{
    if k == 0 || k > cs.len() {
        Seq::empty()
    } else {
        children_text(cs, (k - 1) as nat, indent, cur) + node_text(cs[k - 1], indent, cur)
    }
}

/// A paragraph as text: indented by `indent` spaces, then a line break if
/// it ends its line.
pub fn recursive_render_text(dom: &Paragraph, indent: usize) -> (r: String)
    ensures
        r@ == spaces(indent as nat) + dom.text@ + (if dom.newline {
            "\n"@
        } else {
            Seq::empty()
        }),
{
    let out = make_spaces(indent).concat(dom.text.as_str());
    if dom.newline {
        out.concat("\n")
    } else {
        out
    }
}

/// A stack as text; see [`stack_text`].
pub fn recursive_render_vstack(dom: &Layout, indent: usize, prev_style: Option<&String>) -> (r: String)
    ensures
        r@ == stack_text(*dom, indent, ref_view(prev_style)),
    decreases dom,
{
    let cur = render_style(&dom.style);
    let mut out = String::new();
    match &cur {
        Some(code) => {
            out = out.concat("\x1b[0m").concat(code.as_str());
        },
        None => {},
    }
    let inner: usize = if indent <= usize::MAX - dom.style.indentation as usize {
        indent + dom.style.indentation as usize
    } else {
        usize::MAX
    };
    let ghost open = out@;
    let cur_ref = cur.as_ref();
    let ghost cv = ref_view(cur_ref);
    proof {
        assert(children_text(dom.children@, 0, inner, cv) =~= Seq::<char>::empty());
        assert(out@ + children_text(dom.children@, 0, inner, cv) =~= out@);
    }
    let n = dom.children.len();
    let mut i: usize = 0;
    while i < n
        invariant
            n == dom.children@.len(),
            0 <= i <= n,
            cv == ref_view(cur_ref),
            cv == match &cur {
                Some(c) => Some(c@),
                None => None::<Seq<char>>,
            },
            out@ == open + children_text(dom.children@, i as nat, inner, cv),
        decreases n - i,
    {
        proof {
            assert(decreases_to!(dom => dom.children));
            vstd::std_specs::vec::axiom_vec_index_decreases(dom.children, i as int);
        }
        let part = recursive_render_dom(&dom.children[i], inner, cur_ref);
        out = out.concat(part.as_str());
        i = i + 1;
    }
    if cur.is_some() {
        out = out.concat("\x1b[0m");
    }
    let r = match prev_style {
        Some(s) => out.concat(s.as_str()),
        None => out,
    };
    proof {
        assert(r@ =~= stack_text(*dom, indent, ref_view(prev_style)));
    }
    r
}

fn recursive_render_dom(dom: &DomNode, indent: usize, prev_style: Option<&String>) -> (r: String)
    ensures
        r@ == node_text(*dom, indent, ref_view(prev_style)),
    decreases dom,
{
    match dom {
        DomNode::VStack(layout) => recursive_render_vstack(layout, indent, prev_style),
        DomNode::Text(paragraph) => recursive_render_text(paragraph, indent),
    }
}

/// A help tree as terminal text; see [`node_text`].
pub fn render_dom(dom: &DomNode) -> (r: String)
    ensures
        r@ == node_text(*dom, 0, None),
{
    recursive_render_dom(dom, 0, None)
}

} // verus!
