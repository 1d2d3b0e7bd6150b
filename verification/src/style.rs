//! Colors and text styles, and pieces of text that carry a style.
use crate::text::{block_width, block_width_of};
use vstd::prelude::*;

verus! {

/// A color of the terminal.
#[derive(Copy, Clone, PartialEq, Eq, Structural, Debug)]
pub enum Color {
    Black,
    Red,
    Green,
    Yellow,
    Cyan,
    White,
}

/// How a piece of text looks.
#[derive(Copy, Clone, PartialEq, Eq, Structural, Debug)]
pub struct Style {
    /// The color of the text, or the color of the terminal.
    pub foreground: Option<Color>,
    /// The color behind the text, or the color of the terminal.
    pub background: Option<Color>,
    /// Whether the text is bold.
    pub bold: bool,
    /// Whether the text is dimmed.
    pub dimmed: bool,
}

impl Default for Style {
    fn default() -> (r: Self)
        ensures
            r == Style::plain(),
    {
        Style { foreground: None, background: None, bold: false, dimmed: false }
    }
}

impl Color {
    /// The style of text in this color.
    pub fn normal(self) -> (r: Style)
        ensures
            r == (Style { foreground: Some(self), ..Style::plain() }),
    {
        Style { foreground: Some(self), background: None, bold: false, dimmed: false }
    }

    /// The style of bold text in this color.
    pub fn bold(self) -> (r: Style)
        ensures
            r == (Style { foreground: Some(self), bold: true, ..Style::plain() }),
    {
        Style { foreground: Some(self), background: None, bold: true, dimmed: false }
    }

    /// The style of dimmed text in this color.
    pub fn dimmed(self) -> (r: Style)
        ensures
            r == (Style { foreground: Some(self), dimmed: true, ..Style::plain() }),
    {
        Style { foreground: Some(self), background: None, bold: false, dimmed: true }
    }
}

impl Style {
    /// The style of text as the terminal shows it by itself.
    pub open spec fn plain() -> Style {
        Style { foreground: None, background: None, bold: false, dimmed: false }
    }

    /// The style of text as the terminal shows it by itself.
    pub fn new() -> (r: Style)
        ensures
            r == Style::plain(),
    {
        Style { foreground: None, background: None, bold: false, dimmed: false }
    }

    /// The same style, bold.
    pub fn bold(self) -> (r: Style)
        ensures
            r == (Style { bold: true, ..self }),
    {
        Style { bold: true, ..self }
    }

    /// The same style, dimmed.
    pub fn dimmed(self) -> (r: Style)
        ensures
            r == (Style { dimmed: true, ..self }),
    {
        Style { dimmed: true, ..self }
    }

    /// The same style in front of `background`.
    pub fn on(self, background: Color) -> (r: Style)
        ensures
            r == (Style { background: Some(background), ..self }),
    {
        Style { background: Some(background), ..self }
    }

    /// The same style with text in `foreground`.
    pub fn fg(self, foreground: Color) -> (r: Style)
        ensures
            r == (Style { foreground: Some(foreground), ..self }),
    {
        Style { foreground: Some(foreground), ..self }
    }

    /// The same style in front of `background`.
    pub fn bg(self, background: Color) -> (r: Style)
        ensures
            r == (Style { background: Some(background), ..self }),
    {
        Style { background: Some(background), ..self }
    }
}

/// A piece of text with its style.
#[derive(Clone, PartialEq, Eq, Debug)]
pub struct Token {
    pub style: Style,
    pub text: String,
}

/// A piece of text with its style, as a mathematical value.
pub struct TokenView {
    pub style: Style,
    pub text: Seq<char>,
}

impl View for Token {
    type V = TokenView;

    open spec fn view(&self) -> TokenView {
        TokenView { style: self.style, text: self.text@ }
    }
}

/// The tokens of `s` as mathematical values.
pub open spec fn token_views(s: Seq<Token>) -> Seq<TokenView> {
    Seq::new(s.len(), |i: int| s[i]@)
}

/// `text` in the plain style.
pub open spec fn plain(text: Seq<char>) -> TokenView {
    TokenView { style: Style::plain(), text }
}

/// The sum of two widths, as far as sixteen bits hold it: a sum beyond that
/// starts over from zero.
pub open spec fn wrapped(a: int, b: int) -> u16 {
    ((a + b) % 0x1_0000) as u16
}

/// The width of the tokens in terminal columns, without what only sets
/// colors. The count starts over after 65535 columns.
pub open spec fn blocks_of(tokens: Seq<TokenView>) -> u16
    decreases tokens.len(),
{
    if tokens.len() == 0 {
        0
    } else {
        wrapped(blocks_of(tokens.drop_last()) as int, block_width_of(tokens.last().text) as int)
    }
}

impl Token {
    /// `text` in the plain style.
    pub fn plain(text: String) -> (r: Token)
        ensures
            r@ == plain(text@),
    {
        Token { style: Style::new(), text }
    }

    /// `text` in the plain style.
    pub fn from_str(text: &str) -> (r: Token)
        ensures
            r@ == plain(text@),
    {
        Token { style: Style::new(), text: text.to_owned() }
    }

    /// A token with the same style and text.
    pub fn duplicate(&self) -> (r: Token)
        ensures
            r@ == self@,
    {
        Token { style: self.style, text: self.text.clone() }
    }
}

/// The width of the tokens in terminal columns.
pub fn block_count_sans_ansi_codes(tokens: &Vec<Token>) -> (r: u16)
    ensures
        r == blocks_of(token_views(tokens@)),
{
    let ghost all = token_views(tokens@);
    let mut sum: u16 = 0;
    let mut i: usize = 0;
    assert(all.subrange(0, 0) =~= Seq::empty());
    while i < tokens.len()
        invariant
            i <= tokens.len(),
            all == token_views(tokens@),
            sum == blocks_of(all.subrange(0, i as int)),
        decreases tokens.len() - i,
    {
        let ghost upto = all.subrange(0, i + 1);
        assert(upto.drop_last() =~= all.subrange(0, i as int));
        assert(upto.last() == tokens@[i as int]@);
        let width = block_width(tokens[i].text.as_str());
        sum = ((sum as u32 + width as u32) % 0x1_0000) as u16;
        i = i + 1;
    }
    assert(all.subrange(0, tokens.len() as int) =~= all);
    sum
}

/// Something that paints text in a style, or leaves it plain where colors
/// are not wanted.
#[derive(Copy, Clone, PartialEq, Eq, Structural, Debug)]
pub struct Brush {
    may_paint: bool,
    style: Option<Style>,
}

impl Brush {
    /// Whether the brush paints at all.
    pub closed spec fn may_paint(self) -> bool {
        self.may_paint
    }

    /// The style that the brush paints in.
    pub closed spec fn current(self) -> Option<Style> {
        self.style
    }

    /// The style that text gets from the brush.
    pub open spec fn applied(self) -> Style {
        match self.current() {
            Some(style) => if self.may_paint() {
                style
            } else {
                Style::plain()
            },
            None => Style::plain(),
        }
    }

    /// A brush without a style that paints if `colored` is set.
    pub fn new(colored: bool) -> (r: Brush)
        ensures
            r.may_paint() == colored,
            r.current().is_none(),
    {
        Brush { may_paint: colored, style: None }
    }

    /// Dips the brush into `style`.
    pub fn style(&mut self, style: Style)
        ensures
            final(self).may_paint() == old(self).may_paint(),
            final(self).current() == Some(style),
    {
        self.style = Some(style);
    }

    /// `text` in the style of the brush, or plain if the brush does not
    /// paint.
    pub fn paint(&self, text: String) -> (r: Token)
        ensures
            r@ == (TokenView { style: self.applied(), text: text@ }),
    {
        match (self.may_paint, self.style) {
            (true, Some(style)) => Token { style, text },
            _ => Token { style: Style::new(), text },
        }
    }
}

} // verus!
