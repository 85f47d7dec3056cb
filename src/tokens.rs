use std::ops::Range;
use vstd::prelude::*;

use crate::chars::{push_char, string_of_char};

verus! {

/// Reserved words.
#[derive(Debug, Clone, Copy, PartialEq, Eq, Structural)]
pub enum Kwd {
    Function,
}

/// The text of a reserved word.
pub open spec fn kwd_text(k: Kwd) -> Seq<char> {
    match k {
        Kwd::Function => seq!['f', 'u', 'n', 'c', 't', 'i', 'o', 'n'],
    }
}

/// The reserved word whose text is exactly `s`, if any.
pub open spec fn kwd_of(s: Seq<char>) -> Option<Kwd> {
    if s == kwd_text(Kwd::Function) {
        Some(Kwd::Function)
    } else {
        None
    }
}

impl Kwd {
    pub fn new(s: &str) -> (r: Option<Kwd>)
        ensures
            r == kwd_of(s@),
    {
        let w = "function";
        proof {
            reveal_strlit("function");
        }
        assert(w@ =~= kwd_text(Kwd::Function));
        let n = s.unicode_len();
        if n != 8 {
            return None;
        }
        let mut i: usize = 0;
        while i < 8
            invariant
                i <= 8,
                n == 8 == s@.len(),
                w@ == kwd_text(Kwd::Function),
                forall|j: int| 0 <= j < i ==> s@[j] == w@[j],
            decreases 8 - i,
        {
            if s.get_char(i) != w.get_char(i) {
                return None;
            }
            i = i + 1;
        }
        assert(s@ =~= w@);
        Some(Kwd::Function)
    }

    pub fn text(&self) -> (r: String)
        ensures
            r@ == kwd_text(*self),
    {
        let mut r = String::new();
        push_char(&mut r, 'f');
        push_char(&mut r, 'u');
        push_char(&mut r, 'n');
        push_char(&mut r, 'c');
        push_char(&mut r, 't');
        push_char(&mut r, 'i');
        push_char(&mut r, 'o');
        push_char(&mut r, 'n');
        assert(r@ =~= kwd_text(*self));
        r
    }
}

/// The kinds of token, with the text they carry.
#[derive(Debug, Clone, PartialEq)]
pub enum Tokens {
    Ident(String),
    Keyword(Kwd),
    Symbol(char),
    Str(String),
    Path(String),
    Int(String),
    Space(char),
    And,
    Or,
    PipeLine,
    Background,
    NewLine,
    EOF,
}

/// What a token kind is, with its text as a sequence of characters.
pub enum Kind {
    Ident(Seq<char>),
    Keyword(Kwd),
    Symbol(char),
    Str(Seq<char>),
    Path(Seq<char>),
    Int(Seq<char>),
    Space(char),
    And,
    Or,
    PipeLine,
    Background,
    NewLine,
    EOF,
}

impl View for Tokens {
    type V = Kind;

    open spec fn view(&self) -> Kind {
        match self {
            Tokens::Ident(s) => Kind::Ident(s@),
            Tokens::Keyword(k) => Kind::Keyword(*k),
            Tokens::Symbol(c) => Kind::Symbol(*c),
            Tokens::Str(s) => Kind::Str(s@),
            Tokens::Path(s) => Kind::Path(s@),
            Tokens::Int(s) => Kind::Int(s@),
            Tokens::Space(c) => Kind::Space(*c),
            Tokens::And => Kind::And,
            Tokens::Or => Kind::Or,
            Tokens::PipeLine => Kind::PipeLine,
            Tokens::Background => Kind::Background,
            Tokens::NewLine => Kind::NewLine,
            Tokens::EOF => Kind::EOF,
        }
    }
}

/// How a token kind is written out as text.
pub open spec fn kind_text(k: Kind) -> Seq<char> {
    match k {
        Kind::Ident(s) => s,
        Kind::Keyword(w) => kwd_text(w),
        Kind::Symbol(c) => seq![c],
        Kind::Str(s) => s,
        Kind::Path(s) => s,
        Kind::Int(s) => s,
        Kind::Space(c) => seq![c],
        Kind::And => seq!['&', '&'],
        Kind::Or => seq!['|'],
        Kind::PipeLine => seq!['|', '|'],
        Kind::Background => seq!['&'],
        Kind::NewLine => seq!['\n'],
        Kind::EOF => seq![],
    }
}

/// The colours and weights that highlighted text is drawn with.
#[derive(Debug, Clone, Copy, PartialEq, Eq, Structural)]
pub enum Style {
    /// No styling.
    Plain,
    /// Identifiers and numbers.
    Name,
    /// String literals.
    Literal,
    /// Reserved words, drawn bold.
    Keyword,
    /// Punctuation symbols.
    Symbol,
    /// The place of an error.
    Error,
    /// Text after an unterminated construct, and the user name in the prompt.
    Secondary,
    /// The working directory in the prompt.
    Location,
}

/// A fragment of highlighted text.
#[derive(Debug, Clone, PartialEq)]
pub struct Styled {
    pub text: String,
    pub style: Style,
}

/// A fragment of highlighted text, as a sequence of characters and its style.
pub struct StyledModel {
    pub text: Seq<char>,
    pub style: Style,
}

impl View for Styled {
    type V = StyledModel;

    open spec fn view(&self) -> StyledModel {
        StyledModel { text: self.text@, style: self.style }
    }
}

/// The default style of a token kind.
pub open spec fn default_style(k: Kind) -> Style {
    match k {
        Kind::Ident(_) | Kind::Int(_) => Style::Name,
        Kind::Str(_) => Style::Literal,
        Kind::Keyword(_) => Style::Keyword,
        Kind::Symbol(_) => Style::Symbol,
        _ => Style::Plain,
    }
}

/// A token kind written out in its default style.
pub open spec fn highlight(k: Kind) -> StyledModel {
    StyledModel { text: kind_text(k), style: default_style(k) }
}

impl Tokens {
    /// The text of the token.
    pub fn text(&self) -> (r: String)
        ensures
            r@ == kind_text(self@),
    {
        match self {
            Tokens::Ident(s) => s.clone(),
            Tokens::Keyword(k) => k.text(),
            Tokens::Symbol(c) => string_of_char(*c),
            Tokens::Str(s) => s.clone(),
            Tokens::Path(s) => s.clone(),
            Tokens::Int(s) => s.clone(),
            Tokens::Space(c) => string_of_char(*c),
            Tokens::And => {
                let mut r = string_of_char('&');
                push_char(&mut r, '&');
                assert(r@ =~= seq!['&', '&']);
                r
            },
            Tokens::Or => string_of_char('|'),
            Tokens::PipeLine => {
                let mut r = string_of_char('|');
                push_char(&mut r, '|');
                assert(r@ =~= seq!['|', '|']);
                r
            },
            Tokens::Background => string_of_char('&'),
            Tokens::NewLine => string_of_char('\n'),
            Tokens::EOF => String::new(),
        }
    }

    /// The token in its default style.
    pub fn default_highlighter(&self) -> (r: Styled)
        ensures
            r@ == highlight(self@),
    {
        let style = match self {
            Tokens::Ident(_) | Tokens::Int(_) => Style::Name,
            Tokens::Str(_) => Style::Literal,
            Tokens::Keyword(_) => Style::Keyword,
            Tokens::Symbol(_) => Style::Symbol,
            _ => Style::Plain,
        };
        Styled { text: self.text(), style }
    }

    /// The token in the given style.
    pub fn highlighter(&self, style: Style) -> (r: Styled)
        ensures
            r@ == (StyledModel { text: kind_text(self@), style }),
    {
        Styled { text: self.text(), style }
    }
}

/// A token: its kind, its span, and its ordinal among the items the lexer has produced.
/// A span is a half-open range of character positions in the input: a symbol covers one
/// position, whitespace none, and the end-of-input token sits one past the last character.
#[derive(Debug)]
pub struct Token {
    pub ty: Tokens,
    pub span: Range<usize>,
    pub index: usize,
}

/// A token as a mathematical value.
pub struct TokenModel {
    pub kind: Kind,
    pub start: int,
    pub end: int,
    pub index: int,
}

impl View for Token {
    type V = TokenModel;

    open spec fn view(&self) -> TokenModel {
        TokenModel {
            kind: self.ty@,
            start: self.span.start as int,
            end: self.span.end as int,
            index: self.index as int,
        }
    }
}

impl Clone for Token {
    fn clone(&self) -> Self {
        Token {
            ty: self.ty.clone(),
            span: Range { start: self.span.start, end: self.span.end },
            index: self.index,
        }
    }
}

impl Token {
    pub fn new(ty: Tokens, span: Range<usize>, index: usize) -> (r: Token)
        ensures
            r.ty == ty,
            r.span == span,
            r.index == index,
    {
        Token { ty, span, index }
    }

    /// Whether the token is of kind `ty`, text included.
    pub fn eq(&self, ty: Tokens) -> (r: bool)
        ensures
            r == (self.ty@ == ty@),
    {
        match &self.ty {
            Tokens::Ident(a) => match &ty {
                Tokens::Ident(b) => *a == *b,
                _ => false,
            },
            Tokens::Keyword(Kwd::Function) => match &ty {
                Tokens::Keyword(Kwd::Function) => true,
                _ => false,
            },
            Tokens::Symbol(a) => match &ty {
                Tokens::Symbol(b) => *a == *b,
                _ => false,
            },
            Tokens::Str(a) => match &ty {
                Tokens::Str(b) => *a == *b,
                _ => false,
            },
            Tokens::Path(a) => match &ty {
                Tokens::Path(b) => *a == *b,
                _ => false,
            },
            Tokens::Int(a) => match &ty {
                Tokens::Int(b) => *a == *b,
                _ => false,
            },
            Tokens::Space(a) => match &ty {
                Tokens::Space(b) => *a == *b,
                _ => false,
            },
            Tokens::And => matches!(ty, Tokens::And),
            Tokens::Or => matches!(ty, Tokens::Or),
            Tokens::PipeLine => matches!(ty, Tokens::PipeLine),
            Tokens::Background => matches!(ty, Tokens::Background),
            Tokens::NewLine => matches!(ty, Tokens::NewLine),
            Tokens::EOF => matches!(ty, Tokens::EOF),
        }
    }
}

} // verus!
