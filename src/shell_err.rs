use std::ops::Range;
use vstd::prelude::*;

use crate::tokens::{Token, TokenModel};

verus! {

/// Errors of the lexer, the parser and the checker.
#[derive(Debug, PartialEq)]
pub enum ShellErr {
    /// A malformed lexeme or an unexpected token, with the positions it covers.
    Syntax(Range<usize>, String),
    /// A delimited construct that was never closed: the opening delimiter's span and
    /// ordinal.
    Unterminated(Range<usize>, usize, String),
    /// A token was required but the input had none left.
    EOF,
    /// A command name that names no known command, with its token's ordinal.
    UnknownCommand(usize, String),
}

impl Clone for ShellErr {
    fn clone(&self) -> Self {
        match self {
            ShellErr::Syntax(r, m) => ShellErr::Syntax(Range { start: r.start, end: r.end }, m.clone()),
            ShellErr::Unterminated(r, i, m) => ShellErr::Unterminated(
                Range { start: r.start, end: r.end },
                *i,
                m.clone(),
            ),
            ShellErr::EOF => ShellErr::EOF,
            ShellErr::UnknownCommand(i, m) => ShellErr::UnknownCommand(*i, m.clone()),
        }
    }
}

/// An error as a mathematical value.
pub enum ErrModel {
    Syntax(int, int, Seq<char>),
    Unterminated(int, int, int, Seq<char>),
    EOF,
    UnknownCommand(int, Seq<char>),
}

impl View for ShellErr {
    type V = ErrModel;

    open spec fn view(&self) -> ErrModel {
        match self {
            ShellErr::Syntax(r, m) => ErrModel::Syntax(r.start as int, r.end as int, m@),
            ShellErr::Unterminated(r, i, m) => ErrModel::Unterminated(
                r.start as int,
                r.end as int,
                *i as int,
                m@,
            ),
            ShellErr::EOF => ErrModel::EOF,
            ShellErr::UnknownCommand(i, m) => ErrModel::UnknownCommand(*i as int, m@),
        }
    }
}

/// One item of a token stream: a token or an error.
pub type Item = Result<TokenModel, ErrModel>;

pub open spec fn item_view(r: Result<Token, ShellErr>) -> Item {
    match r {
        Ok(t) => Ok(t@),
        Err(e) => Err(e@),
    }
}

/// An owned copy of a message text.
pub fn message(s: &str) -> (r: String)
    ensures
        r@ == s@,
{
    broadcast use vstd::string::to_string_from_display_ensures_for_str;

    s.to_string()
}

} // verus!
