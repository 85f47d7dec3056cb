use vstd::prelude::*;

use crate::ast::{ast_view, stmts_view, AstModel, ExprModel, Expression, AST};
use crate::checker::{find_command, first_match};
use crate::state::{ShellCommand, ShellState};
use crate::tokens::{kind_text, TokenModel};

verus! {

/// The token an argument was made from.
pub open spec fn expr_token(e: ExprModel) -> TokenModel {
    match e {
        ExprModel::Variable(t) => t,
        ExprModel::Ident(t) => t,
        ExprModel::Str(t) => t,
        ExprModel::Int(t) => t,
        ExprModel::Path(t) => t,
        ExprModel::Symbol(t) => t,
    }
}

/// The literal text of an argument.
pub open spec fn expr_text(e: ExprModel) -> Seq<char> {
    kind_text(expr_token(e).kind)
}

pub open spec fn arg_texts(args: Seq<ExprModel>) -> Seq<Seq<char>> {
    args.map_values(|e: ExprModel| expr_text(e))
}

impl Expression {
    /// The literal text of the argument.
    pub fn text(&self) -> (r: String)
        ensures
            r@ == expr_text(self@),
    {
        match self {
            Expression::Variable(t) => t.ty.text(),
            Expression::Ident(t) => t.ty.text(),
            Expression::Str(t) => t.ty.text(),
            Expression::Int(t) => t.ty.text(),
            Expression::Path(t) => t.ty.text(),
            Expression::Symbol(t) => t.ty.text(),
        }
    }
}

/// A registered command to carry out, by its position among the registered commands, with
/// the literal texts of its arguments.
pub struct Invocation {
    pub command: usize,
    pub args: Vec<String>,
}

pub open spec fn strings_view(v: Seq<String>) -> Seq<Seq<char>> {
    v.map_values(|s: String| s@)
}

pub open spec fn invocation_view(i: Invocation) -> (int, Seq<Seq<char>>) {
    (i.command as int, strings_view(i.args@))
}

/// The commands that the statements `asts` run, in order: each command statement whose name
/// is registered runs the first command of that name; other statements run nothing.
pub open spec fn plan(cmds: Seq<ShellCommand>, asts: Seq<AstModel>) -> Seq<(int, Seq<Seq<char>>)>
    decreases asts.len(),
{
    if asts.len() == 0 {
        seq![]
    } else {
        let rest = plan(cmds, asts.subrange(0, asts.len() - 1));
        match asts[asts.len() - 1] {
            AstModel::Command { name, args } => match first_match(cmds, kind_text(name.kind), 0) {
                Some(i) => rest.push((i, arg_texts(args))),
                None => rest,
            },
            _ => rest,
        }
    }
}

/// The invocations that running the statements `asts` on `state` takes, in order. Names
/// that are not registered are passed over.
pub fn execute(state: &ShellState, asts: &Vec<AST>) -> (r: Vec<Invocation>)
    ensures
        r@.map_values(|i: Invocation| invocation_view(i)) == plan(state.commands@, stmts_view(asts@)),
{
    let mut r: Vec<Invocation> = Vec::new();
    let n = asts.len();
    let mut i: usize = 0;
    while i < n
        invariant
            i <= n == asts@.len(),
            r@.map_values(|i: Invocation| invocation_view(i)) == plan(
                state.commands@,
                stmts_view(asts@.subrange(0, i as int)),
            ),
        decreases n - i,
    {
        let ghost before = r@;
        let ghost pre = asts@.subrange(0, i as int);
        proof {
            assert(asts@.subrange(0, i + 1).subrange(0, i as int) =~= pre);
            assert(stmts_view(asts@.subrange(0, i + 1)) == stmts_view(pre).push(ast_view(asts@[i as int])));
            crate::ast::lemma_stmts_len(pre);
            assert(stmts_view(asts@.subrange(0, i + 1)).subrange(0, i as int) =~= stmts_view(pre));
        }
        match &asts[i] {
            AST::Command { name, args } => {
                let text = name.ty.text();
                match find_command(&state.commands, text.as_str()) {
                    Some(c) => {
                        let mut texts: Vec<String> = Vec::new();
                        let m = args.len();
                        let mut j: usize = 0;
                        while j < m
                            invariant
                                j <= m == args@.len(),
                                strings_view(texts@) == arg_texts(
                                    crate::ast::exprs_view(args@),
                                ).subrange(0, j as int),
                            decreases m - j,
                        {
                            let t = args[j].text();
                            let ghost old_texts = texts@;
                            texts.push(t);
                            assert(crate::ast::exprs_view(args@)[j as int] == args@[j as int]@);
                            assert(strings_view(texts@) =~= strings_view(old_texts).push(t@));
                            j = j + 1;
                            assert(strings_view(texts@) =~= arg_texts(
                                crate::ast::exprs_view(args@),
                            ).subrange(0, j as int));
                        }
                        assert(strings_view(texts@) =~= arg_texts(crate::ast::exprs_view(args@)));
                        r.push(Invocation { command: c, args: texts });
                        assert(r@.map_values(|i: Invocation| invocation_view(i)) =~= before.map_values(
                            |i: Invocation| invocation_view(i),
                        ).push((c as int, arg_texts(crate::ast::exprs_view(args@)))));
                    },
                    None => {},
                }
            },
            _ => {},
        }
        i = i + 1;
    }
    assert(asts@.subrange(0, n as int) =~= asts@);
    r
}

} // verus!
