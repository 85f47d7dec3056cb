use vstd::prelude::*;

use crate::tokens::{Token, TokenModel};

verus! {

/// A statement.
#[derive(Debug)]
pub enum AST {
    Function { name: Token, parameters: Parameters, block: Block },
    Command { name: Token, args: Vec<Expression> },
    Call { name: Token },
}

/// A parenthesised list of parameter names.
#[derive(Debug, Clone)]
pub struct Parameters {
    pub left: Token,
    pub variables: Vec<Token>,
    pub right: Token,
}

/// A brace-delimited sequence of statements.
#[derive(Debug)]
pub struct Block {
    pub left: Token,
    pub stmts: Vec<AST>,
    pub right: Token,
}

/// An argument of a command.
#[derive(Debug, Clone)]
pub enum Expression {
    Variable(Token),
    Ident(Token),
    Str(Token),
    Int(Token),
    Path(Token),
    Symbol(Token),
}

pub enum ExprModel {
    Variable(TokenModel),
    Ident(TokenModel),
    Str(TokenModel),
    Int(TokenModel),
    Path(TokenModel),
    Symbol(TokenModel),
}

impl View for Expression {
    type V = ExprModel;

    open spec fn view(&self) -> ExprModel {
        match self {
            Expression::Variable(t) => ExprModel::Variable(t@),
            Expression::Ident(t) => ExprModel::Ident(t@),
            Expression::Str(t) => ExprModel::Str(t@),
            Expression::Int(t) => ExprModel::Int(t@),
            Expression::Path(t) => ExprModel::Path(t@),
            Expression::Symbol(t) => ExprModel::Symbol(t@),
        }
    }
}

pub struct ParamsModel {
    pub left: TokenModel,
    pub variables: Seq<TokenModel>,
    pub right: TokenModel,
}

pub struct BlockModel {
    pub left: TokenModel,
    pub stmts: Seq<AstModel>,
    pub right: TokenModel,
}

/// A statement as a mathematical value.
pub enum AstModel {
    Function { name: TokenModel, parameters: ParamsModel, block: BlockModel },
    Command { name: TokenModel, args: Seq<ExprModel> },
    Call { name: TokenModel },
}

pub open spec fn tokens_view(v: Seq<Token>) -> Seq<TokenModel> {
    v.map_values(|t: Token| t@)
}

pub open spec fn exprs_view(v: Seq<Expression>) -> Seq<ExprModel> {
    v.map_values(|e: Expression| e@)
}

pub open spec fn params_view(p: Parameters) -> ParamsModel {
    ParamsModel { left: p.left@, variables: tokens_view(p.variables@), right: p.right@ }
}

pub open spec fn ast_view(a: AST) -> AstModel
    decreases a,
{
    match a {
        AST::Function { name, parameters, block } => AstModel::Function {
            name: name@,
            parameters: params_view(parameters),
            block: BlockModel {
                left: block.left@,
                stmts: stmts_view(block.stmts@),
                right: block.right@,
            },
        },
        AST::Command { name, args } => AstModel::Command { name: name@, args: exprs_view(args@) },
        AST::Call { name } => AstModel::Call { name: name@ },
    }
}

pub open spec fn stmts_view(s: Seq<AST>) -> Seq<AstModel>
    decreases s,
{
    if s.len() == 0 {
        seq![]
    } else {
        stmts_view(s.subrange(0, s.len() - 1)).push(ast_view(s[s.len() - 1]))
    }
}

pub open spec fn block_view(b: Block) -> BlockModel {
    BlockModel { left: b.left@, stmts: stmts_view(b.stmts@), right: b.right@ }
}

pub proof fn lemma_stmts_push(s: Seq<AST>, a: AST)
    ensures
        stmts_view(s.push(a)) == stmts_view(s).push(ast_view(a)),
{
    assert(s.push(a).subrange(0, s.len() as int) =~= s);
}

pub proof fn lemma_stmts_len(s: Seq<AST>)
    ensures
        stmts_view(s).len() == s.len(),
    decreases s.len(),
{
    if s.len() > 0 {
        lemma_stmts_len(s.subrange(0, s.len() - 1));
    }
}

} // verus!
