use std::ops::Range;
use vstd::prelude::*;

use crate::ast::{
    ast_view, block_view, exprs_view, lemma_stmts_push, params_view, stmts_view, tokens_view, AST,
    AstModel, Block, BlockModel, ExprModel, Expression, ParamsModel, Parameters,
};
use crate::grammar::{
    block_loop, block_spec, command_spec, drain_spec, eat_spec, expects, expression_spec,
    function_spec, lemma_eat, lemma_expression, lemma_params, lemma_statement, lemma_ws,
    next_is, params_loop, params_spec, parse_spec, statement_spec, ws_spec, Expect, PState,
};
use crate::lexer::{lexer_rest, lexer_wf, Lexer};
use crate::shell_err::{item_view, message, ErrModel, Item, ShellErr};
use crate::tokens::{highlight, Kind, Kwd, Style, Styled, StyledModel, Token, TokenModel, Tokens};

verus! {

pub open spec fn out_view(v: Seq<Styled>) -> Seq<StyledModel> {
    v.map_values(|s: Styled| s@)
}

pub open spec fn expr_res(r: Result<Expression, ShellErr>) -> Result<ExprModel, ErrModel> {
    match r {
        Ok(x) => Ok(x@),
        Err(e) => Err(e@),
    }
}

pub open spec fn ast_res(r: Result<AST, ShellErr>) -> Result<AstModel, ErrModel> {
    match r {
        Ok(a) => Ok(ast_view(a)),
        Err(e) => Err(e@),
    }
}

pub open spec fn opt_ast_res(r: Result<Option<AST>, ShellErr>) -> Result<Option<AstModel>, ErrModel> {
    match r {
        Ok(Some(a)) => Ok(Some(ast_view(a))),
        Ok(None) => Ok(None),
        Err(e) => Err(e@),
    }
}

pub open spec fn params_res(r: Result<Parameters, ShellErr>) -> Result<ParamsModel, ErrModel> {
    match r {
        Ok(p) => Ok(params_view(p)),
        Err(e) => Err(e@),
    }
}

pub open spec fn block_res(r: Result<Block, ShellErr>) -> Result<BlockModel, ErrModel> {
    match r {
        Ok(b) => Ok(block_view(b)),
        Err(e) => Err(e@),
    }
}

/// Parses a token stream one statement at a time, and writes out every token it consumes,
/// highlighted.
pub struct Parser {
    lexer: Lexer,
    ahead: Option<Result<Token, ShellErr>>,
    pub output: Vec<Styled>,
    items: Ghost<Seq<Item>>,
    k: Ghost<int>,
}

fn token_expected(e: Expect, t: &Tokens) -> (r: bool)
    ensures
        r == expects(e, t@),
{
    match e {
        Expect::Ident => matches!(t, Tokens::Ident(_)),
        Expect::Symbol(c) => match t {
            Tokens::Symbol(d) => *d == c,
            _ => false,
        },
    }
}

impl Parser {
    /// The items of the stream, from the first that this parser reads.
    pub closed spec fn items(&self) -> Seq<Item> {
        self.items@
    }

    /// How many items of the stream this parser has consumed.
    pub closed spec fn consumed(&self) -> int {
        self.k@
    }

    /// Where the parse stands: the items consumed and the output written.
    pub closed spec fn state(&self) -> PState {
        PState { k: self.k@, out: out_view(self.output@) }
    }

    /// The highlighted output written so far.
    pub fn output(&self) -> (r: &Vec<Styled>)
        ensures
            out_view(r@) == self.state().out,
    {
        &self.output
    }

    pub closed spec fn wf(&self) -> bool {
        &&& lexer_wf(self.lexer@)
        &&& 0 <= self.k@ <= self.items@.len()
        &&& match self.ahead {
            Some(it) => seq![item_view(it)] + lexer_rest(self.lexer@) == self.items@.subrange(
                self.k@,
                self.items@.len() as int,
            ),
            None => self.lexer@.done && self.k@ == self.items@.len(),
        }
    }

    pub fn new(lexer: Lexer) -> (r: Parser)
        requires
            lexer_wf(lexer@),
        ensures
            r.wf(),
            r.items() == lexer_rest(lexer@),
            r.state() == (PState { k: 0, out: seq![] }),
    {
        let ghost rest = lexer_rest(lexer@);
        let mut lexer = lexer;
        let ahead = lexer.next();
        let p = Parser { lexer, ahead, output: Vec::new(), items: Ghost(rest), k: Ghost(0) };
        assert(rest.subrange(0, rest.len() as int) =~= rest);
        assert(out_view(p.output@) =~= seq![]);
        p
    }

    /// Takes the next item of the stream.
    fn advance(&mut self) -> (r: Option<Result<Token, ShellErr>>)
        requires
            old(self).wf(),
        ensures
            final(self).wf(),
            final(self).items() == old(self).items(),
            final(self).output == old(self).output,
            old(self).consumed() < old(self).items().len() ==> (r matches Some(it) && item_view(it)
                == old(self).items()[old(self).consumed()] && final(self).consumed() == old(
                self,
            ).consumed() + 1),
            old(self).consumed() >= old(self).items().len() ==> (r is None && final(self).consumed()
                == old(self).consumed()),
    {
        let ghost items = self.items@;
        let ghost k = self.k@;
        let ghost lex0 = self.lexer@;
        let mut nxt = self.lexer.next();
        std::mem::swap(&mut self.ahead, &mut nxt);
        proof {
            let tail = items.subrange(k, items.len() as int);
            if nxt is Some {
                let it = nxt->Some_0;
                assert(seq![item_view(it)] + lexer_rest(lex0) == tail);
                assert(tail.len() == items.len() - k);
                assert(tail[0] == item_view(it));
                assert(items[k] == tail[0]);
                assert(tail.drop_first() =~= items.subrange(k + 1, items.len() as int));
                if self.ahead is Some {
                    assert(seq![item_view(it)] + lexer_rest(lex0) == tail);
                    assert(tail.drop_first() =~= lexer_rest(lex0));
                } else {
                    assert(tail.len() == 1);
                }
            }
        }
        if nxt.is_some() {
            self.k = Ghost(self.k@ + 1);
        }
        nxt
    }

    /// The next item, when it is a token.
    fn peek_token(&self) -> (r: Option<&Token>)
        requires
            self.wf(),
        ensures
            match r {
                Some(t) => 0 <= self.consumed() < self.items().len() && self.items()[self.consumed()]
                    == Ok::<TokenModel, ErrModel>(t@),
                None => !(0 <= self.consumed() < self.items().len() && self.items()[self.consumed()] is Ok),
            },
    {
        proof {
            let tail = self.items@.subrange(self.k@, self.items@.len() as int);
            if self.ahead is Some {
                assert(tail.len() == self.items@.len() - self.k@);
                assert(tail[0] == item_view(self.ahead->Some_0));
                assert(self.items@[self.k@] == tail[0]);
            }
        }
        match &self.ahead {
            Some(Ok(t)) => Some(t),
            _ => None,
        }
    }

    fn output_str(&mut self, s: Styled)
        requires
            old(self).wf(),
        ensures
            final(self).wf(),
            final(self).items() == old(self).items(),
            final(self).consumed() == old(self).consumed(),
            out_view(final(self).output@) == out_view(old(self).output@).push(s@),
    {
        let ghost v = self.output@;
        self.output.push(s);
        assert(out_view(v.push(s)) =~= out_view(v).push(s@));
    }

    /// Consumes the space tokens that come next, writing each out.
    fn eat_whitespace(&mut self)
        requires
            old(self).wf(),
        ensures
            final(self).wf(),
            final(self).items() == old(self).items(),
            final(self).state() == ws_spec(old(self).items(), old(self).state()),
    {
        let ghost items = self.items();
        let ghost st0 = self.state();
        loop
            invariant
                self.wf(),
                self.items() == items,
                ws_spec(items, self.state()) == ws_spec(items, st0),
                items == old(self).items(),
                st0 == old(self).state(),
            decreases items.len() - self.consumed(),
        {
            let s = match self.peek_token() {
                Some(t) => match t.ty {
                    Tokens::Space(_) => Some(t.ty.default_highlighter()),
                    _ => None,
                },
                None => None,
            };
            match s {
                Some(s) => {
                    self.advance();
                    self.output_str(s);
                },
                None => {
                    return ;
                },
            }
        }
    }

    /// Skips spaces, then takes the next token if `expect` accepts it, writing it out in
    /// `style` or else in its default style. Another token fails with a syntax error that
    /// carries `err_message` and the token's span; an exhausted stream with the end-of-input
    /// error.
    fn eat_token_eq(&mut self, expect: Expect, err_message: &str, style: Option<Style>) -> (r:
        Result<Token, ShellErr>)
        requires
            old(self).wf(),
        ensures
            final(self).wf(),
            final(self).items() == old(self).items(),
            (item_view(r), final(self).state()) == eat_spec(
                old(self).items(),
                old(self).state(),
                expect,
                err_message@,
                style,
            ),
    {
        self.eat_whitespace();
        match self.advance() {
            None => Err(ShellErr::EOF),
            Some(Err(e)) => Err(e),
            Some(Ok(token)) => {
                if token_expected(expect, &token.ty) {
                    let out = match style {
                        Some(y) => token.ty.highlighter(y),
                        None => token.ty.default_highlighter(),
                    };
                    self.output_str(out);
                    Ok(token)
                } else {
                    Err(
                        ShellErr::Syntax(
                            Range { start: token.span.start, end: token.span.end },
                            message(err_message),
                        ),
                    )
                }
            },
        }
    }

    fn eat_token_eq_default(&mut self, expect: Expect, err_message: &str) -> (r: Result<
        Token,
        ShellErr,
    >)
        requires
            old(self).wf(),
        ensures
            final(self).wf(),
            final(self).items() == old(self).items(),
            (item_view(r), final(self).state()) == eat_spec(
                old(self).items(),
                old(self).state(),
                expect,
                err_message@,
                None,
            ),
    {
        self.eat_token_eq(expect, err_message, None)
    }

    /// One argument of a command.
    fn expressions(&mut self) -> (r: Result<Expression, ShellErr>)
        requires
            old(self).wf(),
        ensures
            final(self).wf(),
            final(self).items() == old(self).items(),
            (expr_res(r), final(self).state()) == expression_spec(
                old(self).items(),
                old(self).state(),
            ),
    {
        match self.advance() {
            None => Err(ShellErr::EOF),
            Some(Err(e)) => Err(e),
            Some(Ok(token)) => {
                self.output_str(token.ty.default_highlighter());
                match token.ty {
                    Tokens::Ident(_) => Ok(Expression::Ident(token)),
                    Tokens::Str(_) => Ok(Expression::Str(token)),
                    Tokens::Int(_) => Ok(Expression::Int(token)),
                    Tokens::Path(_) => Ok(Expression::Path(token)),
                    Tokens::Symbol(c) => {
                        if c == '$' {
                            match self.eat_token_eq_default(Expect::Ident, "Variable name error") {
                                Ok(name) => Ok(Expression::Variable(name)),
                                Err(e) => Err(e),
                            }
                        } else {
                            Ok(Expression::Symbol(token))
                        }
                    },
                    _ => Err(
                        ShellErr::Syntax(
                            Range { start: token.span.start, end: token.span.end },
                            message("Not a expression"),
                        ),
                    ),
                }
            },
        }
    }

    /// Consumes the next item and writes it out when it is a token of kind `kind`.
    fn take_if(&mut self, kind: Tokens) -> (r: Option<Token>)
        requires
            old(self).wf(),
        ensures
            final(self).wf(),
            final(self).items() == old(self).items(),
            next_is(old(self).items(), old(self).state(), kind@) ==> (r matches Some(t) && Ok::<
                TokenModel,
                ErrModel,
            >(t@) == old(self).items()[old(self).state().k] && final(self).state() == crate::grammar::consume(
                old(self).state(),
                highlight(kind@),
            )),
            !next_is(old(self).items(), old(self).state(), kind@) ==> (r is None && final(self).state()
                == old(self).state()),
    {
        let hit = match self.peek_token() {
            Some(t) => t.eq(kind),
            None => false,
        };
        if !hit {
            return None;
        }
        match self.advance() {
            Some(Ok(t)) => {
                self.output_str(t.ty.default_highlighter());
                Some(t)
            },
            _ => None,
        }
    }

    /// Whether the next item is a token of kind `kind`.
    fn peek_is(&self, kind: Tokens) -> (r: bool)
        requires
            self.wf(),
        ensures
            r == next_is(self.items(), self.state(), kind@),
    {
        match self.peek_token() {
            Some(t) => t.eq(kind),
            None => false,
        }
    }

    /// A top-level command named `name`: its arguments up to a `;` or a newline, which is
    /// consumed, or the end-of-input token, which is left in the stream.
    pub fn command(&mut self, name: Token) -> (r: Result<AST, ShellErr>)
        requires
            old(self).wf(),
        ensures
            final(self).wf(),
            final(self).items() == old(self).items(),
            (ast_res(r), final(self).state()) == command_spec(
                old(self).items(),
                old(self).state(),
                name@,
                seq![],
                false,
            ),
    {
        let args: Vec<Expression> = Vec::new();
        assert(exprs_view(args@) =~= seq![]);
        self.command_rest(name, args, false)
    }

    /// The arguments of the command `name` after `args`; inside a block (`nested`) a `}`
    /// also ends them and is left in the stream.
    #[verifier::loop_isolation(false)]
    fn command_rest(&mut self, name: Token, args: Vec<Expression>, nested: bool) -> (r: Result<
        AST,
        ShellErr,
    >)
        requires
            old(self).wf(),
        ensures
            final(self).wf(),
            final(self).items() == old(self).items(),
            (ast_res(r), final(self).state()) == command_spec(
                old(self).items(),
                old(self).state(),
                name@,
                exprs_view(args@),
                nested,
            ),
    {
        let ghost items = self.items();
        let ghost st0 = self.state();
        let ghost nm = name@;
        let ghost a0 = exprs_view(args@);
        let mut args = args;
        loop
            invariant
                self.wf(),
                self.items() == items,
                items == old(self).items(),
                st0 == old(self).state(),
                name@ == nm,
                command_spec(items, self.state(), nm, exprs_view(args@), nested) == command_spec(
                    items,
                    st0,
                    nm,
                    a0,
                    nested,
                ),
            decreases items.len() - self.state().k,
        {
            let ghost cur = self.state();
            proof {
                lemma_ws(items, cur);
            }
            self.eat_whitespace();
            if self.peek_is(Tokens::EOF) {
                return Ok(AST::Command { name, args });
            }
            if nested && self.peek_is(Tokens::Symbol('}')) {
                return Ok(AST::Command { name, args });
            }
            if self.take_if(Tokens::Symbol(';')).is_some() {
                return Ok(AST::Command { name, args });
            }
            if self.take_if(Tokens::NewLine).is_some() {
                return Ok(AST::Command { name, args });
            }
            proof {
                lemma_expression(items, self.state());
            }
            match self.expressions() {
                Err(e) => {
                    return Err(e);
                },
                Ok(x) => {
                    proof {
                        assert(exprs_view(args@.push(x)) =~= exprs_view(args@).push(x@));
                    }
                    args.push(x);
                },
            }
        }
    }

    /// A parenthesised list of parameter names.
    fn parameters(&mut self) -> (r: Result<Parameters, ShellErr>)
        requires
            old(self).wf(),
        ensures
            final(self).wf(),
            final(self).items() == old(self).items(),
            (params_res(r), final(self).state()) == params_spec(old(self).items(), old(self).state()),
    {
        let ghost items = self.items();
        let left = match self.eat_token_eq_default(Expect::Symbol('('), "Missing left parentheses bracket.") {
            Ok(t) => t,
            Err(e) => {
                return Err(e);
            },
        };
        let ghost st1 = self.state();
        let ghost lm = left@;
        let mut variables: Vec<Token> = Vec::new();
        assert(tokens_view(variables@) =~= seq![]);
        loop
            invariant
                self.wf(),
                self.items() == items,
                items == old(self).items(),
                left@ == lm,
                params_spec(items, old(self).state()) == params_loop(items, st1, lm, seq![]),
                params_loop(items, self.state(), lm, tokens_view(variables@)) == params_loop(
                    items,
                    st1,
                    lm,
                    seq![],
                ),
            decreases items.len() - self.state().k,
        {
            proof {
                lemma_ws(items, self.state());
            }
            self.eat_whitespace();
            match self.take_if(Tokens::Symbol(')')) {
                Some(right) => {
                    return Ok(Parameters { left, variables, right });
                },
                None => {},
            }
            match self.advance() {
                None => {
                    return Err(
                        ShellErr::Unterminated(
                            Range { start: left.span.start, end: left.span.end },
                            left.index,
                            message("Missing right parentheses brackets."),
                        ),
                    );
                },
                Some(Err(e)) => {
                    return Err(e);
                },
                Some(Ok(token)) => match token.ty {
                    Tokens::Ident(_) => {
                        self.output_str(token.ty.default_highlighter());
                        proof {
                            assert(tokens_view(variables@.push(token)) =~= tokens_view(
                                variables@,
                            ).push(token@));
                        }
                        variables.push(token);
                    },
                    Tokens::EOF => {
                        return Err(
                            ShellErr::Unterminated(
                                Range { start: left.span.start, end: left.span.end },
                                left.index,
                                message("Missing right parentheses brackets."),
                            ),
                        );
                    },
                    _ => {
                        return Err(
                            ShellErr::Syntax(
                                Range { start: token.span.start, end: token.span.end },
                                message("This is not ident."),
                            ),
                        );
                    },
                },
            }
        }
    }

    /// The drain rule: after an error, takes the next item and hands it back, a token in
    /// its default style; past the end of the stream, the end-of-input error.
    pub fn eat_remaining_token(&mut self) -> (r: Result<Styled, ShellErr>)
        requires
            old(self).wf(),
        ensures
            final(self).wf(),
            final(self).items() == old(self).items(),
            (match r {
                Ok(s) => Ok::<StyledModel, ErrModel>(s@),
                Err(e) => Err(e@),
            }, final(self).state()) == drain_spec(old(self).items(), old(self).state()),
    {
        match self.advance() {
            Some(Ok(token)) => Ok(token.ty.default_highlighter()),
            Some(Err(e)) => Err(e),
            None => Err(ShellErr::EOF),
        }
    }

    /// One top-level statement: `None` when the stream is exhausted or the end-of-input
    /// token comes next (it is consumed). A statement is a function definition when it
    /// starts with a keyword; a command named by a variable when it starts with `$`, which
    /// an identifier must follow; else a command. One `;` right after it is consumed too.
    pub fn parse(&mut self) -> (r: Result<Option<AST>, ShellErr>)
        requires
            old(self).wf(),
        ensures
            final(self).wf(),
            final(self).items() == old(self).items(),
            (opt_ast_res(r), final(self).state()) == parse_spec(old(self).items(), old(self).state()),
    {
        self.statement(false)
    }

    /// One statement, at top level or inside a block (`nested`).
    fn statement(&mut self, nested: bool) -> (r: Result<Option<AST>, ShellErr>)
        requires
            old(self).wf(),
        ensures
            final(self).wf(),
            final(self).items() == old(self).items(),
            (opt_ast_res(r), final(self).state()) == statement_spec(
                old(self).items(),
                old(self).state(),
                nested,
            ),
        decreases old(self).items().len() - old(self).state().k, 0int,
    {
        match self.advance() {
            None => Ok(None),
            Some(Err(e)) => Err(e),
            Some(Ok(token)) => {
                self.output_str(token.ty.default_highlighter());
                let r = match token.ty {
                    Tokens::EOF => {
                        return Ok(None);
                    },
                    Tokens::Keyword(k) => self.builtin(k),
                    Tokens::Symbol('$') => {
                        match self.eat_token_eq_default(Expect::Ident, "Variable name error") {
                            Err(e) => Err(e),
                            Ok(n) => {
                                let mut args: Vec<Expression> = Vec::new();
                                args.push(Expression::Variable(n));
                                assert(exprs_view(args@) =~= seq![ExprModel::Variable(n@)]);
                                self.command_rest(token, args, nested)
                            },
                        }
                    },
                    _ => {
                        let args: Vec<Expression> = Vec::new();
                        assert(exprs_view(args@) =~= seq![]);
                        self.command_rest(token, args, nested)
                    },
                };
                match r {
                    Err(e) => Err(e),
                    Ok(ast) => {
                        self.take_if(Tokens::Symbol(';'));
                        Ok(Some(ast))
                    },
                }
            },
        }
    }

    fn builtin(&mut self, kwd: Kwd) -> (r: Result<AST, ShellErr>)
        requires
            old(self).wf(),
        ensures
            final(self).wf(),
            final(self).items() == old(self).items(),
            (ast_res(r), final(self).state()) == function_spec(old(self).items(), old(self).state()),
        decreases old(self).items().len() - old(self).state().k, 4int,
    {
        match kwd {
            Kwd::Function => self.function_syntax(),
        }
    }

    /// A function definition after its keyword: a name, parameters and a block.
    pub fn function_syntax(&mut self) -> (r: Result<AST, ShellErr>)
        requires
            old(self).wf(),
        ensures
            final(self).wf(),
            final(self).items() == old(self).items(),
            (ast_res(r), final(self).state()) == function_spec(old(self).items(), old(self).state()),
        decreases old(self).items().len() - old(self).state().k, 3int,
    {
        let ghost items = self.items();
        let ghost st0 = self.state();
        let name = match self.eat_token_eq_default(Expect::Ident, "Missing function name") {
            Ok(t) => t,
            Err(e) => {
                return Err(e);
            },
        };
        proof {
            lemma_eat(items, st0, Expect::Ident, crate::grammar::msg_function_name(), None);
            lemma_params(items, self.state());
        }
        let parameters = match self.parameters() {
            Ok(p) => p,
            Err(e) => {
                return Err(e);
            },
        };
        let block = match self.pase_block() {
            Ok(b) => b,
            Err(e) => {
                return Err(e);
            },
        };
        Ok(AST::Function { name, parameters, block })
    }

    /// A brace-delimited block of statements.
    pub fn pase_block(&mut self) -> (r: Result<Block, ShellErr>)
        requires
            old(self).wf(),
        ensures
            final(self).wf(),
            final(self).items() == old(self).items(),
            (block_res(r), final(self).state()) == block_spec(old(self).items(), old(self).state()),
        decreases old(self).items().len() - old(self).state().k, 2int,
    {
        let ghost items = self.items();
        let ghost st0 = self.state();
        let left = match self.eat_token_eq_default(Expect::Symbol('{'), "Missing left bracket.") {
            Ok(t) => t,
            Err(e) => {
                return Err(e);
            },
        };
        proof {
            lemma_eat(items, st0, Expect::Symbol('{'), crate::grammar::msg_left_brace(), None);
        }
        let ghost st1 = self.state();
        let ghost lm = left@;
        let mut stmts: Vec<AST> = Vec::new();
        assert(stmts_view(stmts@) =~= seq![]);
        loop
            invariant
                self.wf(),
                self.items() == items,
                items == old(self).items(),
                st0 == old(self).state(),
                0 <= st0.k <= self.state().k,
                left@ == lm,
                block_spec(items, st0) == block_loop(items, st1, lm, seq![]),
                block_loop(items, self.state(), lm, stmts_view(stmts@)) == block_loop(
                    items,
                    st1,
                    lm,
                    seq![],
                ),
            decreases items.len() - self.state().k,
        {
            let ghost cur = self.state();
            proof {
                lemma_ws(items, cur);
            }
            self.eat_whitespace();
            match self.take_if(Tokens::Symbol('}')) {
                Some(right) => {
                    return Ok(Block { left, stmts, right });
                },
                None => {},
            }
            proof {
                lemma_statement(items, self.state(), true);
            }
            match self.statement(true) {
                Err(e) => {
                    return Err(e);
                },
                Ok(None) => {
                    return Err(
                        ShellErr::Unterminated(
                            Range { start: left.span.start, end: left.span.end },
                            left.index,
                            message("Missing right brackets."),
                        ),
                    );
                },
                Ok(Some(a)) => {
                    proof {
                        lemma_stmts_push(stmts@, a);
                    }
                    stmts.push(a);
                },
            }
        }
    }

    /// A parser never consumes more items than its stream holds.
    pub proof fn lemma_wf(&self)
        requires
            self.wf(),
        ensures
            0 <= self.state().k <= self.items().len(),
    {
    }

    /// Hands over the output written so far and starts a new one.
    pub fn take_output(&mut self) -> (r: Vec<Styled>)
        requires
            old(self).wf(),
        ensures
            final(self).wf(),
            final(self).items() == old(self).items(),
            out_view(r@) == old(self).state().out,
            final(self).state() == (PState { k: old(self).state().k, out: seq![] }),
    {
        let mut r: Vec<Styled> = Vec::new();
        std::mem::swap(&mut self.output, &mut r);
        assert(out_view(self.output@) =~= seq![]);
        r
    }
}

} // verus!
