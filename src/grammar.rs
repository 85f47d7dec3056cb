use vstd::prelude::*;

use crate::ast::{AstModel, BlockModel, ExprModel, ParamsModel};
use crate::shell_err::{ErrModel, Item};
use crate::tokens::{highlight, kind_text, Kind, StyledModel, Style, TokenModel};

verus! {

/// Where a parse stands: how many items of the stream it has consumed, and the
/// highlighted output so far.
pub struct PState {
    pub k: int,
    pub out: Seq<StyledModel>,
}

/// What a token must be for the matching rule to take it.
#[derive(Debug, Clone, Copy, PartialEq, Eq, Structural)]
pub enum Expect {
    /// Any identifier.
    Ident,
    /// This one symbol.
    Symbol(char),
}

pub open spec fn expects(e: Expect, k: Kind) -> bool {
    match e {
        Expect::Ident => k is Ident,
        Expect::Symbol(c) => k == Kind::Symbol(c),
    }
}

/// The state after consuming the item at `st.k` and writing `s` out.
pub open spec fn consume(st: PState, s: StyledModel) -> PState {
    PState { k: st.k + 1, out: st.out.push(s) }
}

/// The state after consuming the item at `st.k` without writing anything.
pub open spec fn skip(st: PState) -> PState {
    PState { k: st.k + 1, out: st.out }
}

/// Whether the next item is a token of kind `k`.
pub open spec fn next_is(items: Seq<Item>, st: PState, k: Kind) -> bool {
    0 <= st.k < items.len() && (items[st.k] matches Ok(t) && t.kind == k)
}

/// The next item's token, when it is one.
pub open spec fn next_tok(items: Seq<Item>, st: PState) -> TokenModel {
    items[st.k]->Ok_0
}

pub open spec fn msg_variable() -> Seq<char> {
    "Variable name error"@
}

pub open spec fn msg_not_expression() -> Seq<char> {
    "Not a expression"@
}

pub open spec fn msg_function_name() -> Seq<char> {
    "Missing function name"@
}

pub open spec fn msg_left_paren() -> Seq<char> {
    "Missing left parentheses bracket."@
}

pub open spec fn msg_right_paren() -> Seq<char> {
    "Missing right parentheses brackets."@
}

pub open spec fn msg_not_ident() -> Seq<char> {
    "This is not ident."@
}

pub open spec fn msg_left_brace() -> Seq<char> {
    "Missing left bracket."@
}

pub open spec fn msg_right_brace() -> Seq<char> {
    "Missing right brackets."@
}

/// Consumes the space tokens that come next, writing each out.
pub open spec fn ws_spec(items: Seq<Item>, st: PState) -> PState
    decreases items.len() - st.k,
{
    if 0 <= st.k < items.len() && (items[st.k] matches Ok(t) && t.kind is Space) {
        ws_spec(items, consume(st, highlight(items[st.k]->Ok_0.kind)))
    } else {
        st
    }
}

/// Skips spaces, then takes a token that `e` accepts and writes it out in `style`, or in
/// its default style; any other token fails with a syntax error carrying `msg`.
pub open spec fn eat_spec(
    items: Seq<Item>,
    st: PState,
    e: Expect,
    msg: Seq<char>,
    style: Option<Style>,
) -> (Result<TokenModel, ErrModel>, PState) {
    let st1 = ws_spec(items, st);
    if 0 <= st1.k < items.len() {
        match items[st1.k] {
            Err(err) => (Err(err), skip(st1)),
            Ok(t) => if expects(e, t.kind) {
                let s = match style {
                    Some(y) => StyledModel { text: kind_text(t.kind), style: y },
                    None => highlight(t.kind),
                };
                (Ok(t), consume(st1, s))
            } else {
                (Err(ErrModel::Syntax(t.start, t.end, msg)), skip(st1))
            },
        }
    } else {
        (Err(ErrModel::EOF), st1)
    }
}

/// One argument of a command.
pub open spec fn expression_spec(items: Seq<Item>, st: PState) -> (Result<ExprModel, ErrModel>, PState) {
    if 0 <= st.k < items.len() {
        match items[st.k] {
            Err(err) => (Err(err), skip(st)),
            Ok(t) => {
                let st1 = consume(st, highlight(t.kind));
                match t.kind {
                    Kind::Ident(_) => (Ok(ExprModel::Ident(t)), st1),
                    Kind::Str(_) => (Ok(ExprModel::Str(t)), st1),
                    Kind::Int(_) => (Ok(ExprModel::Int(t)), st1),
                    Kind::Path(_) => (Ok(ExprModel::Path(t)), st1),
                    Kind::Symbol(c) => if c == '$' {
                        let (r, st2) = eat_spec(items, st1, Expect::Ident, msg_variable(), None);
                        match r {
                            Ok(n) => (Ok(ExprModel::Variable(n)), st2),
                            Err(err) => (Err(err), st2),
                        }
                    } else {
                        (Ok(ExprModel::Symbol(t)), st1)
                    },
                    _ => (Err(ErrModel::Syntax(t.start, t.end, msg_not_expression())), st1),
                }
            },
        }
    } else {
        (Err(ErrModel::EOF), st)
    }
}

/// The arguments of the command `name` from `st` on, after the arguments `args`: up to a
/// `;` or a newline, which is consumed, or the end-of-input token, which is not. Inside a
/// block (`nested`), a `}` also ends the arguments and is left for the block.
pub open spec fn command_spec(
    items: Seq<Item>,
    st: PState,
    name: TokenModel,
    args: Seq<ExprModel>,
    nested: bool,
) -> (Result<AstModel, ErrModel>, PState)
    decreases items.len() - st.k,
{
    let st1 = ws_spec(items, st);
    if next_is(items, st1, Kind::EOF) || (nested && next_is(items, st1, Kind::Symbol('}'))) {
        (Ok(AstModel::Command { name, args }), st1)
    } else if next_is(items, st1, Kind::Symbol(';')) || next_is(items, st1, Kind::NewLine) {
        (Ok(AstModel::Command { name, args }), consume(st1, highlight(next_tok(items, st1).kind)))
    } else {
        let (r, st2) = expression_spec(items, st1);
        match r {
            Err(err) => (Err(err), st2),
            Ok(x) => if 0 <= st.k < st2.k <= items.len() {
                command_spec(items, st2, name, args.push(x), nested)
            } else {
                (Err(ErrModel::EOF), st2)
            },
        }
    }
}

/// The parameter names after the opening parenthesis `left`, through the closing one.
pub open spec fn params_loop(
    items: Seq<Item>,
    st: PState,
    left: TokenModel,
    vars: Seq<TokenModel>,
) -> (Result<ParamsModel, ErrModel>, PState)
    decreases items.len() - st.k,
{
    let st1 = ws_spec(items, st);
    let unterminated = ErrModel::Unterminated(left.start, left.end, left.index, msg_right_paren());
    if next_is(items, st1, Kind::Symbol(')')) {
        (
            Ok(ParamsModel { left, variables: vars, right: next_tok(items, st1) }),
            consume(st1, highlight(Kind::Symbol(')'))),
        )
    } else if !(0 <= st1.k < items.len()) {
        (Err(unterminated), st1)
    } else {
        match items[st1.k] {
            Err(err) => (Err(err), skip(st1)),
            Ok(t) => match t.kind {
                Kind::Ident(_) => {
                    let st2 = consume(st1, highlight(t.kind));
                    if 0 <= st.k < st2.k <= items.len() {
                        params_loop(items, st2, left, vars.push(t))
                    } else {
                        (Err(ErrModel::EOF), st2)
                    }
                },
                Kind::EOF => (Err(unterminated), skip(st1)),
                _ => (Err(ErrModel::Syntax(t.start, t.end, msg_not_ident())), skip(st1)),
            },
        }
    }
}

/// A parenthesised list of parameter names.
pub open spec fn params_spec(items: Seq<Item>, st: PState) -> (Result<ParamsModel, ErrModel>, PState) {
    let (r, st1) = eat_spec(items, st, Expect::Symbol('('), msg_left_paren(), None);
    match r {
        Err(err) => (Err(err), st1),
        Ok(left) => params_loop(items, st1, left, seq![]),
    }
}

/// After a top-level statement, one `;` is consumed if it comes next.
pub open spec fn semicolon_spec(items: Seq<Item>, st: PState) -> PState {
    if next_is(items, st, Kind::Symbol(';')) {
        consume(st, highlight(Kind::Symbol(';')))
    } else {
        st
    }
}

/// One top-level statement.
pub open spec fn parse_spec(items: Seq<Item>, st: PState) -> (
    Result<Option<AstModel>, ErrModel>,
    PState,
) {
    statement_spec(items, st, false)
}

/// A statement that starts with `$` names its command by a variable: an identifier must
/// follow, and the variable is the command's first argument.
pub open spec fn variable_command_spec(
    items: Seq<Item>,
    st: PState,
    sigil: TokenModel,
    nested: bool,
) -> (Result<AstModel, ErrModel>, PState) {
    let (r, st1) = eat_spec(items, st, Expect::Ident, msg_variable(), None);
    match r {
        Err(err) => (Err(err), st1),
        Ok(n) => command_spec(items, st1, sigil, seq![ExprModel::Variable(n)], nested),
    }
}

/// One statement, at top level or inside a block (`nested`): nothing when the stream ends,
/// or when the end-of-input token comes next. A statement that starts with a keyword is a
/// definition; one that starts with `$` a command named by a variable; any other a command.
pub open spec fn statement_spec(items: Seq<Item>, st: PState, nested: bool) -> (
    Result<Option<AstModel>, ErrModel>,
    PState,
)
    decreases items.len() - st.k, 0int,
{
    if !(0 <= st.k < items.len()) {
        (Ok(None), st)
    } else {
        match items[st.k] {
            Err(err) => (Err(err), skip(st)),
            Ok(t) => {
                let st1 = consume(st, highlight(t.kind));
                if t.kind is EOF {
                    (Ok(None), st1)
                } else {
                    let (r, st2) = if t.kind is Keyword {
                        function_spec(items, st1)
                    } else if t.kind == Kind::Symbol('$') {
                        variable_command_spec(items, st1, t, nested)
                    } else {
                        command_spec(items, st1, t, seq![], nested)
                    };
                    match r {
                        Err(err) => (Err(err), st2),
                        Ok(a) => (Ok(Some(a)), semicolon_spec(items, st2)),
                    }
                }
            },
        }
    }
}

/// A function definition after its keyword: a name, parameters and a block.
pub open spec fn function_spec(items: Seq<Item>, st: PState) -> (Result<AstModel, ErrModel>, PState)
    decreases items.len() - st.k, 3int,
{
    let (r1, st1) = eat_spec(items, st, Expect::Ident, msg_function_name(), None);
    match r1 {
        Err(err) => (Err(err), st1),
        Ok(name) => {
            let (r2, st2) = params_spec(items, st1);
            match r2 {
                Err(err) => (Err(err), st2),
                Ok(p) => if 0 <= st.k <= st2.k <= items.len() {
                    let (r3, st3) = block_spec(items, st2);
                    match r3 {
                        Err(err) => (Err(err), st3),
                        Ok(b) => (Ok(AstModel::Function { name, parameters: p, block: b }), st3),
                    }
                } else {
                    (Err(ErrModel::EOF), st2)
                },
            }
        },
    }
}

/// A brace-delimited block of statements.
pub open spec fn block_spec(items: Seq<Item>, st: PState) -> (Result<BlockModel, ErrModel>, PState)
    decreases items.len() - st.k, 2int,
{
    let (r, st1) = eat_spec(items, st, Expect::Symbol('{'), msg_left_brace(), None);
    match r {
        Err(err) => (Err(err), st1),
        Ok(left) => if 0 <= st.k <= st1.k <= items.len() {
            block_loop(items, st1, left, seq![])
        } else {
            (Err(ErrModel::EOF), st1)
        },
    }
}

/// The statements of a block after its opening brace `left` and the statements `stmts`,
/// through the closing brace.
pub open spec fn block_loop(
    items: Seq<Item>,
    st: PState,
    left: TokenModel,
    stmts: Seq<AstModel>,
) -> (Result<BlockModel, ErrModel>, PState)
    decreases items.len() - st.k, 1int,
{
    let st1 = ws_spec(items, st);
    if next_is(items, st1, Kind::Symbol('}')) {
        (
            Ok(BlockModel { left, stmts, right: next_tok(items, st1) }),
            consume(st1, highlight(Kind::Symbol('}'))),
        )
    } else if 0 <= st.k <= st1.k <= items.len() {
        let (r, st2) = statement_spec(items, st1, true);
        match r {
            Err(err) => (Err(err), st2),
            Ok(None) => (
                Err(ErrModel::Unterminated(left.start, left.end, left.index, msg_right_brace())),
                st2,
            ),
            Ok(Some(a)) => if 0 <= st.k < st2.k <= items.len() {
                block_loop(items, st2, left, stmts.push(a))
            } else {
                (Err(ErrModel::EOF), st2)
            },
        }
    } else {
        (Err(ErrModel::EOF), st1)
    }
}

/// The item at `st.k` consumed for display after an error: a token in its default style,
/// or the error it is; past the end, the end-of-input error.
pub open spec fn drain_spec(items: Seq<Item>, st: PState) -> (Result<StyledModel, ErrModel>, PState) {
    if 0 <= st.k < items.len() {
        (drained(items[st.k]), skip(st))
    } else {
        (Err(ErrModel::EOF), st)
    }
}

pub open spec fn drained(it: Item) -> Result<StyledModel, ErrModel> {
    match it {
        Ok(t) => Ok(highlight(t.kind)),
        Err(e) => Err(e),
    }
}

/// The results of `n` drain steps from `st`, and the state after them.
pub open spec fn drain_n(items: Seq<Item>, st: PState, n: nat) -> (
    Seq<Result<StyledModel, ErrModel>>,
    PState,
)
    decreases n,
{
    if n == 0 {
        (seq![], st)
    } else {
        let (r, st1) = drain_spec(items, st);
        let (rs, st2) = drain_n(items, st1, (n - 1) as nat);
        (seq![r] + rs, st2)
    }
}

/// Draining after an error takes every remaining item exactly once, in order, writes
/// nothing, and then stops with the end-of-input error, which leaves the state as it is.
pub proof fn lemma_drain(items: Seq<Item>, st: PState)
    requires
        0 <= st.k <= items.len(),
    ensures
        ({
            let n = (items.len() - st.k) as nat;
            let (rs, end) = drain_n(items, st, n);
            &&& rs.len() == n
            &&& forall|i: int| 0 <= i < n ==> #[trigger] rs[i] == drained(items[st.k + i])
            &&& end.k == items.len()
            &&& end.out == st.out
            &&& drain_spec(items, end) == (Err::<StyledModel, ErrModel>(ErrModel::EOF), end)
        }),
    decreases items.len() - st.k,
{
    let n = (items.len() - st.k) as nat;
    if n > 0 {
        let (r, st1) = drain_spec(items, st);
        lemma_drain(items, st1);
        let (rs1, end1) = drain_n(items, st1, (n - 1) as nat);
        let rs = seq![r] + rs1;
        assert forall|i: int| 0 <= i < n implies #[trigger] rs[i] == drained(items[st.k + i]) by {
            if i > 0 {
                assert(rs[i] == rs1[i - 1]);
            }
        }
    }
}

pub proof fn lemma_ws(items: Seq<Item>, st: PState)
    requires
        0 <= st.k <= items.len(),
    ensures
        st.k <= ws_spec(items, st).k <= items.len(),
    decreases items.len() - st.k,
{
    if 0 <= st.k < items.len() && (items[st.k] matches Ok(t) && t.kind is Space) {
        lemma_ws(items, consume(st, highlight(items[st.k]->Ok_0.kind)));
    }
}

pub proof fn lemma_eat(items: Seq<Item>, st: PState, e: Expect, msg: Seq<char>, style: Option<Style>)
    requires
        0 <= st.k <= items.len(),
    ensures
        st.k <= eat_spec(items, st, e, msg, style).1.k <= items.len(),
        eat_spec(items, st, e, msg, style).0 is Ok ==> st.k < eat_spec(items, st, e, msg, style).1.k,
{
    lemma_ws(items, st);
}

pub proof fn lemma_expression(items: Seq<Item>, st: PState)
    requires
        0 <= st.k <= items.len(),
    ensures
        st.k <= expression_spec(items, st).1.k <= items.len(),
        expression_spec(items, st).0 is Ok ==> st.k < expression_spec(items, st).1.k,
{
    if 0 <= st.k < items.len() {
        lemma_eat(items, consume(st, highlight(items[st.k]->Ok_0.kind)), Expect::Ident, msg_variable(), None);
    }
}

pub proof fn lemma_command(
    items: Seq<Item>,
    st: PState,
    name: TokenModel,
    args: Seq<ExprModel>,
    nested: bool,
)
    requires
        0 <= st.k <= items.len(),
    ensures
        st.k <= command_spec(items, st, name, args, nested).1.k <= items.len(),
    decreases items.len() - st.k,
{
    let st1 = ws_spec(items, st);
    lemma_ws(items, st);
    lemma_expression(items, st1);
    let (r, st2) = expression_spec(items, st1);
    if r is Ok && 0 <= st.k < st2.k <= items.len() {
        lemma_command(items, st2, name, args.push(r->Ok_0), nested);
    }
}

pub proof fn lemma_params_loop(items: Seq<Item>, st: PState, left: TokenModel, vars: Seq<TokenModel>)
    requires
        0 <= st.k <= items.len(),
    ensures
        st.k <= params_loop(items, st, left, vars).1.k <= items.len(),
    decreases items.len() - st.k,
{
    let st1 = ws_spec(items, st);
    lemma_ws(items, st);
    if !next_is(items, st1, Kind::Symbol(')')) && 0 <= st1.k < items.len() {
        if let Ok(t) = items[st1.k] {
            if t.kind is Ident {
            let st2 = consume(st1, highlight(t.kind));
            lemma_params_loop(items, st2, left, vars.push(t));
            }
        }
    }
}

pub proof fn lemma_params(items: Seq<Item>, st: PState)
    requires
        0 <= st.k <= items.len(),
    ensures
        st.k <= params_spec(items, st).1.k <= items.len(),
{
    lemma_eat(items, st, Expect::Symbol('('), msg_left_paren(), None);
    let (r, st1) = eat_spec(items, st, Expect::Symbol('('), msg_left_paren(), None);
    if r is Ok {
        lemma_params_loop(items, st1, r->Ok_0, seq![]);
    }
}

pub proof fn lemma_parse(items: Seq<Item>, st: PState)
    requires
        0 <= st.k <= items.len(),
    ensures
        st.k <= parse_spec(items, st).1.k <= items.len(),
        parse_spec(items, st).0 matches Ok(Some(_)) ==> st.k < parse_spec(items, st).1.k,
{
    lemma_statement(items, st, false);
}

pub proof fn lemma_statement(items: Seq<Item>, st: PState, nested: bool)
    requires
        0 <= st.k <= items.len(),
    ensures
        st.k <= statement_spec(items, st, nested).1.k <= items.len(),
        statement_spec(items, st, nested).0 matches Ok(Some(_)) ==> st.k < statement_spec(
            items,
            st,
            nested,
        ).1.k,
    decreases items.len() - st.k, 0int,
{
    if 0 <= st.k < items.len() {
        if let Ok(t) = items[st.k] {
            let st1 = consume(st, highlight(t.kind));
            if t.kind is Keyword {
                lemma_function(items, st1);
            } else if t.kind == Kind::Symbol('$') {
                lemma_eat(items, st1, Expect::Ident, msg_variable(), None);
                let (r, st2) = eat_spec(items, st1, Expect::Ident, msg_variable(), None);
                if let Ok(n) = r {
                    lemma_command(items, st2, t, seq![ExprModel::Variable(n)], nested);
                }
            } else {
                lemma_command(items, st1, t, seq![], nested);
            }
        }
    }
}

pub proof fn lemma_function(items: Seq<Item>, st: PState)
    requires
        0 <= st.k <= items.len(),
    ensures
        st.k <= function_spec(items, st).1.k <= items.len(),
    decreases items.len() - st.k, 3int,
{
    lemma_eat(items, st, Expect::Ident, msg_function_name(), None);
    let (r1, st1) = eat_spec(items, st, Expect::Ident, msg_function_name(), None);
    if r1 is Ok {
        lemma_params(items, st1);
        let (r2, st2) = params_spec(items, st1);
        if r2 is Ok {
            lemma_block(items, st2);
        }
    }
}

pub proof fn lemma_block(items: Seq<Item>, st: PState)
    requires
        0 <= st.k <= items.len(),
    ensures
        st.k <= block_spec(items, st).1.k <= items.len(),
    decreases items.len() - st.k, 2int,
{
    lemma_eat(items, st, Expect::Symbol('{'), msg_left_brace(), None);
    let (r, st1) = eat_spec(items, st, Expect::Symbol('{'), msg_left_brace(), None);
    if r is Ok {
        lemma_block_loop(items, st1, r->Ok_0, seq![]);
    }
}

pub proof fn lemma_block_loop(items: Seq<Item>, st: PState, left: TokenModel, stmts: Seq<AstModel>)
    requires
        0 <= st.k <= items.len(),
    ensures
        st.k <= block_loop(items, st, left, stmts).1.k <= items.len(),
    decreases items.len() - st.k, 1int,
{
    let st1 = ws_spec(items, st);
    lemma_ws(items, st);
    if !next_is(items, st1, Kind::Symbol('}')) {
        lemma_statement(items, st1, true);
        let (r, st2) = statement_spec(items, st1, true);
        if let Ok(Some(a)) = r {
            lemma_block_loop(items, st2, left, stmts.push(a));
        }
    }
}

} // verus!
