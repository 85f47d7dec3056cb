use vstd::prelude::*;

use crate::ast::{stmts_view, AstModel, AST};
use crate::chars::{chars_of, string_of};
use crate::grammar::{lemma_parse, parse_spec, PState};
use crate::lexer::{lex_items, Lexer};
use crate::parser::{out_view, Parser};
use crate::input::Input;
use crate::shell_err::{ErrModel, Item, ShellErr};
use crate::state::{InputState, ShellState};
use crate::tokens::{highlight, Style, Styled, StyledModel};

verus! {

/// The characters of `raw` in the half-open range `start..end`, clipped to the text.
pub open spec fn span_text(raw: Seq<char>, start: int, end: int) -> Seq<char> {
    let a = if start < 0 {
        0
    } else if start > raw.len() {
        raw.len() as int
    } else {
        start
    };
    let b = if end < a {
        a
    } else if end > raw.len() {
        raw.len() as int
    } else {
        end
    };
    raw.subrange(a, b)
}

pub open spec fn restyled(s: StyledModel, style: Style) -> StyledModel {
    StyledModel { text: s.text, style }
}

/// The fragment at `i` in the error style and every later one in the secondary style.
pub open spec fn restyle_from(out: Seq<StyledModel>, i: int) -> Seq<StyledModel> {
    Seq::new(
        out.len(),
        |j: int|
            if j < i {
                out[j]
            } else if j == i {
                restyled(out[j], Style::Error)
            } else {
                restyled(out[j], Style::Secondary)
            },
    )
}

/// How an error marks the highlighted output: a syntax error adds the offending source
/// text in the error style; an unterminated construct turns its opening delimiter to the
/// error style and what follows to the secondary style, or, when the delimiter was never
/// written out, adds the source from the delimiter on in those two styles; an unknown
/// command turns its name to the error style.
pub open spec fn mark_spec(e: ErrModel, raw: Seq<char>, out: Seq<StyledModel>) -> Seq<StyledModel> {
    match e {
        ErrModel::Syntax(s, t, _) => out.push(
            StyledModel { text: span_text(raw, s, t), style: Style::Error },
        ),
        ErrModel::Unterminated(s, t, i, _) => if 0 <= i < out.len() {
            restyle_from(out, i)
        } else {
            out.push(StyledModel { text: span_text(raw, s, t), style: Style::Error }).push(
                StyledModel { text: span_text(raw, t, raw.len() as int), style: Style::Secondary },
            )
        },
        ErrModel::UnknownCommand(i, _) => if 0 <= i < out.len() {
            out.update(i, restyled(out[i], Style::Error))
        } else {
            out
        },
        ErrModel::EOF => out,
    }
}

/// After a syntax error, the rest of the stream from item `k` on is drained and written out:
/// tokens in their default style, errors marked, up to an end-of-input error.
pub open spec fn drain_render(raw: Seq<char>, items: Seq<Item>, k: int, out: Seq<StyledModel>) -> Seq<
    StyledModel,
>
    decreases items.len() - k,
{
    if 0 <= k < items.len() {
        match items[k] {
            Ok(t) => drain_render(raw, items, k + 1, out.push(highlight(t.kind))),
            Err(ErrModel::EOF) => out,
            Err(e) => drain_render(raw, items, k + 1, mark_spec(e, raw, out)),
        }
    } else {
        out
    }
}

/// The output once the error `e` has been shown; the parse stopped before item `k`.
pub open spec fn header_spec(
    e: ErrModel,
    raw: Seq<char>,
    items: Seq<Item>,
    k: int,
    out: Seq<StyledModel>,
) -> Seq<StyledModel> {
    match e {
        ErrModel::Syntax(_, _, _) => drain_render(raw, items, k, mark_spec(e, raw, out)),
        _ => mark_spec(e, raw, out),
    }
}

/// What one line of input comes to: its statements, its highlighted output, and the error
/// that stopped it, if any.
pub struct LineModel {
    pub asts: Seq<AstModel>,
    pub output: Seq<StyledModel>,
    pub error: Option<ErrModel>,
}

/// Statements are parsed one after the other until the stream ends; the first error stops
/// the line and is shown in its output.
pub open spec fn parse_all(raw: Seq<char>, items: Seq<Item>, st: PState, asts: Seq<AstModel>) -> LineModel
    decreases items.len() - st.k,
{
    let (r, st1) = parse_spec(items, st);
    match r {
        Ok(Some(a)) => if 0 <= st.k < st1.k <= items.len() {
            parse_all(raw, items, st1, asts.push(a))
        } else {
            LineModel { asts, output: st1.out, error: None }
        },
        Ok(None) => LineModel { asts, output: st1.out, error: None },
        Err(e) => LineModel { asts, output: header_spec(e, raw, items, st1.k, st1.out), error: Some(e) },
    }
}

/// What the line `raw` comes to.
pub open spec fn line_spec(raw: Seq<char>) -> LineModel {
    parse_all(raw, lex_items(raw, 0, 0), PState { k: 0, out: seq![] }, seq![])
}

/// One line of input, parsed and highlighted.
pub struct Line {
    pub asts: Vec<AST>,
    pub output: Vec<Styled>,
    pub error: Option<ShellErr>,
}

pub open spec fn line_view(l: Line) -> LineModel {
    LineModel {
        asts: stmts_view(l.asts@),
        output: out_view(l.output@),
        error: match l.error {
            Some(e) => Some(e@),
            None => None,
        },
    }
}

/// The characters of `raw` in the half-open range `start..end`, clipped to it.
fn span_string(raw: &Vec<char>, start: usize, end: usize) -> (r: String)
    ensures
        r@ == span_text(raw@, start as int, end as int),
{
    let n = raw.len();
    let a = if start > n {
        n
    } else {
        start
    };
    let b = if end < a {
        a
    } else if end > n {
        n
    } else {
        end
    };
    string_of(raw, a, b)
}

fn restyle(output: &mut Vec<Styled>, i: usize, style: Style)
    requires
        i < old(output)@.len(),
    ensures
        final(output)@.len() == old(output)@.len(),
        out_view(final(output)@) == out_view(old(output)@).update(
            i as int,
            restyled(old(output)@[i as int]@, style),
        ),
{
    let text = output[i].text.clone();
    output.set(i, Styled { text, style });
    assert(out_view(output@) =~= out_view(old(output)@).update(
        i as int,
        restyled(old(output)@[i as int]@, style),
    ));
}

/// Marks the output with an error, as `mark_spec` says.
pub fn mark_error(e: &ShellErr, raw: &Vec<char>, output: &mut Vec<Styled>)
    ensures
        out_view(final(output)@) == mark_spec(e@, raw@, out_view(old(output)@)),
{
    let ghost out0 = out_view(output@);
    match e {
        ShellErr::Syntax(r, _) => {
            output.push(Styled { text: span_string(raw, r.start, r.end), style: Style::Error });
            assert(out_view(output@) =~= mark_spec(e@, raw@, out0));
        },
        ShellErr::Unterminated(r, i, _) => {
            let i = *i;
            if i < output.len() {
                let n = output.len();
                let mut j = i;
                while j < n
                    invariant
                        i <= j <= n == output@.len() == out0.len(),
                        forall|m: int|
                            0 <= m < n ==> #[trigger] out_view(output@)[m] == if m < i || m >= j {
                                out0[m]
                            } else if m == i {
                                restyled(out0[m], Style::Error)
                            } else {
                                restyled(out0[m], Style::Secondary)
                            },
                    decreases n - j,
                {
                    let style = if j == i {
                        Style::Error
                    } else {
                        Style::Secondary
                    };
                    restyle(output, j, style);
                    j = j + 1;
                }
                assert(out_view(output@) =~= restyle_from(out0, i as int));
            } else {
                let first = Styled { text: span_string(raw, r.start, r.end), style: Style::Error };
                output.push(first);
                assert(out_view(output@) =~= out0.push(first@));
                let rest = span_string(raw, r.end, raw.len());
                let second = Styled { text: rest, style: Style::Secondary };
                let ghost o1 = out_view(output@);
                output.push(second);
                assert(out_view(output@) =~= o1.push(second@));
                assert(second@.text == span_text(raw@, r.end as int, raw@.len() as int));
            }
        },
        ShellErr::UnknownCommand(i, _) => {
            if *i < output.len() {
                restyle(output, *i, Style::Error);
            }
        },
        ShellErr::EOF => {},
    }
}

/// Shows the error `e` in the output; after a syntax error, drains the rest of the stream
/// into the output.
pub fn error_header(e: &ShellErr, raw: &Vec<char>, output: &mut Vec<Styled>, parser: &mut Parser)
    requires
        old(parser).wf(),
    ensures
        final(parser).wf(),
        final(parser).items() == old(parser).items(),
        out_view(final(output)@) == header_spec(
            e@,
            raw@,
            old(parser).items(),
            old(parser).state().k,
            out_view(old(output)@),
        ),
{
    let ghost items = parser.items();
    let ghost target = header_spec(e@, raw@, items, parser.state().k, out_view(output@));
    let is_syntax = match e {
        ShellErr::Syntax(_, _) => true,
        _ => false,
    };
    mark_error(e, raw, output);
    if !is_syntax {
        return ;
    }
    loop
        invariant
            parser.wf(),
            parser.items() == items,
            items == old(parser).items(),
            drain_render(raw@, items, parser.state().k, out_view(output@)) == target,
            target == header_spec(
                e@,
                raw@,
                old(parser).items(),
                old(parser).state().k,
                out_view(old(output)@),
            ),
        decreases items.len() - parser.state().k,
    {
        proof {
            parser.lemma_wf();
        }
        let ghost k0 = parser.state().k;
        let ghost o0 = out_view(output@);
        match parser.eat_remaining_token() {
            Ok(t) => {
                let ghost o = out_view(output@);
                output.push(t);
                assert(out_view(output@) =~= o.push(t@));
            },
            Err(ShellErr::EOF) => {
                assert(drain_render(raw@, items, k0, o0) == o0);
                return ;
            },
            Err(e2) => {
                mark_error(&e2, raw, output);
            },
        }
    }
}

/// Parses and highlights one line: statement after statement until the end of the input,
/// or until an error, which is then shown in the output.
pub fn process_line(raw: &str) -> (r: Line)
    requires
        raw@.len() < usize::MAX,
    ensures
        line_view(r) == line_spec(raw@),
{
    let chars = chars_of(raw);
    let lexer = Lexer::new(raw);
    let mut parser = Parser::new(lexer);
    let ghost items = parser.items();
    assert(items == lex_items(raw@, 0, 0));
    let mut asts: Vec<AST> = Vec::new();
    assert(stmts_view(asts@) =~= seq![]);
    loop
        invariant
            parser.wf(),
            parser.items() == items,
            items == lex_items(raw@, 0, 0),
            chars@ == raw@,
            parse_all(raw@, items, parser.state(), stmts_view(asts@)) == line_spec(raw@),
        decreases items.len() - parser.state().k,
    {
        proof {
            parser.lemma_wf();
            lemma_parse(items, parser.state());
        }
        match parser.parse() {
            Ok(Some(a)) => {
                proof {
                    crate::ast::lemma_stmts_push(asts@, a);
                }
                asts.push(a);
            },
            Ok(None) => {
                let output = parser.take_output();
                return Line { asts, output, error: None };
            },
            Err(e) => {
                let mut output = parser.take_output();
                error_header(&e, &chars, &mut output, &mut parser);
                return Line { asts, output, error: Some(e) };
            },
        }
    }
}

/// Parsing is repeatable: two lines processed afresh from equal input texts come to
/// structurally equal statements, equal highlighted output and an equal error.
pub proof fn lemma_parse_repeatable(raw1: Seq<char>, raw2: Seq<char>, r1: Line, r2: Line)
    requires
        raw1 == raw2,
        line_view(r1) == line_spec(raw1),
        line_view(r2) == line_spec(raw2),
    ensures
        line_view(r1) == line_view(r2),
{
}

/// The columns a character takes on the terminal: one for ASCII, two for anything else.
pub open spec fn width(c: char) -> int {
    if (c as u32) < 128 {
        1
    } else {
        2
    }
}

/// The columns that the characters of `s` from position `i` on take.
pub open spec fn width_from(s: Seq<char>, i: int) -> int
    decreases s.len() - i,
{
    if 0 <= i < s.len() {
        width(s[i]) + width_from(s, i + 1)
    } else {
        0
    }
}

proof fn lemma_width_from(s: Seq<char>, i: int)
    requires
        0 <= i <= s.len(),
    ensures
        0 <= width_from(s, i) <= 2 * (s.len() - i),
    decreases s.len() - i,
{
    if i < s.len() {
        lemma_width_from(s, i + 1);
    }
}

/// How far left of the end of the line the terminal cursor stands: the columns of the
/// characters after the cursor, and one for the space that ends the line.
pub fn cursor_offset(line: &Vec<char>, cursor: usize) -> (r: usize)
    requires
        cursor <= line@.len(),
        line@.len() < usize::MAX / 4,
    ensures
        r == width_from(line@, cursor as int) + 1,
{
    let n = line.len();
    let mut i = n;
    let mut w: usize = 0;
    proof {
        lemma_width_from(line@, cursor as int);
    }
    while i > cursor
        invariant
            cursor <= i <= n == line@.len() < usize::MAX / 4,
            w == width_from(line@, i as int),
            w <= 2 * (n - i),
        decreases i,
    {
        i = i - 1;
        let c = line[i];
        w = w + if (c as u32) < 128 {
            1
        } else {
            2
        };
    }
    w + 1
}

/// The prompt: the user name, `@`, the working directory and `: `.
pub open spec fn prompt_spec(login: Seq<char>, path: Seq<char>) -> Seq<StyledModel> {
    seq![
        StyledModel { text: login, style: Style::Secondary },
        StyledModel { text: seq!['@'], style: Style::Plain },
        StyledModel { text: path, style: Style::Location },
        StyledModel { text: seq![':', ' '], style: Style::Plain },
    ]
}

pub fn prompt(state: &ShellState) -> (r: Vec<Styled>)
    ensures
        out_view(r@) == prompt_spec(
            state.login@,
            match state.path {
                Some(p) => p@,
                None => seq![],
            },
        ),
{
    let path = match &state.path {
        Some(p) => p.clone(),
        None => String::new(),
    };
    let mut end = crate::chars::string_of_char(':');
    crate::chars::push_char(&mut end, ' ');
    assert(end@ =~= seq![':', ' ']);
    assert(path@ == match state.path {
        Some(p) => p@,
        None => seq![],
    });
    let mut r: Vec<Styled> = Vec::new();
    r.push(Styled { text: state.login.clone(), style: Style::Secondary });
    r.push(Styled { text: crate::chars::string_of_char('@'), style: Style::Plain });
    r.push(Styled { text: path, style: Style::Location });
    r.push(Styled { text: end, style: Style::Plain });
    assert(out_view(r@) =~= prompt_spec(
        state.login@,
        match state.path {
            Some(p) => p@,
            None => seq![],
        },
    ));
    r
}

/// What the driver does once a line has been drawn.
#[derive(Debug, Clone, Copy, PartialEq, Eq, Structural)]
pub enum Step {
    /// Wait for the next key.
    Idle,
    /// Start a new prompt on a fresh line.
    NewPrompt,
    /// Start a new prompt and draw the same line again.
    Retry,
    /// Start a new prompt and run the statements of the line.
    Submit,
}

/// Decides what follows the drawing of a line, from what the last key did and whether the
/// line had an error: a submitted line with an error is kept to be drawn again; one
/// without is cleared and run; an interrupted line is cleared.
pub fn repl_step(input: &mut Input, is_error: bool) -> (r: Step)
    requires
        old(input).wf(),
    ensures
        final(input).wf(),
        old(input).state == InputState::Execute && is_error ==> r == Step::Retry && final(input).state
            == InputState::NONE && final(input).user_input == old(input).user_input
            && final(input).cursor == old(input).cursor,
        old(input).state == InputState::Execute && !is_error ==> r == Step::Submit
            && final(input).user_input@.len() == 0 && final(input).cursor == 0,
        old(input).state == InputState::NewLine ==> r == Step::NewPrompt
            && final(input).user_input@.len() == 0 && final(input).cursor == 0,
        old(input).state != InputState::Execute && old(input).state != InputState::NewLine ==> r
            == Step::Idle && *final(input) == *old(input),
{
    match input.state {
        InputState::Execute => {
            if is_error {
                input.state = InputState::NONE;
                Step::Retry
            } else {
                input.clear();
                Step::Submit
            }
        },
        InputState::NewLine => {
            input.clear();
            Step::NewPrompt
        },
        _ => Step::Idle,
    }
}

} // verus!
