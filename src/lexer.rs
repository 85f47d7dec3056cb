use std::ops::Range;
use vstd::prelude::*;

use crate::chars::{
    ascii_punctuation, chars_of, is_punct, is_white_space, push_char, string_of, string_of_char,
    white_space,
};
use crate::shell_err::{item_view, message, ErrModel, Item, ShellErr};
use crate::tokens::{kind_text, kwd_of, kwd_text, Kind, Kwd, Token, TokenModel, Tokens};

verus! {

/// The classes of characters that the scanning rules consume.
#[derive(Debug, Clone, Copy, PartialEq, Eq, Structural)]
pub enum CharClass {
    /// Characters that continue an identifier.
    Ident,
    /// Binary digits.
    Binary,
    /// Hexadecimal digits.
    Hex,
    /// Decimal digits and the dot.
    Decimal,
    /// Anything but whitespace and ASCII punctuation.
    Word,
}

pub open spec fn in_class(k: CharClass, c: char) -> bool {
    match k {
        CharClass::Ident => (!is_punct(c) && !is_white_space(c)) || c == '_' || c == '-',
        CharClass::Binary => c == '0' || c == '1',
        CharClass::Hex => ('0' <= c && c <= '9') || ('a' <= c && c <= 'f') || ('A' <= c && c
            <= 'F'),
        CharClass::Decimal => ('0' <= c && c <= '9') || c == '.',
        CharClass::Word => !is_punct(c) && !is_white_space(c),
    }
}

/// The first position at or after `i` whose character is not of class `k`, or the end.
pub open spec fn scan(s: Seq<char>, i: int, k: CharClass) -> int
    decreases s.len() - i,
{
    if 0 <= i < s.len() && in_class(k, s[i]) {
        scan(s, i + 1, k)
    } else {
        i
    }
}

/// The first position at or after `i` that holds `q`, or the end.
pub open spec fn find_char(s: Seq<char>, i: int, q: char) -> int
    decreases s.len() - i,
{
    if 0 <= i < s.len() && s[i] != q {
        find_char(s, i + 1, q)
    } else {
        i
    }
}

/// Characters that may stand in a path.
pub open spec fn is_path_char(c: char) -> bool {
    !is_white_space(c) && c != '|' && c != '<' && c != '>' && c != ':' && c != '"' && c != '?'
        && c != '*'
}

/// The character that a backslash followed by `c` stands for.
pub open spec fn unescape(c: char) -> char {
    if c == 'n' {
        '\n'
    } else if c == 'r' {
        '\r'
    } else if c == 't' {
        '\t'
    } else if c == '0' {
        '\0'
    } else {
        c
    }
}

/// The rest of a path from position `i`, after the text `acc`: the whole text and the
/// position after it, or no text when a backslash ends the input.
pub open spec fn path_from(s: Seq<char>, i: int, acc: Seq<char>) -> (Option<Seq<char>>, int)
    decreases s.len() - i,
{
    if 0 <= i < s.len() && is_path_char(s[i]) {
        if s[i] == '\\' {
            if i + 1 < s.len() {
                path_from(s, i + 2, acc.push(unescape(s[i + 1])))
            } else {
                (None, s.len() as int)
            }
        } else {
            path_from(s, i + 1, acc.push(s[i]))
        }
    } else {
        (Some(acc), i)
    }
}

pub open spec fn tok(kind: Kind, start: int, end: int, index: int) -> Item {
    Ok(TokenModel { kind, start, end, index })
}

pub open spec fn unterminated_string_message() -> Seq<char> {
    "unterminated string"@
}

/// An identifier-shaped text is a keyword when it is a reserved word.
pub open spec fn classify(text: Seq<char>) -> Kind {
    match kwd_of(text) {
        Some(k) => Kind::Keyword(k),
        None => Kind::Ident(text),
    }
}

/// A number whose digits of class `k` start at `from`; the number starts at `pos`.
pub open spec fn number_step(s: Seq<char>, pos: int, from: int, k: CharClass, index: int) -> (
    Item,
    int,
) {
    let j = scan(s, from, k);
    if j < s.len() && !is_punct(s[j]) && !is_white_space(s[j]) {
        let e = scan(s, j, CharClass::Word);
        (Err(ErrModel::Syntax(pos, e, seq![])), e)
    } else {
        (tok(Kind::Int(s.subrange(pos, j)), pos, j, index), j)
    }
}

pub open spec fn int_step(s: Seq<char>, pos: int, index: int) -> (Item, int) {
    if s[pos] == '0' && pos + 1 < s.len() && s[pos + 1] == 'b' {
        number_step(s, pos, pos + 2, CharClass::Binary, index)
    } else if s[pos] == '0' && pos + 1 < s.len() && s[pos + 1] == 'x' {
        number_step(s, pos, pos + 2, CharClass::Hex, index)
    } else {
        number_step(s, pos, pos + 1, CharClass::Decimal, index)
    }
}

pub open spec fn str_step(s: Seq<char>, pos: int, index: int) -> (Item, int) {
    let j = find_char(s, pos + 1, s[pos]);
    if j < s.len() {
        (tok(Kind::Str(s.subrange(pos, j + 1)), pos, j + 1, index), j + 1)
    } else {
        (
            Err(ErrModel::Unterminated(pos, pos + 1, index, unterminated_string_message())),
            s.len() as int,
        )
    }
}

pub open spec fn path_step(s: Seq<char>, pos: int, index: int) -> (Item, int) {
    let (text, j) = path_from(s, pos + 1, seq![s[pos]]);
    match text {
        Some(t) => (tok(Kind::Path(t), pos, j, index), j),
        None => (Err(ErrModel::EOF), j),
    }
}

pub open spec fn ident_step(s: Seq<char>, pos: int, index: int) -> (Item, int) {
    let j = scan(s, pos + 1, CharClass::Ident);
    (tok(classify(s.subrange(pos, j)), pos, j, index), j)
}

/// A doubled character `c` at `pos` is the `double` token, a single one the `single` token.
pub open spec fn pair_step(s: Seq<char>, pos: int, c: char, double: Kind, single: Kind, index: int) -> (
    Item,
    int,
) {
    if pos + 1 < s.len() && s[pos + 1] == c {
        (tok(double, pos, pos + 2, index), pos + 2)
    } else {
        (tok(single, pos, pos + 1, index), pos + 1)
    }
}

/// The item that lexing `s` from position `pos` produces as the `index`-th item, and the
/// position after it.
pub open spec fn lex_step(s: Seq<char>, pos: int, index: int) -> (Item, int) {
    if pos >= s.len() {
        (tok(Kind::EOF, s.len() as int, s.len() as int, index), s.len() as int)
    } else {
        let c = s[pos];
        if c == '\n' {
            (tok(Kind::NewLine, pos, pos, index), pos + 1)
        } else if is_white_space(c) {
            (tok(Kind::Space(c), pos, pos, index), pos + 1)
        } else if c == '"' || c == '\'' {
            str_step(s, pos, index)
        } else if c == '|' {
            pair_step(s, pos, '|', Kind::PipeLine, Kind::Or, index)
        } else if c == '&' {
            pair_step(s, pos, '&', Kind::And, Kind::Background, index)
        } else if c == '.' || c == '/' || c == '~' {
            path_step(s, pos, index)
        } else if is_punct(c) && c != '_' {
            (tok(Kind::Symbol(c), pos, pos + 1, index), pos + 1)
        } else if '0' <= c && c <= '9' {
            int_step(s, pos, index)
        } else {
            ident_step(s, pos, index)
        }
    }
}

/// Whether an item is the end-of-input token.
pub open spec fn is_eof_item(it: Item) -> bool {
    it matches Ok(t) && t.kind is EOF
}

/// Every item that lexing `s` from position `pos` yields, the `index`-th first, through the
/// end-of-input token.
pub open spec fn lex_items(s: Seq<char>, pos: int, index: int) -> Seq<Item>
    decreases s.len() - pos,
{
    let (it, next) = lex_step(s, pos, index);
    if pos < s.len() && pos < next <= s.len() {
        seq![it] + lex_items(s, next, index + 1)
    } else {
        seq![it]
    }
}

pub proof fn lemma_scan(s: Seq<char>, i: int, k: CharClass)
    requires
        0 <= i <= s.len(),
    ensures
        i <= scan(s, i, k) <= s.len(),
        forall|m: int| i <= m < scan(s, i, k) ==> in_class(k, #[trigger] s[m]),
        scan(s, i, k) < s.len() ==> !in_class(k, s[scan(s, i, k)]),
    decreases s.len() - i,
{
    if i < s.len() && in_class(k, s[i]) {
        lemma_scan(s, i + 1, k);
    }
}

pub proof fn lemma_find_char(s: Seq<char>, i: int, q: char)
    requires
        0 <= i <= s.len(),
    ensures
        i <= find_char(s, i, q) <= s.len(),
        find_char(s, i, q) < s.len() ==> s[find_char(s, i, q)] == q,
        forall|m: int| i <= m < find_char(s, i, q) ==> #[trigger] s[m] != q,
    decreases s.len() - i,
{
    if i < s.len() && s[i] != q {
        lemma_find_char(s, i + 1, q);
    }
}

pub proof fn lemma_path_from(s: Seq<char>, i: int, acc: Seq<char>)
    requires
        0 <= i <= s.len(),
    ensures
        i <= path_from(s, i, acc).1 <= s.len(),
    decreases s.len() - i,
{
    if i < s.len() && is_path_char(s[i]) {
        if s[i] == '\\' {
            if i + 1 < s.len() {
                lemma_path_from(s, i + 2, acc.push(unescape(s[i + 1])));
            }
        } else {
            lemma_path_from(s, i + 1, acc.push(s[i]));
        }
    }
}

/// Whether a token is whitespace, which has a zero-width span.
pub open spec fn is_blank(t: TokenModel) -> bool {
    t.kind is Space || t.kind is NewLine
}

/// The position after the characters that a token was scanned from: the end of its span, or
/// the position after a whitespace token's one character.
pub open spec fn consumed_end(t: TokenModel) -> int {
    if is_blank(t) {
        t.start + 1
    } else {
        t.end
    }
}

/// Before the end of the input, a lexing step consumes at least one character, and a token
/// that it yields starts where the step starts and was scanned from exactly the characters
/// consumed; its span covers them all, but for whitespace, whose span is empty.
pub proof fn lemma_lex_step(s: Seq<char>, pos: int, index: int)
    requires
        0 <= pos < s.len(),
    ensures
        pos < lex_step(s, pos, index).1 <= s.len(),
        lex_step(s, pos, index).0 matches Ok(t) ==> t.start == pos && t.index == index && !(
        t.kind is EOF) && consumed_end(t) == lex_step(s, pos, index).1 && (if is_blank(t) {
            t.end == t.start
        } else {
            t.end == lex_step(s, pos, index).1
        }),
{
    lemma_scan(s, pos + 1, CharClass::Ident);
    lemma_find_char(s, pos + 1, s[pos]);
    lemma_path_from(s, pos + 1, seq![s[pos]]);
    if pos + 2 <= s.len() {
        lemma_scan(s, pos + 2, CharClass::Binary);
        lemma_scan(s, pos + 2, CharClass::Hex);
    }
    lemma_scan(s, pos + 1, CharClass::Decimal);
    let c = s[pos];
    if '0' <= c && c <= '9' {
        let from = if s[pos] == '0' && pos + 1 < s.len() && (s[pos + 1] == 'b' || s[pos + 1]
            == 'x') {
            pos + 2
        } else {
            pos + 1
        };
        let k = if s[pos] == '0' && pos + 1 < s.len() && s[pos + 1] == 'b' {
            CharClass::Binary
        } else if s[pos] == '0' && pos + 1 < s.len() && s[pos + 1] == 'x' {
            CharClass::Hex
        } else {
            CharClass::Decimal
        };
        let j = scan(s, from, k);
        if j < s.len() {
            lemma_scan(s, j, CharClass::Word);
        }
    }
}

/// Whether `it` is a token other than the end-of-input token.
pub open spec fn is_text_token(it: Item) -> bool {
    it matches Ok(t) && !(t.kind is EOF)
}

/// Whether no item before position `m` is an error.
pub open spec fn ok_before(items: Seq<Item>, m: int) -> bool {
    forall|l: int| 0 <= l < m ==> #[trigger] items[l] is Ok
}

/// The source text that the tokens in `items` were scanned from, read in order, up to the
/// first error or the end-of-input token: the text under each span, and for whitespace the
/// one character at its position.
pub open spec fn spans_text(s: Seq<char>, items: Seq<Item>) -> Seq<char>
    decreases items.len(),
{
    if items.len() == 0 {
        seq![]
    } else {
        match items[0] {
            Ok(t) => if t.kind is EOF {
                seq![]
            } else {
                s.subrange(t.start, consumed_end(t)) + spans_text(s, items.drop_first())
            },
            Err(_) => seq![],
        }
    }
}

proof fn lemma_items_from(s: Seq<char>, pos: int, index: int)
    requires
        0 <= pos <= s.len(),
    ensures
        lex_items(s, pos, index).len() >= 1,
        forall|m: int|
            0 <= m < lex_items(s, pos, index).len() && #[trigger] is_text_token(
                lex_items(s, pos, index)[m],
            ) && ok_before(lex_items(s, pos, index), m) ==> {
                let t = lex_items(s, pos, index)[m]->Ok_0;
                &&& pos <= t.start <= t.end <= consumed_end(t) <= s.len()
                &&& t.start < consumed_end(t)
                &&& is_blank(t) ==> t.end == t.start
                &&& !is_blank(t) ==> t.end == consumed_end(t)
                &&& m == 0 ==> t.start == pos
                &&& m > 0 ==> t.start == consumed_end(lex_items(s, pos, index)[m - 1]->Ok_0)
            },
        ok_before(lex_items(s, pos, index), lex_items(s, pos, index).len() as int) ==> spans_text(
            s,
            lex_items(s, pos, index),
        ) == s.subrange(pos, s.len() as int),
    decreases s.len() - pos,
{
    let items = lex_items(s, pos, index);
    if pos < s.len() {
        lemma_lex_step(s, pos, index);
        let (it, next) = lex_step(s, pos, index);
        let rest = lex_items(s, next, index + 1);
        lemma_items_from(s, next, index + 1);
        assert(items == seq![it] + rest);
        assert(items.drop_first() =~= rest);
        assert forall|m: int|
            0 <= m < items.len() && #[trigger] is_text_token(items[m]) && ok_before(
                items,
                m,
            ) implies {
            let t = items[m]->Ok_0;
            &&& pos <= t.start <= t.end <= consumed_end(t) <= s.len()
            &&& t.start < consumed_end(t)
            &&& is_blank(t) ==> t.end == t.start
            &&& !is_blank(t) ==> t.end == consumed_end(t)
            &&& m == 0 ==> t.start == pos
            &&& m > 0 ==> t.start == consumed_end(items[m - 1]->Ok_0)
        } by {
            if m > 0 {
                assert(items[m] == rest[m - 1]);
                assert(items[0] is Ok);
                assert forall|l: int| 0 <= l < m - 1 implies #[trigger] rest[l] is Ok by {
                    assert(items[l + 1] is Ok);
                    assert(items[l + 1] == rest[l]);
                }
                assert(is_text_token(rest[m - 1]));
                if m > 1 {
                    assert(items[m - 1] == rest[m - 2]);
                }
            }
        }
        if ok_before(items, items.len() as int) {
            assert forall|l: int| 0 <= l < rest.len() implies #[trigger] rest[l] is Ok by {
                assert(items[l + 1] is Ok);
                assert(items[l + 1] == rest[l]);
            }
            assert(items[0] is Ok);
            assert(s.subrange(pos, next) + s.subrange(next, s.len() as int) =~= s.subrange(
                pos,
                s.len() as int,
            ));
        }
    } else {
        assert(items == seq![lex_step(s, pos, index).0]);
        assert(items.drop_first() =~= seq![]);
    }
}

/// Lexing covers its input in order. Every token that comes before the first error starts
/// where the characters of the previous token end, and the first one at the start of the
/// input; its span is half-open, lies within the input, and covers the characters it was
/// scanned from, but for whitespace, whose span is empty. So spans are ordered and do not
/// overlap. When no error comes, the characters the tokens were scanned from, read in
/// order, are the whole input.
pub proof fn lemma_token_spans(s: Seq<char>)
    ensures
        forall|m: int|
            0 <= m < lex_items(s, 0, 0).len() && #[trigger] is_text_token(lex_items(s, 0, 0)[m])
                && ok_before(lex_items(s, 0, 0), m) ==> {
                let t = lex_items(s, 0, 0)[m]->Ok_0;
                &&& 0 <= t.start <= t.end <= consumed_end(t) <= s.len()
                &&& t.start < consumed_end(t)
                &&& is_blank(t) ==> t.end == t.start
                &&& !is_blank(t) ==> t.end == consumed_end(t)
                &&& m == 0 ==> t.start == 0
                &&& m > 0 ==> t.start == consumed_end(lex_items(s, 0, 0)[m - 1]->Ok_0)
            },
        ok_before(lex_items(s, 0, 0), lex_items(s, 0, 0).len() as int) ==> spans_text(
            s,
            lex_items(s, 0, 0),
        ) == s,
{
    lemma_items_from(s, 0, 0);
    assert(s.subrange(0, s.len() as int) =~= s);
}

/// A string literal runs from its opening quote through the next occurrence of the same
/// quote, with no escapes and no nesting; with no such occurrence, lexing fails with an
/// unterminated-string error whose span is the opening quote.
pub proof fn lemma_string_literal(s: Seq<char>, pos: int, index: int)
    requires
        0 <= pos < s.len(),
        s[pos] == '"' || s[pos] == '\'',
    ensures
        (forall|j: int| pos < j < s.len() ==> #[trigger] s[j] != s[pos]) ==> lex_step(s, pos, index)
            == (Err::<TokenModel, ErrModel>(
            ErrModel::Unterminated(pos, pos + 1, index, unterminated_string_message()),
        ), s.len() as int),
        forall|j: int|
            pos < j < s.len() && #[trigger] s[j] == s[pos] && (forall|l: int|
                pos < l < j ==> s[l] != s[pos]) ==> lex_step(s, pos, index) == (
            tok(Kind::Str(s.subrange(pos, j + 1)), pos, j + 1, index), j + 1),
{
    lemma_find_char(s, pos + 1, s[pos]);
    let f = find_char(s, pos + 1, s[pos]);
    assert forall|j: int|
        pos < j < s.len() && #[trigger] s[j] == s[pos] && (forall|l: int|
            pos < l < j ==> s[l] != s[pos]) implies f == j by {
        if f < j {
            assert(s[f] == s[pos]);
        }
    }
    if f < s.len() {
        assert(s[f] == s[pos]);
    }
}

/// An identifier's text is the whole run of identifier characters from its first character,
/// counted in characters, and its span is exactly that run.
pub proof fn lemma_identifier_run(s: Seq<char>, pos: int, index: int)
    requires
        0 <= pos < s.len(),
        lex_step(s, pos, index).0 matches Ok(t) && t.kind is Ident,
    ensures
        ({
            let t = lex_step(s, pos, index).0->Ok_0;
            &&& t.start == pos < t.end <= s.len()
            &&& t.kind == Kind::Ident(s.subrange(t.start, t.end))
            &&& forall|m: int| t.start < m < t.end ==> in_class(CharClass::Ident, #[trigger] s[m])
            &&& t.end == s.len() || !in_class(CharClass::Ident, s[t.end])
        }),
{
    lemma_lex_step(s, pos, index);
    lemma_scan(s, pos + 1, CharClass::Ident);
}

proof fn lemma_path_plain(s: Seq<char>, i: int, acc: Seq<char>)
    requires
        0 <= i <= s.len(),
        forall|m: int| 0 <= m < s.len() ==> #[trigger] s[m] != '\\',
    ensures
        i <= path_from(s, i, acc).1 <= s.len(),
        path_from(s, i, acc).0 == Some(acc + s.subrange(i, path_from(s, i, acc).1)),
    decreases s.len() - i,
{
    if i < s.len() && is_path_char(s[i]) {
        lemma_path_plain(s, i + 1, acc.push(s[i]));
        let j = path_from(s, i + 1, acc.push(s[i])).1;
        assert(acc.push(s[i]) + s.subrange(i + 1, j) =~= acc + s.subrange(i, j));
    } else {
        assert(acc + s.subrange(i, i) =~= acc);
    }
}

/// Without backslash escapes, a token's text is the source it was scanned from.
proof fn lemma_token_text(s: Seq<char>, pos: int, index: int)
    requires
        0 <= pos < s.len(),
        forall|m: int| 0 <= m < s.len() ==> #[trigger] s[m] != '\\',
    ensures
        lex_step(s, pos, index).0 matches Ok(t) ==> kind_text(t.kind) == s.subrange(
            pos,
            consumed_end(t),
        ),
{
    lemma_lex_step(s, pos, index);
    let (it, next) = lex_step(s, pos, index);
    let c = s[pos];
    if it is Ok {
        let t = it->Ok_0;
        if c == '.' || c == '/' || c == '~' {
            lemma_path_plain(s, pos + 1, seq![c]);
            let j = path_from(s, pos + 1, seq![c]).1;
            assert(seq![c] + s.subrange(pos + 1, j) =~= s.subrange(pos, j));
        } else if c == '|' || c == '&' {
            if pos + 1 < s.len() && s[pos + 1] == c {
                assert(kind_text(t.kind) =~= s.subrange(pos, pos + 2));
            } else {
                assert(kind_text(t.kind) =~= s.subrange(pos, pos + 1));
            }
        } else if t.kind is Keyword {
            assert(kind_text(t.kind) == kwd_text(Kwd::Function));
        } else {
            assert(kind_text(t.kind) =~= s.subrange(pos, consumed_end(t)));
        }
    }
}

/// The texts of the tokens in `items`, read in order, up to the first error or the
/// end-of-input token.
pub open spec fn tokens_text(items: Seq<Item>) -> Seq<char>
    decreases items.len(),
{
    if items.len() == 0 {
        seq![]
    } else {
        match items[0] {
            Ok(t) => if t.kind is EOF {
                seq![]
            } else {
                kind_text(t.kind) + tokens_text(items.drop_first())
            },
            Err(_) => seq![],
        }
    }
}

proof fn lemma_texts_from(s: Seq<char>, pos: int, index: int)
    requires
        0 <= pos <= s.len(),
        forall|m: int| 0 <= m < s.len() ==> #[trigger] s[m] != '\\',
    ensures
        ok_before(lex_items(s, pos, index), lex_items(s, pos, index).len() as int) ==> tokens_text(
            lex_items(s, pos, index),
        ) == s.subrange(pos, s.len() as int),
    decreases s.len() - pos,
{
    let items = lex_items(s, pos, index);
    if pos < s.len() {
        lemma_lex_step(s, pos, index);
        lemma_token_text(s, pos, index);
        let (it, next) = lex_step(s, pos, index);
        let rest = lex_items(s, next, index + 1);
        lemma_texts_from(s, next, index + 1);
        assert(items == seq![it] + rest);
        assert(items.drop_first() =~= rest);
        if ok_before(items, items.len() as int) {
            assert forall|l: int| 0 <= l < rest.len() implies #[trigger] rest[l] is Ok by {
                assert(items[l + 1] is Ok);
                assert(items[l + 1] == rest[l]);
            }
            assert(items[0] is Ok);
            assert(s.subrange(pos, next) + s.subrange(next, s.len() as int) =~= s.subrange(
                pos,
                s.len() as int,
            ));
        }
    } else {
        assert(items == seq![lex_step(s, pos, index).0]);
    }
}

/// Without backslash escapes, and when no error comes, the texts of the tokens read in
/// order are the input: whitespace, punctuation and quotes included.
pub proof fn lemma_tokens_text(s: Seq<char>)
    requires
        forall|m: int| 0 <= m < s.len() ==> #[trigger] s[m] != '\\',
    ensures
        ok_before(lex_items(s, 0, 0), lex_items(s, 0, 0).len() as int) ==> tokens_text(
            lex_items(s, 0, 0),
        ) == s,
{
    lemma_texts_from(s, 0, 0);
    assert(s.subrange(0, s.len() as int) =~= s);
}

/// A lexer's state: the input, the position of the next character, whether the
/// end-of-input token has been produced, and how many items have been produced.
pub struct LexerModel {
    pub input: Seq<char>,
    pub pos: int,
    pub done: bool,
    pub count: int,
}

pub open spec fn lexer_wf(m: LexerModel) -> bool {
    &&& 0 <= m.pos <= m.input.len() < usize::MAX
    &&& 0 <= m.count
    &&& !m.done ==> m.count <= m.pos
    &&& m.done ==> m.pos == m.input.len()
}

/// The items that a lexer in state `m` has still to yield.
pub open spec fn lexer_rest(m: LexerModel) -> Seq<Item> {
    if m.done {
        seq![]
    } else {
        lex_items(m.input, m.pos, m.count)
    }
}

/// Turns characters into tokens, one at a time.
pub struct Lexer {
    input: Vec<char>,
    pos: usize,
    is_eof: bool,
    count: usize,
}

impl View for Lexer {
    type V = LexerModel;

    closed spec fn view(&self) -> LexerModel {
        LexerModel {
            input: self.input@,
            pos: self.pos as int,
            done: self.is_eof,
            count: self.count as int,
        }
    }
}

fn char_in_class(k: CharClass, c: char) -> (r: bool)
    ensures
        r == in_class(k, c),
{
    match k {
        CharClass::Ident => (!ascii_punctuation(c) && !white_space(c)) || c == '_' || c == '-',
        CharClass::Binary => c == '0' || c == '1',
        CharClass::Hex => ('0' <= c && c <= '9') || ('a' <= c && c <= 'f') || ('A' <= c && c
            <= 'F'),
        CharClass::Decimal => ('0' <= c && c <= '9') || c == '.',
        CharClass::Word => !ascii_punctuation(c) && !white_space(c),
    }
}

fn path_char(c: char) -> (r: bool)
    ensures
        r == is_path_char(c),
{
    !white_space(c) && c != '|' && c != '<' && c != '>' && c != ':' && c != '"' && c != '?' && c
        != '*'
}

fn escape_char(c: char) -> (r: char)
    ensures
        r == unescape(c),
{
    match c {
        'n' => '\n',
        'r' => '\r',
        't' => '\t',
        '0' => '\0',
        c => c,
    }
}

/// An identifier-shaped text as a token kind.
fn token_type(s: String) -> (r: Tokens)
    ensures
        r@ == classify(s@),
{
    if let Some(kwd) = Kwd::new(s.as_str()) {
        Tokens::Keyword(kwd)
    } else {
        Tokens::Ident(s)
    }
}

impl Lexer {
    pub fn new(input: &str) -> (r: Lexer)
        requires
            input@.len() < usize::MAX,
        ensures
            r@ == (LexerModel { input: input@, pos: 0, done: false, count: 0 }),
            lexer_wf(r@),
    {
        Lexer { input: chars_of(input), pos: 0, is_eof: false, count: 0 }
    }

    /// The position after the characters of class `k` that start at `from`.
    fn eat(&self, from: usize, k: CharClass) -> (j: usize)
        requires
            from <= self.input@.len(),
        ensures
            j == scan(self.input@, from as int, k),
    {
        proof {
            lemma_scan(self.input@, from as int, k);
        }
        let mut j = from;
        while j < self.input.len() && char_in_class(k, self.input[j])
            invariant
                from <= j <= self.input@.len(),
                scan(self.input@, j as int, k) == scan(self.input@, from as int, k),
            decreases self.input@.len() - j,
        {
            j = j + 1;
        }
        j
    }

    fn or(&mut self, start: usize, index: usize) -> (r: Token)
        requires
            start < old(self).input@.len() < usize::MAX,
        ensures
            final(self).input == old(self).input,
            final(self).count == old(self).count,
            final(self).is_eof == old(self).is_eof,
            (Ok::<TokenModel, ErrModel>(r@), final(self).pos as int) == pair_step(
                old(self).input@,
                start as int,
                '|',
                Kind::PipeLine,
                Kind::Or,
                index as int,
            ),
    {
        if start + 1 < self.input.len() && self.input[start + 1] == '|' {
            self.pos = start + 2;
            Token::new(Tokens::PipeLine, Range { start, end: start + 2 }, index)
        } else {
            self.pos = start + 1;
            Token::new(Tokens::Or, Range { start, end: start + 1 }, index)
        }
    }

    fn and(&mut self, start: usize, index: usize) -> (r: Token)
        requires
            start < old(self).input@.len() < usize::MAX,
        ensures
            final(self).input == old(self).input,
            final(self).count == old(self).count,
            final(self).is_eof == old(self).is_eof,
            (Ok::<TokenModel, ErrModel>(r@), final(self).pos as int) == pair_step(
                old(self).input@,
                start as int,
                '&',
                Kind::And,
                Kind::Background,
                index as int,
            ),
    {
        if start + 1 < self.input.len() && self.input[start + 1] == '&' {
            self.pos = start + 2;
            Token::new(Tokens::And, Range { start, end: start + 2 }, index)
        } else {
            self.pos = start + 1;
            Token::new(Tokens::Background, Range { start, end: start + 1 }, index)
        }
    }

    fn number_lex(&mut self, start: usize, from: usize, k: CharClass, index: usize) -> (r: Result<
        Token,
        ShellErr,
    >)
        requires
            start < from <= old(self).input@.len() < usize::MAX,
        ensures
            final(self).input == old(self).input,
            final(self).count == old(self).count,
            final(self).is_eof == old(self).is_eof,
            (item_view(r), final(self).pos as int) == number_step(
                old(self).input@,
                start as int,
                from as int,
                k,
                index as int,
            ),
    {
        proof {
            lemma_scan(self.input@, from as int, k);
        }
        let j = self.eat(from, k);
        if j < self.input.len() && !ascii_punctuation(self.input[j]) && !white_space(self.input[j]) {
            proof {
                lemma_scan(self.input@, j as int, CharClass::Word);
            }
            let e = self.eat(j, CharClass::Word);
            self.pos = e;
            Err(ShellErr::Syntax(Range { start, end: e }, String::new()))
        } else {
            self.pos = j;
            let text = string_of(&self.input, start, j);
            Ok(Token::new(Tokens::Int(text), Range { start, end: j }, index))
        }
    }

    fn int_lex(&mut self, start: usize, index: usize) -> (r: Result<Token, ShellErr>)
        requires
            start < old(self).input@.len() < usize::MAX,
        ensures
            final(self).input == old(self).input,
            final(self).count == old(self).count,
            final(self).is_eof == old(self).is_eof,
            (item_view(r), final(self).pos as int) == int_step(
                old(self).input@,
                start as int,
                index as int,
            ),
    {
        let n = self.input.len();
        if self.input[start] == '0' && start + 1 < n && self.input[start + 1] == 'b' {
            self.number_lex(start, start + 2, CharClass::Binary, index)
        } else if self.input[start] == '0' && start + 1 < n && self.input[start + 1] == 'x' {
            self.number_lex(start, start + 2, CharClass::Hex, index)
        } else {
            self.number_lex(start, start + 1, CharClass::Decimal, index)
        }
    }

    fn str_lex(&mut self, start: usize, index: usize) -> (r: Result<Token, ShellErr>)
        requires
            start < old(self).input@.len() < usize::MAX,
        ensures
            final(self).input == old(self).input,
            final(self).count == old(self).count,
            final(self).is_eof == old(self).is_eof,
            (item_view(r), final(self).pos as int) == str_step(
                old(self).input@,
                start as int,
                index as int,
            ),
    {
        let quote = self.input[start];
        let mut j = start + 1;
        while j < self.input.len() && self.input[j] != quote
            invariant
                start < j <= self.input@.len(),
                quote == self.input@[start as int],
                find_char(self.input@, j as int, quote) == find_char(
                    self.input@,
                    start + 1,
                    quote,
                ),
            decreases self.input@.len() - j,
        {
            j = j + 1;
        }
        if j < self.input.len() {
            self.pos = j + 1;
            let text = string_of(&self.input, start, j + 1);
            Ok(Token::new(Tokens::Str(text), Range { start, end: j + 1 }, index))
        } else {
            self.pos = j;
            Err(
                ShellErr::Unterminated(
                    Range { start, end: start + 1 },
                    index,
                    message("unterminated string"),
                ),
            )
        }
    }

    fn path(&mut self, start: usize, index: usize) -> (r: Result<Token, ShellErr>)
        requires
            start < old(self).input@.len() < usize::MAX,
        ensures
            final(self).input == old(self).input,
            final(self).count == old(self).count,
            final(self).is_eof == old(self).is_eof,
            (item_view(r), final(self).pos as int) == path_step(
                old(self).input@,
                start as int,
                index as int,
            ),
    {
        let n = self.input.len();
        let mut text = string_of_char(self.input[start]);
        let mut i = start + 1;
        while i < n && path_char(self.input[i])
            invariant
                start < i <= n == self.input@.len() < usize::MAX,
                self.input == old(self).input,
                self.count == old(self).count,
                self.is_eof == old(self).is_eof,
                path_from(self.input@, i as int, text@) == path_from(
                    self.input@,
                    start + 1,
                    seq![self.input@[start as int]],
                ),
            decreases n - i,
        {
            let c = self.input[i];
            if c == '\\' {
                if i + 1 < n {
                    push_char(&mut text, escape_char(self.input[i + 1]));
                    i = i + 2;
                } else {
                    self.pos = n;
                    return Err(ShellErr::EOF);
                }
            } else {
                push_char(&mut text, c);
                i = i + 1;
            }
        }
        self.pos = i;
        Ok(Token::new(Tokens::Path(text), Range { start, end: i }, index))
    }

    fn ident_lex(&mut self, start: usize, index: usize) -> (r: Token)
        requires
            start < old(self).input@.len() < usize::MAX,
        ensures
            final(self).input == old(self).input,
            final(self).count == old(self).count,
            final(self).is_eof == old(self).is_eof,
            (Ok::<TokenModel, ErrModel>(r@), final(self).pos as int) == ident_step(
                old(self).input@,
                start as int,
                index as int,
            ),
    {
        proof {
            lemma_scan(self.input@, start + 1, CharClass::Ident);
        }
        let j = self.eat(start + 1, CharClass::Ident);
        self.pos = j;
        let text = string_of(&self.input, start, j);
        Token::new(token_type(text), Range { start, end: j }, index)
    }

    /// The next item of the input: a token, or the error that the characters at the
    /// current position make. At the end of the input, the end-of-input token.
    pub fn next_token(&mut self) -> (r: Result<Token, ShellErr>)
        requires
            lexer_wf(old(self)@),
            old(self)@.count < usize::MAX,
        ensures
            lexer_wf(final(self)@),
            final(self)@.input == old(self)@.input,
            final(self)@.count == old(self)@.count + 1,
            final(self)@.done == (old(self)@.done || old(self)@.pos >= old(self)@.input.len()),
            (item_view(r), final(self)@.pos) == lex_step(
                old(self)@.input,
                old(self)@.pos,
                old(self)@.count,
            ),
    {
        let index = self.count;
        let pos = self.pos;
        let n = self.input.len();
        self.count = index + 1;
        if pos >= n {
            self.is_eof = true;
            return Ok(Token::new(Tokens::EOF, Range { start: n, end: n }, index));
        }
        proof {
            lemma_lex_step(self.input@, pos as int, index as int);
        }
        let c = self.input[pos];
        if c == '\n' {
            self.pos = pos + 1;
            Ok(Token::new(Tokens::NewLine, Range { start: pos, end: pos }, index))
        } else if white_space(c) {
            self.pos = pos + 1;
            Ok(Token::new(Tokens::Space(c), Range { start: pos, end: pos }, index))
        } else if c == '"' || c == '\'' {
            self.str_lex(pos, index)
        } else if c == '|' {
            Ok(self.or(pos, index))
        } else if c == '&' {
            Ok(self.and(pos, index))
        } else if c == '.' || c == '/' || c == '~' {
            self.path(pos, index)
        } else if ascii_punctuation(c) && c != '_' {
            self.pos = pos + 1;
            Ok(Token::new(Tokens::Symbol(c), Range { start: pos, end: pos + 1 }, index))
        } else if '0' <= c && c <= '9' {
            self.int_lex(pos, index)
        } else {
            Ok(self.ident_lex(pos, index))
        }
    }

    /// The next item, or nothing once the end-of-input token has been produced.
    pub fn next(&mut self) -> (r: Option<Result<Token, ShellErr>>)
        requires
            lexer_wf(old(self)@),
        ensures
            lexer_wf(final(self)@),
            final(self)@.input == old(self)@.input,
            r is None <==> old(self)@.done,
            r is None ==> final(self)@ == old(self)@,
            lexer_rest(old(self)@) == match r {
                Some(it) => seq![item_view(it)] + lexer_rest(final(self)@),
                None => seq![],
            },
    {
        if self.is_eof {
            None
        } else {
            let ghost m = self@;
            let r = self.next_token();
            proof {
                if m.pos < m.input.len() {
                    lemma_lex_step(m.input, m.pos, m.count);
                }
            }
            Some(r)
        }
    }
}

} // verus!
