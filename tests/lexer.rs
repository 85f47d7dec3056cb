use xshell::lexer::Lexer;
use xshell::shell_err::ShellErr;
use xshell::tokens::{Kwd, Token, Tokens};

fn assert_token(s: &str, arr: &[Tokens]) {
    let mut lexer = Lexer::new(s);
    for expected in arr {
        assert_eq!(expected.clone(), lexer.next_token().unwrap().ty);
    }
}

fn spans(s: &str) -> Vec<(usize, usize)> {
    let mut lexer = Lexer::new(s);
    let mut r = vec![];
    loop {
        let t = lexer.next_token().unwrap();
        r.push((t.span.start, t.span.end));
        if t.ty == Tokens::EOF {
            break;
        }
    }
    r
}

#[test]
fn test_number() {
    let s = "0b1101 123";
    let arr = [Tokens::Int("0b1101".into()), Tokens::Space(' '), Tokens::Int("123".into()), Tokens::EOF];
    assert_token(s, &arr);
}

#[test]
fn test_ident() {
    let s = "abc_1 cc123 你好 __A";
    let arr = [
        Tokens::Ident("abc_1".into()),
        Tokens::Space(' '),
        Tokens::Ident("cc123".into()),
        Tokens::Space(' '),
        Tokens::Ident("你好".into()),
        Tokens::Space(' '),
        Tokens::Ident("__A".into()),
        Tokens::EOF,
    ];
    assert_token(s, &arr);
}

#[test]
fn test_string() {
    let s = r#""abc"'abc'"#;
    let arr = [Tokens::Str(r#""abc""#.into()), Tokens::Str("'abc'".into()), Tokens::EOF];
    assert_token(s, &arr);
}

#[test]
fn test_symbol() {
    assert_token("()", &[Tokens::Symbol('('), Tokens::Symbol(')'), Tokens::EOF]);
}

#[test]
fn test_call() {
    let arr = [
        Tokens::Ident("a".into()),
        Tokens::Symbol('('),
        Tokens::Ident("c".into()),
        Tokens::Symbol(')'),
        Tokens::EOF,
    ];
    assert_token("a(c)", &arr);
}

#[test]
fn test_and_or() {
    let arr = [Tokens::PipeLine, Tokens::Or, Tokens::And, Tokens::Background, Tokens::EOF];
    assert_token("|||&&&", &arr);
}

#[test]
fn test_path() {
    let arr = [Tokens::Path("./a%b-c#@!_a/b".into()), Tokens::PipeLine, Tokens::Or];
    assert_token("./a%b-c#@!_a/b|||", &arr);
}

#[test]
fn number_spans() {
    assert_eq!(spans("0b1101 123"), vec![(0, 6), (6, 6), (7, 10), (10, 10)]);
}

#[test]
fn multibyte_identifier_spans() {
    assert_eq!(
        spans("abc_1 cc123 你好 __A"),
        vec![(0, 5), (5, 5), (6, 11), (11, 11), (12, 14), (14, 14), (15, 18), (18, 18)]
    );
}

#[test]
fn spans_tile_input() {
    let s = "ls -l ./dir|| x&&y \"q r\" 0x1F;\n";
    let chars: Vec<char> = s.chars().collect();
    let n = chars.len();
    let sp = spans(s);
    assert_eq!(sp[0].0, 0);
    for w in sp.windows(2) {
        let ((start, end), (next, _)) = (w[0], w[1]);
        assert!(start <= end && end <= next);
        if start == end {
            assert!(chars[start].is_whitespace());
            assert_eq!(next, start + 1);
        } else {
            assert_eq!(next, end);
        }
    }
    assert_eq!(*sp.last().unwrap(), (n, n));
}

#[test]
fn unterminated_string() {
    let mut lexer = Lexer::new("\"abc");
    match lexer.next_token() {
        Err(ShellErr::Unterminated(span, index, msg)) => {
            assert_eq!((span.start, span.end), (0, 1));
            assert_eq!(index, 0);
            assert_eq!(msg, "unterminated string");
        }
        other => panic!("unexpected {:?}", other),
    }
}

#[test]
fn malformed_number() {
    let mut lexer = Lexer::new("12ab c");
    match lexer.next_token() {
        Err(ShellErr::Syntax(span, msg)) => {
            assert_eq!((span.start, span.end), (0, 4));
            assert_eq!(msg, "");
        }
        other => panic!("unexpected {:?}", other),
    }
    assert_eq!(lexer.next_token().unwrap().ty, Tokens::Space(' '));
}

fn syntax_span(lexer: &mut Lexer) -> (usize, usize) {
    match lexer.next_token() {
        Err(ShellErr::Syntax(span, _)) => (span.start, span.end),
        other => panic!("unexpected {:?}", other),
    }
}

#[test]
fn malformed_number_spans_end_past_the_run() {
    assert_eq!(syntax_span(&mut Lexer::new("0b102")), (0, 5));
    let mut lexer = Lexer::new("0x1fA 0xfg");
    assert_eq!(lexer.next_token().unwrap().ty, Tokens::Int("0x1fA".into()));
    assert_eq!(lexer.next_token().unwrap().ty, Tokens::Space(' '));
    assert_eq!(syntax_span(&mut lexer), (6, 10));
    assert_eq!(syntax_span(&mut Lexer::new("12a b")), (0, 3));
}

#[test]
fn span_widths() {
    assert_eq!(spans("( || | \"ab\""), vec![(0, 1), (1, 1), (2, 4), (4, 4), (5, 6), (6, 6), (7, 11), (11, 11)]);
}

#[test]
fn hex_and_decimal() {
    assert_token("0xFf 1.5 0", &[
        Tokens::Int("0xFf".into()),
        Tokens::Space(' '),
        Tokens::Int("1.5".into()),
        Tokens::Space(' '),
        Tokens::Int("0".into()),
        Tokens::EOF,
    ]);
}

#[test]
fn path_escapes() {
    assert_token("/a\\tb c", &[Tokens::Path("/a\tb".into()), Tokens::Space(' ')]);
    let mut lexer = Lexer::new("~/x\\");
    assert!(matches!(lexer.next_token(), Err(ShellErr::EOF)));
}

#[test]
fn keyword_needs_exact_word() {
    assert_token("function functionX", &[
        Tokens::Keyword(Kwd::Function),
        Tokens::Space(' '),
        Tokens::Ident("functionX".into()),
        Tokens::EOF,
    ]);
    assert_eq!(Kwd::new("function"), Some(Kwd::Function));
    assert_eq!(Kwd::new("func"), None);
}

#[test]
fn newline_and_symbols() {
    assert_token("a;\nb-c $", &[
        Tokens::Ident("a".into()),
        Tokens::Symbol(';'),
        Tokens::NewLine,
        Tokens::Ident("b-c".into()),
        Tokens::Space(' '),
        Tokens::Symbol('$'),
        Tokens::EOF,
    ]);
}

#[test]
fn lexer_stops_after_eof() {
    let mut lexer = Lexer::new("a");
    assert!(lexer.next().is_some());
    assert_eq!(lexer.next().unwrap().unwrap().ty, Tokens::EOF);
    assert!(lexer.next().is_none());
}

#[test]
fn token_text_and_equality() {
    let t = Token::new(Tokens::Ident("ab".into()), 0..1, 0);
    assert!(t.eq(Tokens::Ident("ab".into())));
    assert!(!t.eq(Tokens::Ident("ac".into())));
    assert!(!t.eq(Tokens::Str("ab".into())));
    assert_eq!(Tokens::PipeLine.text(), "||");
    assert_eq!(Tokens::Keyword(Kwd::Function).text(), "function");
    assert_eq!(Tokens::EOF.text(), "");
}

#[test]
fn token_texts_rebuild_input() {
    let s = "ls -l ./dir|| x&&y \"q r\" 'z' 0x1F;\nfunction f";
    let mut lexer = Lexer::new(s);
    let mut text = String::new();
    loop {
        let t = lexer.next_token().unwrap();
        if t.ty == Tokens::EOF {
            break;
        }
        text.push_str(&t.ty.text());
    }
    assert_eq!(text, s);
}
