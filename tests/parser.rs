use xshell::ast::{Expression, AST};
use xshell::lexer::Lexer;
use xshell::parser::Parser;
use xshell::repl::process_line;
use xshell::shell_err::ShellErr;
use xshell::tokens::{Style, Styled, Tokens};

fn parser(s: &str) -> Parser {
    Parser::new(Lexer::new(s))
}

fn rendered(out: &[Styled]) -> String {
    out.iter().map(|s| s.text.clone()).collect::<Vec<String>>().join("")
}

#[test]
fn function_test() {
    // The block is required after the parameters, and the line ends first.
    let raw = "function a(a b)";
    let mut p = parser(raw);
    match p.parse() {
        Err(ShellErr::Syntax(span, msg)) => {
            assert_eq!((span.start, span.end), (15, 15));
            assert_eq!(msg, "Missing left bracket.");
        }
        other => panic!("unexpected {:?}", other),
    }
    assert_eq!(rendered(p.output()), "function a(a b)");
}

#[test]
fn command_test() {
    let mut p = parser("a");
    match p.parse().unwrap() {
        Some(AST::Command { name, args }) => {
            assert_eq!(name.ty, Tokens::Ident("a".into()));
            assert!(args.is_empty());
        }
        other => panic!("unexpected {:?}", other),
    }
    let mut p = parser("\"a\"");
    match p.parse().unwrap() {
        Some(AST::Command { name, args }) => {
            assert_eq!(name.ty, Tokens::Str("\"a\"".into()));
            assert!(args.is_empty());
        }
        other => panic!("unexpected {:?}", other),
    }
}

#[test]
fn command_with_semicolon() {
    let mut p = parser("a b c;");
    match p.parse().unwrap() {
        Some(AST::Command { name, args }) => {
            assert_eq!(name.ty, Tokens::Ident("a".into()));
            assert_eq!(args.len(), 2);
            assert!(matches!(&args[0], Expression::Ident(t) if t.ty == Tokens::Ident("b".into())));
            assert!(matches!(&args[1], Expression::Ident(t) if t.ty == Tokens::Ident("c".into())));
        }
        other => panic!("unexpected {:?}", other),
    }
    assert_eq!(rendered(p.output()), "a b c;");
    assert!(p.parse().unwrap().is_none());
}

#[test]
fn statements_step_by_newline() {
    let mut p = parser("a\nb x");
    assert!(matches!(p.parse().unwrap(), Some(AST::Command { .. })));
    match p.parse().unwrap() {
        Some(AST::Command { name, args }) => {
            assert_eq!(name.ty, Tokens::Ident("b".into()));
            assert_eq!(args.len(), 1);
        }
        other => panic!("unexpected {:?}", other),
    }
    assert!(p.parse().unwrap().is_none());
}

#[test]
fn function_definition() {
    let mut p = parser("function f ( x y ) { g; }");
    match p.parse().unwrap() {
        Some(AST::Function { name, parameters, block }) => {
            assert_eq!(name.ty, Tokens::Ident("f".into()));
            let vars: Vec<Tokens> = parameters.variables.iter().map(|t| t.ty.clone()).collect();
            assert_eq!(vars, vec![Tokens::Ident("x".into()), Tokens::Ident("y".into())]);
            assert_eq!(block.stmts.len(), 1);
            match &block.stmts[0] {
                AST::Command { name, args } => {
                    assert_eq!(name.ty, Tokens::Ident("g".into()));
                    assert!(args.is_empty());
                }
                other => panic!("unexpected {:?}", other),
            }
            assert_eq!(block.right.ty, Tokens::Symbol('}'));
        }
        other => panic!("unexpected {:?}", other),
    }
}

#[test]
fn function_block_closed_after_command() {
    let mut p = parser("function f ( x y ) { g }");
    match p.parse().unwrap() {
        Some(AST::Function { name, parameters, block }) => {
            assert_eq!(name.ty, Tokens::Ident("f".into()));
            let vars: Vec<Tokens> = parameters.variables.iter().map(|t| t.ty.clone()).collect();
            assert_eq!(vars, vec![Tokens::Ident("x".into()), Tokens::Ident("y".into())]);
            assert_eq!(block.stmts.len(), 1);
            match &block.stmts[0] {
                AST::Command { name, args } => {
                    assert_eq!(name.ty, Tokens::Ident("g".into()));
                    assert!(args.is_empty());
                }
                other => panic!("unexpected {:?}", other),
            }
            assert_eq!(block.right.ty, Tokens::Symbol('}'));
            assert_eq!((block.right.span.start, block.right.span.end), (23, 24));
        }
        other => panic!("unexpected {:?}", other),
    }
    assert_eq!(rendered(p.output()), "function f ( x y ) { g }");
    assert!(p.parse().unwrap().is_none());
}

#[test]
fn closing_brace_is_an_argument_at_top_level() {
    let mut p = parser("a }");
    match p.parse().unwrap() {
        Some(AST::Command { args, .. }) => {
            assert!(matches!(&args[0], Expression::Symbol(t) if t.ty == Tokens::Symbol('}')));
        }
        other => panic!("unexpected {:?}", other),
    }
}

#[test]
fn nested_blocks_close() {
    let mut p = parser("function f () { function g () { h x } k }");
    match p.parse().unwrap() {
        Some(AST::Function { block, .. }) => {
            assert_eq!(block.stmts.len(), 2);
            match &block.stmts[0] {
                AST::Function { block: inner, .. } => {
                    assert_eq!(inner.stmts.len(), 1);
                    assert!(matches!(&inner.stmts[0], AST::Command { args, .. } if args.len() == 1));
                }
                other => panic!("unexpected {:?}", other),
            }
            assert!(matches!(&block.stmts[1], AST::Command { name, .. } if name.ty == Tokens::Ident("k".into())));
        }
        other => panic!("unexpected {:?}", other),
    }
}

#[test]
fn function_missing_right_paren() {
    let mut p = parser("function f ( x y");
    match p.parse() {
        Err(ShellErr::Unterminated(span, index, msg)) => {
            assert_eq!((span.start, span.end), (11, 12));
            assert_eq!(index, 4);
            assert_eq!(msg, "Missing right parentheses brackets.");
        }
        other => panic!("unexpected {:?}", other),
    }
}

#[test]
fn function_errors() {
    let mut p = parser("function 1");
    match p.parse() {
        Err(ShellErr::Syntax(span, msg)) => {
            assert_eq!((span.start, span.end), (9, 10));
            assert_eq!(msg, "Missing function name");
        }
        other => panic!("unexpected {:?}", other),
    }
    let mut p = parser("function f x");
    match p.parse() {
        Err(ShellErr::Syntax(_, msg)) => assert_eq!(msg, "Missing left parentheses bracket."),
        other => panic!("unexpected {:?}", other),
    }
    let mut p = parser("function f (x 1)");
    match p.parse() {
        Err(ShellErr::Syntax(span, msg)) => {
            assert_eq!((span.start, span.end), (14, 15));
            assert_eq!(msg, "This is not ident.");
        }
        other => panic!("unexpected {:?}", other),
    }
}

#[test]
fn variable_needs_name() {
    let mut p = parser("echo $");
    match p.parse() {
        Err(ShellErr::Syntax(span, msg)) => {
            assert_eq!((span.start, span.end), (6, 6));
            assert_eq!(msg, "Variable name error");
        }
        other => panic!("unexpected {:?}", other),
    }
    let mut p = parser("echo $x");
    match p.parse().unwrap() {
        Some(AST::Command { args, .. }) => {
            assert!(matches!(&args[0], Expression::Variable(t) if t.ty == Tokens::Ident("x".into())));
        }
        other => panic!("unexpected {:?}", other),
    }
}

#[test]
fn bare_sigil_needs_a_name() {
    let mut p = parser("$");
    match p.parse() {
        Err(ShellErr::Syntax(span, msg)) => {
            assert_eq!((span.start, span.end), (1, 1));
            assert_eq!(msg, "Variable name error");
        }
        other => panic!("unexpected {:?}", other),
    }
}

#[test]
fn variable_names_a_command() {
    let mut p = parser("$x a");
    match p.parse().unwrap() {
        Some(AST::Command { name, args }) => {
            assert_eq!(name.ty, Tokens::Symbol('$'));
            assert_eq!(args.len(), 2);
            assert!(matches!(&args[0], Expression::Variable(t) if t.ty == Tokens::Ident("x".into())));
            assert!(matches!(&args[1], Expression::Ident(t) if t.ty == Tokens::Ident("a".into())));
        }
        other => panic!("unexpected {:?}", other),
    }
}

#[test]
fn not_an_expression() {
    let mut p = parser("a |");
    match p.parse() {
        Err(ShellErr::Syntax(span, msg)) => {
            assert_eq!((span.start, span.end), (2, 3));
            assert_eq!(msg, "Not a expression");
        }
        other => panic!("unexpected {:?}", other),
    }
}

#[test]
fn lexer_error_reaches_parser() {
    let mut p = parser("a \"b");
    assert!(matches!(p.parse(), Err(ShellErr::Unterminated(_, 2, _))));
}

#[test]
fn parse_is_repeatable() {
    for raw in ["a b c;", "function f ( x y ) { g; }", "a 0x1g b", "function f ( x"] {
        let one = process_line(raw);
        let two = process_line(raw);
        assert_eq!(format!("{:?}", one.asts), format!("{:?}", two.asts));
        assert_eq!(one.output, two.output);
        assert_eq!(one.error, two.error);
    }
}

#[test]
fn drain_takes_each_token_once() {
    let mut p = parser("a | b c");
    assert!(p.parse().is_err());
    let mut drained = vec![];
    loop {
        match p.eat_remaining_token() {
            Ok(s) => drained.push(s.text),
            Err(ShellErr::EOF) => break,
            Err(e) => panic!("unexpected {:?}", e),
        }
    }
    assert_eq!(drained, vec![" ", "b", " ", "c", ""]);
    assert!(matches!(p.eat_remaining_token(), Err(ShellErr::EOF)));
}

#[test]
fn highlight_styles() {
    let line = process_line("function f ( x ) { echo \"s\" 1; }");
    let styles: Vec<(String, Style)> = line.output.iter().map(|s| (s.text.clone(), s.style)).collect();
    assert_eq!(styles[0], ("function".to_string(), Style::Keyword));
    assert!(styles.contains(&("\"s\"".to_string(), Style::Literal)));
    assert!(styles.contains(&("1".to_string(), Style::Name)));
    assert!(styles.contains(&("{".to_string(), Style::Symbol)));
    assert!(line.error.is_none());
    assert_eq!(line.asts.len(), 1);
}
