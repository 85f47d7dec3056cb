use xshell::repl::{cursor_offset, process_line, prompt, repl_step, Step};
use xshell::input::{Input, Key};
use xshell::shell_err::ShellErr;
use xshell::state::{InputState, ShellState};
use xshell::tokens::{Style, Styled};

fn styled(text: &str, style: Style) -> Styled {
    Styled { text: text.to_string(), style }
}

#[test]
fn syntax_error_is_marked_and_rest_drained() {
    let line = process_line("a 0x1g b");
    assert!(matches!(line.error, Some(ShellErr::Syntax(_, _))));
    assert_eq!(
        line.output,
        vec![
            styled("a", Style::Name),
            styled(" ", Style::Plain),
            styled("0x1g", Style::Error),
            styled(" ", Style::Plain),
            styled("b", Style::Name),
            styled("", Style::Plain),
        ]
    );
}

#[test]
fn unterminated_delimiter_is_marked() {
    let line = process_line("function f ( x");
    let styles: Vec<Style> = line.output.iter().map(|s| s.style).collect();
    assert_eq!(styles[4], Style::Error);
    assert_eq!(line.output[4].text, "(");
    assert_eq!(styles[5], Style::Secondary);
    assert_eq!(styles[6], Style::Secondary);
}

#[test]
fn unterminated_string_is_marked() {
    let line = process_line("a \"bc");
    assert_eq!(
        line.output,
        vec![
            styled("a", Style::Name),
            styled(" ", Style::Plain),
            styled("\"", Style::Error),
            styled("bc", Style::Secondary),
        ]
    );
}

#[test]
fn clean_line_has_no_error() {
    let line = process_line("a; b");
    assert_eq!(line.asts.len(), 2);
    assert!(line.error.is_none());
}

#[test]
fn cursor_offset_counts_wide_characters() {
    let line: Vec<char> = "ab你c".chars().collect();
    assert_eq!(cursor_offset(&line, 0), 6);
    assert_eq!(cursor_offset(&line, 2), 4);
    assert_eq!(cursor_offset(&line, 4), 1);
}

#[test]
fn prompt_parts() {
    let state = ShellState::new("/home/u".to_string(), "u".to_string());
    let p = prompt(&state);
    assert_eq!(
        p,
        vec![
            styled("u", Style::Secondary),
            styled("@", Style::Plain),
            styled("/home/u", Style::Location),
            styled(": ", Style::Plain),
        ]
    );
}

#[test]
fn input_editing() {
    let mut state = ShellState::new("/".to_string(), "u".to_string());
    let mut input = Input::new();
    input.input(Key::Char('a'), &mut state);
    input.input(Key::Char('c'), &mut state);
    input.input(Key::Left, &mut state);
    input.input(Key::Char('b'), &mut state);
    assert_eq!(input.user_input.iter().collect::<String>(), "abc");
    assert_eq!(input.cursor, 2);
    input.input(Key::Backspace, &mut state);
    assert_eq!(input.user_input.iter().collect::<String>(), "ac");
    assert_eq!(input.cursor, 1);
    input.input(Key::Right, &mut state);
    input.input(Key::Right, &mut state);
    assert_eq!(input.cursor, 2);
    input.input(Key::Enter, &mut state);
    assert_eq!(input.state, InputState::Execute);
    input.input(Key::Ctrl('c'), &mut state);
    assert_eq!(input.user_input.iter().collect::<String>(), "ac^C");
    assert_eq!(input.state, InputState::NewLine);
    assert!(!state.is_exit);
    input.input(Key::Ctrl('d'), &mut state);
    assert!(state.is_exit);
    input.clear();
    assert!(input.user_input.is_empty());
    assert_eq!(input.cursor, 0);
}

#[test]
fn backspace_at_start_keeps_line() {
    let mut state = ShellState::new("/".to_string(), "u".to_string());
    let mut input = Input::new();
    input.input(Key::Char('a'), &mut state);
    input.input(Key::Left, &mut state);
    input.input(Key::Backspace, &mut state);
    assert_eq!(input.user_input, vec!['a']);
    assert_eq!(input.cursor, 0);
}

#[test]
fn repl_decisions() {
    let mut input = Input::new();
    input.user_input = "ls".chars().collect();
    input.cursor = 2;
    input.state = InputState::Execute;
    assert_eq!(repl_step(&mut input, true), Step::Retry);
    assert_eq!(input.state, InputState::NONE);
    assert_eq!(input.user_input.len(), 2);
    input.state = InputState::Execute;
    assert_eq!(repl_step(&mut input, false), Step::Submit);
    assert!(input.user_input.is_empty());
    input.state = InputState::NewLine;
    assert_eq!(repl_step(&mut input, false), Step::NewPrompt);
    input.state = InputState::Up;
    assert_eq!(repl_step(&mut input, false), Step::Idle);
}
