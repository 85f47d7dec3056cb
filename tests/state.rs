use xshell::checker::Checker;
use xshell::cli::parse_key_val;
use xshell::engine::execute;
use xshell::repl::process_line;
use xshell::shell_err::ShellErr;
use xshell::state::{get_commands, Command, EnvCommand, Output, ShellCommand, ShellState};

#[test]
fn state_test() {
    let state = ShellState::new("/home/u".to_string(), "u".to_string());
    println!("{:?}", state);
    assert!(!state.is_exit);
}

#[test]
fn env_set_and_replace() {
    let mut state = ShellState::new("/".to_string(), "u".to_string());
    state.add_env("A".to_string(), "1".to_string());
    state.add_env("B".to_string(), "2".to_string());
    state.add_env("A".to_string(), "3".to_string());
    assert_eq!(
        state.envs,
        vec![("A".to_string(), "3".to_string()), ("B".to_string(), "2".to_string())]
    );
}

#[test]
fn exit_builtin_runs() {
    let mut state = ShellState::new("/".to_string(), "u".to_string());
    state.init_commands(get_commands());
    assert_eq!(state.commands.len(), 1);
    assert_eq!(state.commands[0].get_name(), "exit");
    assert_eq!(state.commands[0].get_usage(), "");
    assert!(state.commands[0].is_builtin());
    let line = process_line("exit");
    let plan = execute(&state, &line.asts);
    assert_eq!(plan.len(), 1);
    let cmd = state.commands[plan[0].command].clone_command();
    match cmd {
        ShellCommand::Builtin(b) => b.run(&mut state, plan[0].args.clone()).unwrap(),
        ShellCommand::Env(_) => panic!("not a builtin"),
    }
    assert!(state.is_exit);
}

#[test]
fn execute_skips_unknown_and_keeps_order() {
    let mut state = ShellState::new("/".to_string(), "u".to_string());
    let mut ls = EnvCommand::new("ls".to_string(), "/bin/ls".to_string());
    ls.edit_usage("list".to_string());
    assert_eq!(ls.get_usage(), "list");
    assert_eq!(ls.get_path(), "/bin/ls");
    state.init_commands(vec![ShellCommand::Env(ls)]);
    state.init_commands(get_commands());
    let line = process_line("ls -a \"x y\" $HOME;nope 1;exit");
    let plan = execute(&state, &line.asts);
    assert_eq!(plan.len(), 2);
    assert_eq!(plan[0].command, 0);
    assert_eq!(plan[0].args, vec!["-", "a", "\"x y\"", "HOME"]);
    assert_eq!(plan[1].command, 1);
    assert!(plan[1].args.is_empty());
}

#[test]
fn checker_reports_unknown_command() {
    let mut state = ShellState::new("/".to_string(), "u".to_string());
    state.init_commands(get_commands());
    let checker = Checker::new(&state);
    let ok = process_line("exit");
    assert!(checker.check(&ok.asts[0]).is_ok());
    let bad = process_line("x;nope");
    assert_eq!(bad.asts.len(), 2);
    match checker.check(&bad.asts[1]) {
        Err(ShellErr::UnknownCommand(index, name)) => {
            assert_eq!(index, 2);
            assert_eq!(name, "nope");
        }
        other => panic!("unexpected {:?}", other),
    }
}

#[test]
fn key_value_pairs() {
    assert_eq!(parse_key_val("A=b=c").unwrap(), ("A".to_string(), "b=c".to_string()));
    assert_eq!(parse_key_val("=x").unwrap(), (String::new(), "x".to_string()));
    assert_eq!(
        parse_key_val("nokey").unwrap_err(),
        "invalid KEY=value: no `=` found in `nokey`"
    );
}

#[test]
fn output_text() {
    assert_eq!(Output::new("hi".to_string()).string, "hi");
    assert_eq!(Output::default().string, "");
}
