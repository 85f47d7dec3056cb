use vstd::prelude::*;

use crate::shell_err::{message, ShellErr};

verus! {

/// What the last key did to the input line.
#[derive(Debug, Clone, Copy, PartialEq, Eq, Structural)]
pub enum InputState {
    NewLine,
    Execute,
    Up,
    Down,
    Left,
    Right,
    NONE,
}

/// The actions that built-in commands perform.
#[derive(Debug, Clone, Copy, PartialEq, Eq, Structural)]
pub enum Builtin {
    /// Ends the session.
    Exit,
}

/// A command that the shell carries out itself.
#[derive(Debug, Clone)]
pub struct BuiltinCommand {
    name: String,
    usage: String,
    action: Builtin,
}

/// A program found on the search path.
#[derive(Debug, Clone)]
pub struct EnvCommand {
    name: String,
    path: String,
    usage: String,
}

/// A registered command.
#[derive(Debug, Clone)]
pub enum ShellCommand {
    Builtin(BuiltinCommand),
    Env(EnvCommand),
}

/// What every registered command offers.
pub trait Command {
    spec fn spec_name(&self) -> Seq<char>;

    spec fn spec_usage(&self) -> Seq<char>;

    spec fn spec_builtin(&self) -> bool;

    fn get_name(&self) -> (r: &str)
        ensures
            r@ == self.spec_name(),
    ;

    fn get_usage(&self) -> (r: &str)
        ensures
            r@ == self.spec_usage(),
    ;

    fn is_builtin(&self) -> (r: bool)
        ensures
            r == self.spec_builtin(),
    ;

    fn is_sub(&self) -> (r: bool)
        ensures
            !r,
    ;
}

impl Command for BuiltinCommand {
    closed spec fn spec_name(&self) -> Seq<char> {
        self.name@
    }

    closed spec fn spec_usage(&self) -> Seq<char> {
        self.usage@
    }

    open spec fn spec_builtin(&self) -> bool {
        true
    }

    fn get_name(&self) -> (r: &str) {
        self.name.as_str()
    }

    fn get_usage(&self) -> (r: &str) {
        self.usage.as_str()
    }

    fn is_builtin(&self) -> (r: bool) {
        true
    }

    fn is_sub(&self) -> (r: bool) {
        false
    }
}

impl Command for EnvCommand {
    closed spec fn spec_name(&self) -> Seq<char> {
        self.name@
    }

    closed spec fn spec_usage(&self) -> Seq<char> {
        self.usage@
    }

    open spec fn spec_builtin(&self) -> bool {
        false
    }

    fn get_name(&self) -> (r: &str) {
        self.name.as_str()
    }

    fn get_usage(&self) -> (r: &str) {
        self.usage.as_str()
    }

    fn is_builtin(&self) -> (r: bool) {
        false
    }

    fn is_sub(&self) -> (r: bool) {
        false
    }
}

impl Command for ShellCommand {
    open spec fn spec_name(&self) -> Seq<char> {
        match self {
            ShellCommand::Builtin(c) => c.spec_name(),
            ShellCommand::Env(c) => c.spec_name(),
        }
    }

    open spec fn spec_usage(&self) -> Seq<char> {
        match self {
            ShellCommand::Builtin(c) => c.spec_usage(),
            ShellCommand::Env(c) => c.spec_usage(),
        }
    }

    open spec fn spec_builtin(&self) -> bool {
        self is Builtin
    }

    fn get_name(&self) -> (r: &str) {
        match self {
            ShellCommand::Builtin(c) => c.get_name(),
            ShellCommand::Env(c) => c.get_name(),
        }
    }

    fn get_usage(&self) -> (r: &str) {
        match self {
            ShellCommand::Builtin(c) => c.get_usage(),
            ShellCommand::Env(c) => c.get_usage(),
        }
    }

    fn is_builtin(&self) -> (r: bool) {
        match self {
            ShellCommand::Builtin(_) => true,
            ShellCommand::Env(_) => false,
        }
    }

    fn is_sub(&self) -> (r: bool) {
        false
    }
}

/// Turns a command into its registered form.
pub trait CommandClone {
    spec fn spec_boxed(&self) -> ShellCommand;

    fn clone_box(&self) -> (r: ShellCommand)
        ensures
            r == self.spec_boxed(),
    ;
}

impl CommandClone for BuiltinCommand {
    open spec fn spec_boxed(&self) -> ShellCommand {
        ShellCommand::Builtin(*self)
    }

    fn clone_box(&self) -> (r: ShellCommand) {
        ShellCommand::Builtin(
            BuiltinCommand { name: self.name.clone(), usage: self.usage.clone(), action: self.action },
        )
    }
}

impl CommandClone for EnvCommand {
    open spec fn spec_boxed(&self) -> ShellCommand {
        ShellCommand::Env(*self)
    }

    fn clone_box(&self) -> (r: ShellCommand) {
        ShellCommand::Env(
            EnvCommand { name: self.name.clone(), path: self.path.clone(), usage: self.usage.clone() },
        )
    }
}

impl BuiltinCommand {
    pub fn new(name: &str, usage: &str, action: Builtin) -> (r: BuiltinCommand)
        ensures
            r.spec_name() == name@,
            r.spec_usage() == usage@,
            r.action() == action,
    {
        BuiltinCommand { name: message(name), usage: message(usage), action }
    }

    pub closed spec fn action(&self) -> Builtin {
        self.action
    }

    /// Carries the command out on the shell state.
    pub fn run(&self, state: &mut ShellState, args: Vec<String>) -> (r: Result<(), ShellErr>)
        ensures
            r is Ok,
            self.action() == Builtin::Exit ==> final(state).is_exit,
            final(state).commands == old(state).commands,
            final(state).envs == old(state).envs,
    {
        match self.action {
            Builtin::Exit => state.exit(),
        }
        Ok(())
    }
}

impl EnvCommand {
    pub fn new(name: String, path: String) -> (r: EnvCommand)
        ensures
            r.spec_name() == name@,
            r.spec_path() == path@,
            r.spec_usage() == Seq::<char>::empty(),
    {
        EnvCommand { name, path, usage: String::new() }
    }

    pub closed spec fn spec_path(&self) -> Seq<char> {
        self.path@
    }

    /// The program's location.
    pub fn get_path(&self) -> (r: &str)
        ensures
            r@ == self.spec_path(),
    {
        self.path.as_str()
    }

    pub fn edit_usage(&mut self, usage: String)
        ensures
            final(self).spec_usage() == usage@,
            final(self).spec_name() == old(self).spec_name(),
            final(self).spec_path() == old(self).spec_path(),
    {
        self.usage = usage;
    }
}

/// The built-in commands.
pub fn get_commands() -> (r: Vec<ShellCommand>)
    ensures
        r@.len() == 1,
        r@[0] matches ShellCommand::Builtin(c) && c.spec_name() == "exit"@ && c.spec_usage()
            == Seq::<char>::empty() && c.action() == Builtin::Exit,
        r@[0].spec_builtin(),
{
    proof {
        reveal_strlit("");
    }
    assert(""@ =~= Seq::<char>::empty());
    let mut commands: Vec<ShellCommand> = Vec::new();
    commands.push(ShellCommand::Builtin(BuiltinCommand::new("exit", "", Builtin::Exit)));
    commands
}

/// The names in a list of key and value pairs are distinct.
pub open spec fn keys_unique(v: Seq<(String, String)>) -> bool {
    forall|i: int, j: int|
        0 <= i < j < v.len() ==> #[trigger] v[i].0@ != #[trigger] v[j].0@
}

/// The state of the shell: working directory, user, environment, registered commands,
/// variables, and whether the session is to end.
#[derive(Debug)]
pub struct ShellState {
    pub path: Option<String>,
    pub login: String,
    pub envs: Vec<(String, String)>,
    pub commands: Vec<ShellCommand>,
    pub variables: Vec<(String, String)>,
    pub is_exit: bool,
}

impl ShellState {
    pub open spec fn wf(&self) -> bool {
        keys_unique(self.envs@) && keys_unique(self.variables@)
    }

    pub fn new(dir: String, login: String) -> (r: ShellState)
        ensures
            r.wf(),
            r.path == Some(dir),
            r.login == login,
            r.envs@.len() == 0,
            r.commands@.len() == 0,
            r.variables@.len() == 0,
            !r.is_exit,
    {
        ShellState {
            path: Some(dir),
            login,
            envs: Vec::new(),
            commands: Vec::new(),
            variables: Vec::new(),
            is_exit: false,
        }
    }

    /// Registers the commands, after those already registered.
    pub fn init_commands(&mut self, commands: Vec<ShellCommand>)
        ensures
            final(self).commands@ == old(self).commands@ + commands@,
            final(self).path == old(self).path,
            final(self).login == old(self).login,
            final(self).envs == old(self).envs,
            final(self).variables == old(self).variables,
            final(self).is_exit == old(self).is_exit,
    {
        let mut i: usize = 0;
        let n = commands.len();
        let mut commands = commands;
        let ghost c0 = commands@;
        let ghost s0 = self.commands@;
        while i < n
            invariant
                i <= n == c0.len(),
                commands@ == c0,
                self.commands@ == s0 + c0.subrange(0, i as int),
                self.path == old(self).path,
                self.login == old(self).login,
                self.envs == old(self).envs,
                self.variables == old(self).variables,
                self.is_exit == old(self).is_exit,
                s0 == old(self).commands@,
            decreases n - i,
        {
            self.commands.push(commands[i].clone_command());
            i = i + 1;
            assert(self.commands@ =~= s0 + c0.subrange(0, i as int));
        }
        assert(c0.subrange(0, n as int) =~= c0);
    }

    pub fn exit(&mut self)
        ensures
            final(self).is_exit,
            final(self).commands == old(self).commands,
            final(self).envs == old(self).envs,
            final(self).variables == old(self).variables,
            final(self).path == old(self).path,
            final(self).login == old(self).login,
    {
        self.is_exit = true;
    }

    /// Sets the environment variable `key` to `value`: its entry is replaced where there is
    /// one, else a new entry comes last.
    pub fn add_env(&mut self, key: String, value: String)
        requires
            old(self).wf(),
        ensures
            final(self).wf(),
            (forall|i: int| 0 <= i < old(self).envs@.len() ==> #[trigger] old(self).envs@[i].0@ != key@)
                ==> final(self).envs@ == old(self).envs@.push((key, value)),
            forall|i: int|
                0 <= i < old(self).envs@.len() && #[trigger] old(self).envs@[i].0@ == key@
                    ==> final(self).envs@ == old(self).envs@.update(i, (key, value)),
            final(self).commands == old(self).commands,
            final(self).variables == old(self).variables,
            final(self).path == old(self).path,
            final(self).login == old(self).login,
            final(self).is_exit == old(self).is_exit,
    {
        let n = self.envs.len();
        let mut i: usize = 0;
        while i < n
            invariant
                i <= n == self.envs@.len(),
                self == old(self),
                old(self).wf(),
                forall|j: int| 0 <= j < i ==> #[trigger] self.envs@[j].0@ != key@,
            decreases n - i,
        {
            if self.envs[i].0 == key {
                let ghost e0 = self.envs@;
                self.envs.set(i, (key, value));
                assert forall|a: int, b: int|
                    0 <= a < b < self.envs@.len() implies #[trigger] self.envs@[a].0@
                    != #[trigger] self.envs@[b].0@ by {
                    assert(e0[a].0@ != e0[b].0@);
                }
                assert forall|j: int|
                    0 <= j < e0.len() && #[trigger] e0[j].0@ == key@ implies j == i by {
                    if j != i {
                        if j < i {
                            assert(e0[j].0@ != e0[i as int].0@);
                        } else {
                            assert(e0[i as int].0@ != e0[j].0@);
                        }
                    }
                }
                return ;
            }
            i = i + 1;
        }
        self.envs.push((key, value));
        assert forall|a: int, b: int|
            0 <= a < b < self.envs@.len() implies #[trigger] self.envs@[a].0@
            != #[trigger] self.envs@[b].0@ by {
            if b < n {
                assert(old(self).envs@[a].0@ != old(self).envs@[b].0@);
            }
        }
    }
}

impl ShellCommand {
    /// A copy of the command.
    pub fn clone_command(&self) -> (r: ShellCommand)
        ensures
            r == *self,
    {
        match self {
            ShellCommand::Builtin(c) => c.clone_box(),
            ShellCommand::Env(c) => c.clone_box(),
        }
    }
}

/// A piece of text for the terminal.
pub struct Output {
    pub string: String,
}

impl Output {
    pub fn new(string: String) -> (r: Output)
        ensures
            r.string == string,
    {
        Output { string }
    }
}

impl Default for Output {
    fn default() -> (r: Output)
        ensures
            r.string@ == Seq::<char>::empty(),
    {
        Output { string: String::new() }
    }
}

} // verus!
