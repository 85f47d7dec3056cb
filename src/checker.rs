use vstd::prelude::*;

use crate::ast::AST;
use crate::chars::same_text;
use crate::shell_err::{ErrModel, ShellErr};
use crate::state::{Command, ShellCommand, ShellState};
use crate::tokens::kind_text;

verus! {

/// Whether a command named `name` is registered.
pub open spec fn known(cmds: Seq<ShellCommand>, name: Seq<char>) -> bool {
    exists|i: int| 0 <= i < cmds.len() && #[trigger] cmds[i].spec_name() == name
}

/// The first registered command named `name`, from position `i` on.
pub open spec fn first_match(cmds: Seq<ShellCommand>, name: Seq<char>, i: int) -> Option<int>
    decreases cmds.len() - i,
{
    if !(0 <= i < cmds.len()) {
        None
    } else if cmds[i].spec_name() == name {
        Some(i)
    } else {
        first_match(cmds, name, i + 1)
    }
}

proof fn lemma_first_match(cmds: Seq<ShellCommand>, name: Seq<char>, i: int)
    requires
        0 <= i <= cmds.len(),
    ensures
        first_match(cmds, name, i) is None <==> forall|j: int|
            i <= j < cmds.len() ==> #[trigger] cmds[j].spec_name() != name,
    decreases cmds.len() - i,
{
    if i < cmds.len() {
        lemma_first_match(cmds, name, i + 1);
    }
}

/// The position of the first registered command named `name`.
pub fn find_command(cmds: &Vec<ShellCommand>, name: &str) -> (r: Option<usize>)
    ensures
        r matches Some(i) ==> first_match(cmds@, name@, 0) == Some(i as int),
        r is None ==> first_match(cmds@, name@, 0) is None,
        r is None <==> !known(cmds@, name@),
{
    proof {
        lemma_first_match(cmds@, name@, 0);
    }
    let n = cmds.len();
    let mut i: usize = 0;
    while i < n
        invariant
            i <= n == cmds@.len(),
            first_match(cmds@, name@, i as int) == first_match(cmds@, name@, 0),
            forall|j: int| 0 <= j < i ==> #[trigger] cmds@[j].spec_name() != name@,
        decreases n - i,
    {
        if same_text(cmds[i].get_name(), name) {
            return Some(i);
        }
        i = i + 1;
    }
    None
}

/// Checks a statement against the shell state.
pub struct Checker<'a> {
    state: &'a ShellState,
}

impl<'a> Checker<'a> {
    pub closed spec fn commands(&self) -> Seq<ShellCommand> {
        self.state.commands@
    }

    pub fn new(state: &'a ShellState) -> (r: Self)
        ensures
            r.commands() == state.commands@,
    {
        Checker { state }
    }

    /// A command must name a registered command; other statements pass.
    pub fn check(&self, ast: &AST) -> (r: Result<(), ShellErr>)
        ensures
            match ast {
                AST::Command { name, .. } => {
                    &&& r is Ok <==> known(self.commands(), kind_text(name.ty@))
                    &&& r is Err ==> r->Err_0@ == ErrModel::UnknownCommand(
                        name.index as int,
                        kind_text(name.ty@),
                    )
                },
                _ => r is Ok,
            },
    {
        match ast {
            AST::Command { name, args: _ } => self.command(name.index, name.ty.text()),
            _ => Ok(()),
        }
    }

    fn command(&self, index: usize, name: String) -> (r: Result<(), ShellErr>)
        ensures
            r is Ok <==> known(self.commands(), name@),
            r is Err ==> r->Err_0@ == ErrModel::UnknownCommand(index as int, name@),
    {
        if find_command(&self.state.commands, name.as_str()).is_some() {
            Ok(())
        } else {
            Err(ShellErr::UnknownCommand(index, name))
        }
    }
}

} // verus!
