//! What the launcher is handed: the program, its arguments, and the resolved
//! environment, one `NAME=VALUE` line per variable.

use vstd::prelude::*;
use crate::config::{Configuration, ConfigurationView};
use crate::environment::{assignments_of, Environment, VariableView};

verus! {

/// The command to launch and the environment to launch it in.
#[derive(Clone, Debug, PartialEq, Eq)]
pub struct Launch {
    /// The program: the first word of the command.
    pub program: String,
    /// The argument vector: every word of the command, the program included.
    pub arguments: Vec<String>,
    /// The environment, one `NAME=VALUE` line per variable.
    pub environment: Vec<String>,
}

/// The mathematical content of a [`Launch`].
pub struct LaunchView {
    pub program: Seq<char>,
    pub arguments: Seq<Seq<char>>,
    pub environment: Seq<Seq<char>>,
}

impl View for Launch {
    type V = LaunchView;

    open spec fn view(&self) -> LaunchView {
        LaunchView {
            program: self.program@,
            arguments: self.arguments.deep_view(),
            environment: self.environment.deep_view(),
        }
    }
}

/// The launch of the command of `config` in the environment `resolved`.
pub open spec fn launch_of(config: ConfigurationView, resolved: Seq<VariableView>) -> LaunchView {
    LaunchView {
        program: config.cmd[0],
        arguments: config.cmd,
        environment: assignments_of(resolved),
    }
}

/// A copy of `words`.
fn copy_of(words: &Vec<String>) -> (copy: Vec<String>)
    ensures
        copy.deep_view() == words.deep_view(),
{
    let mut copy: Vec<String> = Vec::new();
    let mut i: usize = 0;
    while i < words.len()
        invariant
            i <= words.len(),
            copy.deep_view() == words.deep_view().take(i as int),
        decreases words.len() - i,
    {
        let ghost before = copy.deep_view();
        copy.push(words[i].clone());
        assert(words.deep_view().take(i + 1) =~= before.push(words[i as int]@));
        i += 1;
    }
    copy
}

impl Launch {
    /// Puts together what the launcher needs. The command of `config` holds
    /// at least the program.
    pub fn new(config: &Configuration, resolved: &Environment) -> (launch: Launch)
        requires
            config@.cmd.len() > 0,
        ensures
            launch@ == launch_of(config@, resolved.entries()),
    {
        Launch {
            program: config.cmd[0].clone(),
            arguments: copy_of(&config.cmd),
            environment: resolved.assignments(),
        }
    }
}

} // verus!
