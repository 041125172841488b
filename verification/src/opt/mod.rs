//! What was asked for on the command line.

mod parameter;

pub use parameter::{Parameter, ParameterView};
use vstd::prelude::*;

verus! {

/// What an [`Opt`] holds, as plain values.
pub struct OptView {
    pub debug: bool,
    pub verbose: bool,
    pub dry_run: bool,
    pub list: bool,
    pub passthrough: Option<bool>,
    pub command: Option<Seq<char>>,
    pub parameters: Seq<ParameterView>,
    pub args: Seq<Seq<u8>>,
}

/// The options and arguments of one call.
#[derive(Debug)]
pub struct Opt {
    /// Print the configuration and the options before anything is done.
    pub debug: bool,
    /// Announce the command before it is run.
    pub verbose: bool,
    /// Print the command in place of running it.
    pub dry_run: bool,
    /// List the defined commands, or the definition of the given command.
    pub list: bool,
    /// Whether a command without a definition is run under its own name; where this is
    /// not given the configuration decides.
    pub passthrough: Option<bool>,
    /// The command to run.
    pub command: Option<String>,
    /// The parameters of the command.
    pub parameters: Vec<Parameter>,
    /// The arguments that are handed to the command as they are.
    pub args: Vec<Vec<u8>>,
}

impl View for Opt {
    type V = OptView;

    open spec fn view(&self) -> OptView {
        OptView {
            debug: self.debug,
            verbose: self.verbose,
            dry_run: self.dry_run,
            list: self.list,
            passthrough: self.passthrough,
            command: match self.command {
                Some(command) => Some(command@),
                None => None,
            },
            parameters: self.parameters@.map_values(|p: Parameter| p@),
            args: self.args@.map_values(|arg: Vec<u8>| arg@),
        }
    }
}

/// What a call asks for.
#[derive(Debug, Clone, Copy, PartialEq, Eq)]
pub enum Task<'a> {
    /// The commands that are defined are to be listed.
    ListCommands,
    /// The definition of the command of this name is to be shown.
    ShowCommand(&'a str),
    /// A command is to be run.
    Run,
}

/// What a [`Task`] holds, as plain values.
pub enum TaskView {
    ListCommands,
    ShowCommand(Seq<char>),
    Run,
}

impl<'a> View for Task<'a> {
    type V = TaskView;

    open spec fn view(&self) -> TaskView {
        match self {
            Task::ListCommands => TaskView::ListCommands,
            Task::ShowCommand(name) => TaskView::ShowCommand(name@),
            Task::Run => TaskView::Run,
        }
    }
}

impl OptView {
    /// What the call asks for: with `list`, the definition of the command that is named,
    /// or all commands where none is named; without it, to run a command.
    pub open spec fn task(self) -> TaskView {
        if self.list {
            match self.command {
                Some(name) => TaskView::ShowCommand(name),
                None => TaskView::ListCommands,
            }
        } else {
            TaskView::Run
        }
    }
}

impl Opt {
    /// What the call asks for.
    pub fn task(&self) -> (task: Task<'_>)
        ensures
            task@ == self@.task(),
    {
        if self.list {
            match &self.command {
                Some(name) => Task::ShowCommand(name.as_str()),
                None => Task::ListCommands,
            }
        } else {
            Task::Run
        }
    }
}

} // verus!
