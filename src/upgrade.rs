//! Shell commands suggested to the user.

use vstd::prelude::*;

verus! {

/// A command to run, or a note where no command applies.
#[derive(Debug, Clone)]
pub enum UpgradeCommand {
    /// A shell command.
    Command(String),
    /// A comment shown instead of a command.
    Comment(String),
}

pub enum CommandModel {
    Command(Seq<char>),
    Comment(Seq<char>),
}

impl View for UpgradeCommand {
    type V = CommandModel;

    open spec fn view(&self) -> CommandModel {
        match self {
            UpgradeCommand::Command(s) => CommandModel::Command(s@),
            UpgradeCommand::Comment(s) => CommandModel::Comment(s@),
        }
    }
}

pub open spec fn command_views(v: Seq<UpgradeCommand>) -> Seq<CommandModel> {
    v.map_values(|c: UpgradeCommand| c@)
}

} // verus!
