//! Commands, and the operation that each one starts.

use vstd::prelude::*;
use crate::cli::cmd::{
    create, create_start, edit, edit_start, get, get_start, init, init_start, move_entry,
    move_start, remove, remove_start,
};
use crate::session::{Step, StepView};

pub mod cmd;
pub mod laws;

verus! {

/// What every operation is given: where the vault lies, whom it is
/// encrypted to, and where scratch files go. It is made once, when the
/// process starts; no operation looks anything up by itself.
#[derive(Debug, PartialEq, Eq)]
pub struct Config {
    /// The directory that holds the vault.
    pub vault_root: String,
    /// What the identity marker holds, or `None` for a vault that has no
    /// marker yet.
    pub key_identity: Option<String>,
    /// The directory under which scratch files are made.
    pub scratch_root: String,
}

/// A `Config` as the contracts see it.
pub struct ConfigView {
    pub vault_root: Seq<char>,
    pub key_identity: Option<Seq<char>>,
    pub scratch_root: Seq<char>,
}

impl View for Config {
    type V = ConfigView;

    open spec fn view(&self) -> ConfigView {
        ConfigView {
            vault_root: self.vault_root@,
            key_identity: match self.key_identity {
                Some(key_id) => Some(key_id@),
                None => None,
            },
            scratch_root: self.scratch_root@,
        }
    }
}

/// A command as the user gave it.
#[derive(Debug, PartialEq, Eq)]
pub enum Command {
    /// Make a vault for the key `key_id`.
    Init { key_id: String },
    /// Store a new secret under `name`.
    Create { name: String },
    /// Show the secret under `name`, or copy it where `clip` is set.
    Get { name: String, clip: bool },
    /// Change the secret under `name` in an editor.
    Edit { name: String },
    /// Delete the entry `name`.
    Rm { name: String },
    /// Rename the entry `source` to `target`.
    Mv { source: String, target: String },
}

/// A `Command` as the contracts see it.
pub enum CommandView {
    Init { key_id: Seq<char> },
    Create { name: Seq<char> },
    Get { name: Seq<char>, clip: bool },
    Edit { name: Seq<char> },
    Rm { name: Seq<char> },
    Mv { source: Seq<char>, target: Seq<char> },
}

impl View for Command {
    type V = CommandView;

    open spec fn view(&self) -> CommandView {
        match *self {
            Command::Init { key_id } => CommandView::Init { key_id: key_id@ },
            Command::Create { name } => CommandView::Create { name: name@ },
            Command::Get { name, clip } => CommandView::Get { name: name@, clip },
            Command::Edit { name } => CommandView::Edit { name: name@ },
            Command::Rm { name } => CommandView::Rm { name: name@ },
            Command::Mv { source, target } => CommandView::Mv { source: source@, target: target@ },
        }
    }
}

/// The first step of the operation that `command` asks for.
pub open spec fn start(config: ConfigView, command: CommandView) -> StepView {
    match command {
        CommandView::Init { key_id } => init_start(config, key_id),
        CommandView::Create { name } => create_start(config, name),
        CommandView::Get { name, clip } => get_start(config, name, clip),
        CommandView::Edit { name } => edit_start(config, name),
        CommandView::Rm { name } => remove_start(config, name),
        CommandView::Mv { source, target } => move_start(config, source, target),
    }
}

/// Starts the operation that `command` asks for.
pub fn parse(config: &Config, command: Command) -> (step: Step)
    ensures
        step@ == start(config@, command@),
{
    match command {
        Command::Init { key_id } => init(config, key_id),
        Command::Create { name } => create(config, name.as_str()),
        Command::Get { name, clip } => get(config, name.as_str(), clip),
        Command::Edit { name } => edit(config, name.as_str()),
        Command::Rm { name } => remove(config, name.as_str()),
        Command::Mv { source, target } => move_entry(config, source.as_str(), target.as_str()),
    }
}

} // verus!
