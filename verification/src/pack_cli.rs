//! Commands of the command line toolkit for dacti packages.
use vstd::prelude::*;

verus! {

/// Create a new dacti package.
pub struct CreateCommand {
    /// The path to create the package at.
    pub package: String,
}

/// Add files to a dacti package.
pub struct AddCommand {
    /// The path of the package to add files to.
    pub package: String,
    /// The input location of the file to add.
    pub input: String,
    /// The UUID to assign the input file.
    pub uuid: u128,
}

/// A command of the toolkit.
pub enum Command {
    Create(CreateCommand),
    Add(AddCommand),
}

impl Command {
    /// The command's name, for logging.
    pub fn name(&self) -> (r: &'static str)
        ensures
            r@ == (match self {
                Command::Create(_) => "create"@,
                Command::Add(_) => "add"@,
            }),
    {
        match self {
            Command::Create(_) => "create",
            Command::Add(_) => "add",
        }
    }
}

} // verus!
