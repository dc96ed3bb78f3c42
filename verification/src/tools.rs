//! Commands of the command line toolkit for daicon files.
use vstd::prelude::*;

verus! {

/// Create a new daicon file.
pub struct CreateCommand {
    /// Path of the target file.
    pub target: String,
}

/// Set or add an entry in a daicon file.
pub struct SetCommand {
    /// Path of the target file.
    pub target: String,
    /// UUID to assign the added data.
    pub id: u128,
    /// Path of the input file to read.
    pub input: String,
}

/// Get an entry from a daicon file.
pub struct GetCommand {
    /// Path of the target file.
    pub target: String,
    /// UUID of the entry to get.
    pub id: u128,
    /// Path of the output file to write.
    pub output: String,
}

} // verus!
