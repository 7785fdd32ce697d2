//! The data types of the todo stack: CLI-level values, the persisted
//! configuration record, and the error taxonomy.

use vstd::prelude::*;

use crate::json::config_data_path_of;
use crate::json::config_json_of;
use crate::json::get_json_string_field;
use crate::json::to_json_string_object;

verus! {

/// The action a single invocation performs.
pub enum DFTodoAction {
    /// Show the top item without changing the stack.
    Top,
    /// Push a new item onto the top of the stack.
    Push(DFTodoItem),
    /// Remove the top item from the stack.
    Pop,
}

/// The parsed command-line arguments: one action per invocation.
pub struct DFTodoArgs {
    pub action: DFTodoAction,
}

/// One todo item: a single line of text. Items are stored one per line,
/// so the text is assumed to hold no embedded newline.
pub struct DFTodoItem {
    pub item: String,
}

/// The persisted configuration record: the location of the stack file.
pub struct Config {
    pub data_path: String,
}

impl Config {
    /// Serializes the record to its JSON text. Reading the data path back
    /// from that text yields this record's data path.
    pub fn to_json(&self) -> (r: String)
        ensures
            r@ == config_json_of(self.data_path@),
            config_data_path_of(r@) == Some(self.data_path@),
    {
        to_json_string_object("data_path", self.data_path.as_str())
    }

    /// Parses a configuration record from JSON text, or nothing where the
    /// text holds no such record.
    pub fn from_json(s: &str) -> (r: Option<Config>)
        ensures
            match r {
                Some(c) => config_data_path_of(s@) == Some(c.data_path@),
                None => config_data_path_of(s@) is None,
            },
    {
        match get_json_string_field(s, "data_path") {
            Some(p) => Some(Config { data_path: p }),
            None => None,
        }
    }
}

/// The errors of the stack layer, one per failing stage.
#[derive(Clone, Copy, Debug, PartialEq, Eq, Structural)]
pub enum DFTodoError {
    /// The configuration record could not be created, opened or parsed.
    ConfigError,
    /// The stack file or its directory could not be created or opened.
    FileAccessError,
    /// The stack file's content could not be read as text.
    ReadError,
    /// Appending an item to the stack file failed.
    WriteError,
    /// A read or write failed in either phase of a pop.
    PopError,
}

impl DFTodoError {
    /// The human-readable message surfaced at the invocation boundary.
    pub fn message(&self) -> (r: String)
        ensures
            self is ConfigError ==> r@ == "Failed to open configuration file"@,
            self is FileAccessError ==> r@ == "Error opening file"@,
            self is ReadError ==> r@ == "Failed to read stack file"@,
            self is WriteError ==> r@ == "Error writing to file"@,
            self is PopError ==> r@ == "Failed to write to file"@,
    {
        match self {
            DFTodoError::ConfigError => String::from_str("Failed to open configuration file"),
            DFTodoError::FileAccessError => String::from_str("Error opening file"),
            DFTodoError::ReadError => String::from_str("Failed to read stack file"),
            DFTodoError::WriteError => String::from_str("Error writing to file"),
            DFTodoError::PopError => String::from_str("Failed to write to file"),
        }
    }
}

} // verus!
