//! The parsed command language of the line-oriented dispatcher. Parsing
//! itself happens outside the library; these types carry its result.

use vstd::prelude::*;

verus! {

/// One parsed input line.
pub struct Cli {
    pub command: Commands,
}

/// The discrete operations a session understands.
pub enum Commands {
    Show { all: bool, completed: bool, incomplete: bool, list_name: Option<String> },
    Add { list_name: String, item: String },
    Complete { list_name: String, item_number: usize },
    Incomplete { list_name: String, item_number: usize },
    Remove { list_name: Option<String>, item_number: Option<usize> },
    Push,
    Pull { user_name: String },
    Login { user_name: String, email: String },
    Logout,
    Exit,
}

} // verus!
