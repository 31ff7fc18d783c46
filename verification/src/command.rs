//! A knowledge-base record: one canonical operation with up to three
//! platform-specific command strings and a human-readable description.

use vstd::prelude::*;

verus! {

/// One command mapping record of the knowledge base.
#[derive(Debug)]
pub struct Command {
    pub id: String,
    pub category: String,
    pub description: String,
    pub linux: Option<String>,
    pub macos: Option<String>,
    pub windows: Option<String>,
}

/// The mathematical content of a record: each field as a character sequence.
pub struct CommandView {
    pub id: Seq<char>,
    pub category: Seq<char>,
    pub description: Seq<char>,
    pub linux: Option<Seq<char>>,
    pub macos: Option<Seq<char>>,
    pub windows: Option<Seq<char>>,
}

impl View for Command {
    type V = CommandView;

    open spec fn view(&self) -> CommandView {
        CommandView {
            id: self.id@,
            category: self.category@,
            description: self.description@,
            linux: match self.linux {
                Some(s) => Some(s@),
                None => None,
            },
            macos: match self.macos {
                Some(s) => Some(s@),
                None => None,
            },
            windows: match self.windows {
                Some(s) => Some(s@),
                None => None,
            },
        }
    }
}

} // verus!
