use vstd::prelude::*;

use crate::table::{render_table, rendered_table};

verus! {

/// Displays the table of available commands.
pub struct Help {}

impl Help {
    /// The words that invoke this command.
    pub fn commands(&self) -> (r: Vec<&'static str>)
        ensures
            r@.len() == 1,
            r@[0]@ == "help"@,
    {
        let mut v: Vec<&'static str> = Vec::new();
        v.push("help");
        v
    }

    /// What this command does.
    pub fn help(&self) -> (r: &'static str)
        ensures
            r@ == "Displays this message"@,
    {
        "Displays this message"
    }

    /// The command's output for the given entries, one per distinct
    /// command (its invoking words joined by commas, and its description):
    /// the standard two-column table.
    pub fn run(&self, entries: &Vec<(String, String)>) -> (r: String)
        ensures
            r@ == rendered_table("Command"@, "Description"@, entries@),
    {
        render_table("Command", "Description", entries)
    }
}

} // verus!
