use vstd::prelude::*;

use crate::error::HackshellError;

verus! {

/// Exits the shell: running it always yields the `Exit` error, which the
/// embedding read-eval loop turns into termination.
pub struct Exit {}

impl Exit {
    /// The words that invoke this command.
    pub fn commands(&self) -> (r: Vec<&'static str>)
        ensures
            r@.len() == 1,
            r@[0]@ == "exit"@,
    {
        let mut v: Vec<&'static str> = Vec::new();
        v.push("exit");
        v
    }

    /// What this command does.
    pub fn help(&self) -> (r: &'static str)
        ensures
            r@ == "Exits the program"@,
    {
        "Exits the program"
    }

    /// The command's whole effect: ask the owning shell to exit.
    pub fn run(&self) -> (r: Result<Option<String>, HackshellError>)
        ensures
            r matches Err(HackshellError::Exit),
    {
        Err(HackshellError::Exit)
    }
}

} // verus!
