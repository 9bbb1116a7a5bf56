use vstd::prelude::*;

use crate::environment::{lower_of, Environment};
use crate::error::HackshellError;

verus! {

/// Prints one environment variable.
pub struct Get {}

impl Get {
    /// The words that invoke this command.
    pub fn commands(&self) -> (r: Vec<&'static str>)
        ensures
            r@.len() == 1,
            r@[0]@ == "get"@,
    {
        let mut v: Vec<&'static str> = Vec::new();
        v.push("get");
        v
    }

    /// What this command does.
    pub fn help(&self) -> (r: &'static str)
        ensures
            r@ == "Prints an environment variable"@,
    {
        "Prints an environment variable"
    }

    /// The command's result: with exactly one argument, the value stored
    /// under it (looked up lower-cased); otherwise the syntax error, and a
    /// distinct error when no such variable exists.
    pub fn run(&self, cmd: &Vec<String>, env: &Environment) -> (r: Result<String, HackshellError>)
        ensures
            cmd@.len() != 2 ==> (r matches Err(HackshellError::Message(m)) && m@
                == "Syntax: get <name>"@),
            cmd@.len() == 2 && !env@.contains_key(lower_of(cmd@[1]@)) ==> (r matches Err(
                HackshellError::Message(m),
            ) && m@ == "Variable not found"@),
            cmd@.len() == 2 && env@.contains_key(lower_of(cmd@[1]@)) ==> (r matches Ok(v) && v@
                == env@[lower_of(cmd@[1]@)]),
    {
        if cmd.len() != 2 {
            return Err(HackshellError::Message(String::from_str("Syntax: get <name>")));
        }
        match env.get_var(cmd[1].as_str()) {
            Some(v) => Ok(v),
            None => Err(HackshellError::Message(String::from_str("Variable not found"))),
        }
    }
}

} // verus!
