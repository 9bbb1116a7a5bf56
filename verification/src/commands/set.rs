use vstd::prelude::*;

use crate::environment::{lower_of, Environment};
use crate::error::HackshellError;

verus! {

/// Sets an environment variable.
pub struct SetCmd {}

impl SetCmd {
    /// The words that invoke this command.
    pub fn commands(&self) -> (r: Vec<&'static str>)
        ensures
            r@.len() == 1,
            r@[0]@ == "set"@,
    {
        let mut v: Vec<&'static str> = Vec::new();
        v.push("set");
        v
    }

    /// What this command does.
    pub fn help(&self) -> (r: &'static str)
        ensures
            r@ == "Sets an environment variable. Syntax: set <name> <value>"@,
    {
        "Sets an environment variable. Syntax: set <name> <value>"
    }

    /// The command's effect: with exactly two arguments, store the value
    /// under the (lower-cased) name; otherwise report the syntax error and
    /// change nothing.
    pub fn run(&self, cmd: &Vec<String>, env: &mut Environment) -> (r: Result<
        Option<String>,
        HackshellError,
    >)
        ensures
            cmd@.len() != 3 ==> (r matches Err(HackshellError::Message(m)) && m@
                == "Syntax: set <name> <value>"@) && final(env)@ == old(env)@,
            cmd@.len() == 3 ==> (r matches Ok(o) && o is None) && final(env)@ == old(
                env,
            )@.insert(lower_of(cmd@[1]@), cmd@[2]@),
    {
        if cmd.len() != 3 {
            return Err(HackshellError::Message(String::from_str("Syntax: set <name> <value>")));
        }
        env.set_var(cmd[1].as_str(), cmd[2].as_str());
        Ok(None)
    }
}

} // verus!
