use vstd::prelude::*;

use crate::environment::Environment;
use crate::error::HackshellError;

verus! {

/// Unsets an environment variable.
pub struct Unset {}

impl Unset {
    /// The words that invoke this command.
    pub fn commands(&self) -> (r: Vec<&'static str>)
        ensures
            r@.len() == 1,
            r@[0]@ == "unset"@,
    {
        let mut v: Vec<&'static str> = Vec::new();
        v.push("unset");
        v
    }

    /// What this command does.
    pub fn help(&self) -> (r: &'static str)
        ensures
            r@ == "Unsets an environment variable"@,
    {
        "Unsets an environment variable"
    }

    /// The command's effect: with exactly one argument, remove the
    /// variable stored under that name exactly as written (the store
    /// lower-cases names on `set`, so a name given in another case removes
    /// nothing); otherwise report the syntax error and change nothing.
    pub fn run(&self, cmd: &Vec<String>, env: &mut Environment) -> (r: Result<
        Option<String>,
        HackshellError,
    >)
        ensures
            cmd@.len() != 2 ==> (r matches Err(HackshellError::Message(m)) && m@
                == "Syntax: unset <name>"@) && final(env)@ == old(env)@,
            cmd@.len() == 2 ==> (r matches Ok(o) && o is None) && final(env)@ == old(
                env,
            )@.remove(cmd@[1]@),
    {
        if cmd.len() != 2 {
            return Err(HackshellError::Message(String::from_str("Syntax: unset <name>")));
        }
        env.unset_var(cmd[1].as_str());
        Ok(None)
    }
}

} // verus!
