use vstd::prelude::*;

use crate::error::HackshellError;
use crate::table::{render_table, rendered_table};

verus! {

/// What the `task` command was asked to do.
#[derive(Debug)]
pub enum TaskAction {
    /// List the running tasks.
    List,
    /// Terminate the named task.
    Terminate(String),
    /// Block until the named task ends, consuming its result.
    Wait(String),
}

/// The decision the `task` command takes from its arguments: bare, it
/// lists; with `-t`/`--terminate` and a name it terminates; with
/// `-w`/`--wait` and a name it waits; anything else is a usage error.
pub open spec fn plan_spec(cmd: Seq<String>, r: Result<TaskAction, HackshellError>) -> bool {
    if cmd.len() == 1 {
        r matches Ok(TaskAction::List)
    } else if cmd.len() == 3 && (cmd[1]@ == "-t"@ || cmd[1]@ == "--terminate"@) {
        r matches Ok(TaskAction::Terminate(n)) && n@ == cmd[2]@
    } else if cmd.len() == 3 && (cmd[1]@ == "-w"@ || cmd[1]@ == "--wait"@) {
        r matches Ok(TaskAction::Wait(n)) && n@ == cmd[2]@
    } else {
        r matches Err(HackshellError::Message(m)) && m@ == "Usage: task [-t NAME] [-w NAME]"@
    }
}

/// Whether two string slices hold the same characters.
fn str_eq(a: &str, b: &str) -> (r: bool)
    ensures
        r == (a@ == b@),
{
    let oa: String = a.to_owned();
    let ob: String = b.to_owned();
    oa == ob
}

/// Lists and manages the background tasks.
pub struct Task {}

impl Task {
    /// The words that invoke this command.
    pub fn commands(&self) -> (r: Vec<&'static str>)
        ensures
            r@.len() == 1,
            r@[0]@ == "task"@,
    {
        let mut v: Vec<&'static str> = Vec::new();
        v.push("task");
        v
    }

    /// What this command does.
    pub fn help(&self) -> (r: &'static str)
        ensures
            r@ == "Lists and manages tasks"@,
    {
        "Lists and manages tasks"
    }

    /// Decide what to do from the arguments; see [`plan_spec`].
    pub fn plan(&self, cmd: &Vec<String>) -> (r: Result<TaskAction, HackshellError>)
        ensures
            plan_spec(cmd@, r),
    {
        if cmd.len() == 1 {
            return Ok(TaskAction::List);
        }
        if cmd.len() == 3 {
            let opt = cmd[1].as_str();
            if str_eq(opt, "-t") || str_eq(opt, "--terminate") {
                return Ok(TaskAction::Terminate(cmd[2].clone()));
            }
            if str_eq(opt, "-w") || str_eq(opt, "--wait") {
                return Ok(TaskAction::Wait(cmd[2].clone()));
            }
        }
        Err(HackshellError::Message(String::from_str("Usage: task [-t NAME] [-w NAME]")))
    }

    /// The listing's output for the given rows (a task's name and its
    /// start time, already formatted): the standard two-column table, or a
    /// kind message when nothing is running.
    pub fn render(&self, rows: &Vec<(String, String)>) -> (r: String)
        ensures
            rows@.len() == 0 ==> r@ == "No running tasks\n"@,
            rows@.len() > 0 ==> r@ == rendered_table("Task"@, "Started at"@, rows@),
    {
        if rows.len() == 0 {
            proof {
                reveal_strlit("No running tasks\n");
                reveal_strlit("No running tasks");
                reveal_strlit("\n");
            }
            let mut out = String::from_str("No running tasks");
            out.append("\n");
            proof {
                assert(out@ =~= "No running tasks\n"@);
            }
            out
        } else {
            render_table("Task", "Started at", rows)
        }
    }
}

} // verus!
