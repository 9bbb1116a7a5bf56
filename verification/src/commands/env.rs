use vstd::prelude::*;

verus! {

/// The text the `env` command prints: one `name=value` line per variable.
pub open spec fn env_lines(items: Seq<(String, String)>) -> Seq<char>
    decreases items.len(),
{
    if items.len() == 0 {
        Seq::<char>::empty()
    } else {
        env_lines(items.drop_last()) + items.last().0@ + seq!['='] + items.last().1@ + seq!['\n']
    }
}

/// Prints every environment variable.
pub struct Env {}

impl Env {
    /// The words that invoke this command.
    pub fn commands(&self) -> (r: Vec<&'static str>)
        ensures
            r@.len() == 1,
            r@[0]@ == "env"@,
    {
        let mut v: Vec<&'static str> = Vec::new();
        v.push("env");
        v
    }

    /// What this command does.
    pub fn help(&self) -> (r: &'static str)
        ensures
            r@ == "Prints all environment"@,
    {
        "Prints all environment"
    }

    /// The command's output for the given variables (as handed out by
    /// `Environment::items`): each on its own `name=value` line, in store
    /// order.
    pub fn run(&self, items: &Vec<(String, String)>) -> (r: String)
        ensures
            r@ == env_lines(items@),
    {
        let mut out = String::new();
        proof {
            reveal_strlit("=");
            reveal_strlit("\n");
            assert("="@ =~= seq!['=']);
            assert("\n"@ =~= seq!['\n']);
        }
        let n = items.len();
        let mut i: usize = 0;
        while i < n
            invariant
                i <= n,
                n == items@.len(),
                out@ == env_lines(items@.take(i as int)),
            decreases n - i,
        {
            out.append(items[i].0.as_str());
            proof {
                reveal_strlit("=");
                assert("="@ =~= seq!['=']);
            }
            out.append("=");
            out.append(items[i].1.as_str());
            proof {
                reveal_strlit("\n");
                assert("\n"@ =~= seq!['\n']);
            }
            out.append("\n");
            i = i + 1;
            proof {
                let t = items@.take(i as int);
                assert(t.drop_last() =~= items@.take(i as int - 1));
                assert(t.last() == items@[i as int - 1]);
                assert(out@ =~= env_lines(t));
            }
        }
        proof {
            assert(items@.take(n as int) =~= items@);
        }
        out
    }
}

} // verus!
