//! A command is a value pairing an executable name with an ordered argument
//! list. It carries no behaviour beyond formatting itself as one display
//! string for logs and error messages.
use vstd::prelude::*;

verus! {

/// The mathematical value of a `Command`: its executable name and arguments
/// as character sequences.
pub struct CommandV {
    pub executable: Seq<char>,
    pub args: Seq<Seq<char>>,
}

/// The display string of a command: the executable name followed by each
/// argument, separated by single spaces.
pub open spec fn display_of(c: CommandV) -> Seq<char>
    decreases c.args.len(),
{
    if c.args.len() == 0 {
        c.executable
    } else {
        display_of(CommandV { executable: c.executable, args: c.args.drop_last() }) + seq![' ']
            + c.args.last()
    }
}

/// Copies a vector of strings element by element.
pub fn clone_string_vec(v: &Vec<String>) -> (r: Vec<String>)
    ensures
        r.deep_view() == v.deep_view(),
        r@.len() == v@.len(),
{
    let mut r: Vec<String> = Vec::new();
    let mut i: usize = 0;
    while i < v.len()
        invariant
            i <= v@.len(),
            r@.len() == i,
            forall|j: int| 0 <= j < i ==> r@[j]@ == v@[j]@,
        decreases v@.len() - i,
    {
        r.push(v[i].clone());
        i += 1;
    }
    proof {
        assert(r.deep_view() =~= v.deep_view());
    }
    r
}

/// An executable name together with its argument list.
#[derive(Debug)]
pub struct Command {
    pub executable: String,
    pub args: Vec<String>,
}

impl View for Command {
    type V = CommandV;

    open spec fn view(&self) -> CommandV {
        CommandV { executable: self.executable@, args: self.args.deep_view() }
    }
}

impl Clone for Command {
    /// The copy shows the same executable and arguments.
    fn clone(&self) -> (r: Self)
        ensures
            r@ == self@,
    {
        let args = clone_string_vec(&self.args);
        let r = Command { executable: self.executable.clone(), args };
        proof {
            assert(r@.args =~= self@.args);
        }
        r
    }
}

impl Command {
    /// Pairs an executable with its arguments.
    pub fn new(executable: String, args: Vec<String>) -> (r: Command)
        ensures
            r@.executable == executable@,
            r@.args == args.deep_view(),
    {
        Command { executable, args }
    }

    /// Formats the command as a single display string.
    pub fn display(&self) -> (r: String)
        ensures
            r@ == display_of(self@),
    {
        let mut out = String::from_str(self.executable.as_str());
        let mut i: usize = 0;
        while i < self.args.len()
            invariant
                i <= self.args.len(),
                out@ == display_of(
                    CommandV {
                        executable: self.executable@,
                        args: self.args.deep_view().take(i as int),
                    },
                ),
            decreases self.args.len() - i,
        {
            out.append(" ");
            out.append(self.args[i].as_str());
            proof {
                reveal_strlit(" ");
                let pre = self.args.deep_view().take(i as int);
                let post = self.args.deep_view().take(i + 1);
                assert(post.drop_last() =~= pre);
                assert(post.last() == self.args.deep_view()[i as int]);
                assert(" "@ =~= seq![' ']);
            }
            i += 1;
        }
        proof {
            assert(self.args.deep_view().take(self.args@.len() as int) =~= self.args.deep_view());
        }
        out
    }
}

} // verus!
