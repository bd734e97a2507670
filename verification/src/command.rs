use vstd::prelude::*;
use vstd::string::*;

verus! {

/// The characters of each string of a list.
pub open spec fn texts(list: Seq<String>) -> Seq<Seq<char>> {
    Seq::new(list.len(), |i: int| list[i]@)
}

/// Every argument with a space before it, one after the other.
pub open spec fn spaced(args: Seq<Seq<char>>) -> Seq<char>
    decreases args.len(),
{
    if args.len() == 0 {
        Seq::empty()
    } else {
        spaced(args.drop_last()) + seq![' '] + args.last()
    }
}

/// A process to start: the executable and its arguments, in order.
#[derive(Debug, PartialEq, Eq)]
pub struct Command {
    pub program: String,
    pub args: Vec<String>,
}

impl Clone for Command {
    fn clone(&self) -> (copy: Self)
        ensures
            copy.program == self.program,
            copy.args@ == self.args@,
    {
        let mut args: Vec<String> = Vec::new();
        let mut i: usize = 0;
        while i < self.args.len()
            invariant
                i <= self.args.len(),
                args@ == self.args@.take(i as int),
            decreases self.args.len() - i,
        {
            args.push(self.args[i].clone());
            assert(args@ =~= self.args@.take(i + 1));
            i += 1;
        }
        assert(self.args@.take(i as int) =~= self.args@);
        Command { program: self.program.clone(), args }
    }
}

/// How a started process ended, as the caller that ran it reports.
#[derive(Debug, PartialEq, Eq)]
pub enum ProcessOutcome {
    /// The executable could not be launched.
    SpawnFailed { cause: String },
    /// The process was launched and could not be waited for.
    WaitFailed { cause: String },
    /// The process ran to its end.
    Exited { success: bool },
}

/// A command that can be shown as one line of text.
pub trait CommandExt {
    fn display(&self) -> String;
}

impl Command {
    /// The arguments as character sequences.
    pub open spec fn arg_texts(&self) -> Seq<Seq<char>> {
        texts(self.args@)
    }

    /// The line a shell would show: the program, then each argument after a space.
    pub open spec fn shown(&self) -> Seq<char> {
        self.program@ + spaced(self.arg_texts())
    }

    /// A command that runs `program` without arguments.
    pub fn new(program: &str) -> (cmd: Command)
        ensures
            cmd.program@ == program@,
            cmd.arg_texts() == Seq::<Seq<char>>::empty(),
    {
        let cmd = Command { program: String::from_str(program), args: Vec::new() };
        assert(cmd.arg_texts() =~= Seq::<Seq<char>>::empty());
        cmd
    }

    /// Adds one argument at the end.
    pub fn arg(&mut self, text: &str)
        ensures
            final(self).program == old(self).program,
            final(self).arg_texts() == old(self).arg_texts().push(text@),
    {
        self.args.push(String::from_str(text));
        assert(self.arg_texts() =~= old(self).arg_texts().push(text@));
    }

    /// Adds one argument at the end: a flag with its value directly behind it.
    pub fn arg_joined(&mut self, flag: &str, value: &str)
        ensures
            final(self).program == old(self).program,
            final(self).arg_texts() == old(self).arg_texts().push(flag@ + value@),
    {
        let mut text = String::from_str(flag);
        text.append(value);
        self.args.push(text);
        assert(self.arg_texts() =~= old(self).arg_texts().push(flag@ + value@));
    }
}

impl CommandExt for Command {
    fn display(&self) -> (line: String)
        ensures
            line@ == self.shown(),
    {
        let mut line = self.program.clone();
        let mut i: usize = 0;
        while i < self.args.len()
            invariant
                i <= self.args.len(),
                line@ == self.program@ + spaced(self.arg_texts().take(i as int)),
            decreases self.args.len() - i,
        {
            line.append(" ");
            line.append(self.args[i].as_str());
            proof {
                reveal_strlit(" ");
                let all = self.arg_texts();
                assert(all.take(i + 1).drop_last() =~= all.take(i as int));
                assert(" "@ =~= seq![' ']);
                assert(line@ =~= self.program@ + spaced(all.take(i + 1)));
            }
            i += 1;
        }
        assert(self.arg_texts().take(i as int) =~= self.arg_texts());
        line
    }
}

} // verus!
