//! Programs that the lab runs, and their arguments.

use vstd::prelude::*;

verus! {

/// A program, its arguments and the environment variables that are set for it.
#[derive(Debug, PartialEq, Eq)]
pub struct CommandLine {
    pub program: String,
    pub args: Vec<String>,
    pub env: Vec<(String, String)>,
}

/// The meaning of a command line.
pub ghost struct CommandView {
    pub program: Seq<char>,
    pub args: Seq<Seq<char>>,
    pub env: Seq<(Seq<char>, Seq<char>)>,
}

impl View for CommandLine {
    type V = CommandView;

    open spec fn view(&self) -> CommandView {
        CommandView {
            program: self.program@,
            args: Seq::new(self.args@.len(), |i: int| self.args@[i]@),
            env: Seq::new(self.env@.len(), |i: int| (self.env@[i].0@, self.env@[i].1@)),
        }
    }
}

impl CommandView {
    /// `program` with `args` and no environment of its own.
    pub open spec fn of(program: Seq<char>, args: Seq<Seq<char>>) -> CommandView {
        CommandView { program, args, env: Seq::empty() }
    }
}

impl CommandLine {
    /// `program` without arguments.
    pub fn new(program: &str) -> (command: CommandLine)
        ensures
            command@ == CommandView::of(program@, Seq::empty()),
    {
        let command = CommandLine {
            program: String::from_str(program),
            args: Vec::new(),
            env: Vec::new(),
        };
        assert(command@.args =~= Seq::<Seq<char>>::empty());
        assert(command@.env =~= Seq::<(Seq<char>, Seq<char>)>::empty());
        command
    }

    /// Appends an argument.
    pub fn arg(&mut self, value: &str)
        ensures
            final(self)@ == (CommandView { args: old(self)@.args.push(value@), ..old(self)@ }),
    {
        self.arg_text(String::from_str(value));
    }

    /// Appends an argument.
    pub fn arg_text(&mut self, value: String)
        ensures
            final(self)@ == (CommandView { args: old(self)@.args.push(value@), ..old(self)@ }),
    {
        let ghost before = self@;
        self.args.push(value);
        assert(self@.args =~= before.args.push(value@));
        assert(self@.env =~= before.env);
    }

    /// Sets an environment variable.
    pub fn set_env(&mut self, name: &str, value: &str)
        ensures
            final(self)@ == (CommandView {
                env: old(self)@.env.push((name@, value@)),
                ..old(self)@
            }),
    {
        let ghost before = self@;
        self.env.push((String::from_str(name), String::from_str(value)));
        assert(self@.args =~= before.args);
        assert(self@.env =~= before.env.push((name@, value@)));
    }
}

} // verus!
