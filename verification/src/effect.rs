//! What the library asks of the outside world, and what it is told in return.
//!
//! The library touches no file and starts no program. It hands out a
//! [`Request`]; whoever drives it carries the request out and hands back a
//! [`Reply`].

use crate::text::text;
use vstd::prelude::*;

verus! {

/// What a command reads on its standard input.
#[derive(Debug, Clone, PartialEq, Eq)]
pub enum Input {
    /// Nothing of the library's choosing.
    Inherit,
    /// The contents of the file at this path.
    File(String),
    /// This text.
    Text(String),
}

/// An [`Input`] with its texts as sequences of characters.
pub enum InputView {
    Inherit,
    File(Seq<char>),
    Text(Seq<char>),
}

impl View for Input {
    type V = InputView;

    open spec fn view(&self) -> InputView {
        match self {
            Input::Inherit => InputView::Inherit,
            Input::File(p) => InputView::File(p@),
            Input::Text(t) => InputView::Text(t@),
        }
    }
}

/// A program to run: its path and arguments, at most one variable added to
/// its environment, what it reads, and the file that takes what it writes.
#[derive(Debug, Clone, PartialEq, Eq)]
pub struct Command {
    pub argv: Vec<String>,
    pub env: Option<(String, String)>,
    pub input: Input,
    pub output: Option<String>,
}

/// A [`Command`] with its texts as sequences of characters.
pub struct CommandView {
    pub argv: Seq<Seq<char>>,
    pub env: Option<(Seq<char>, Seq<char>)>,
    pub input: InputView,
    pub output: Option<Seq<char>>,
}

impl View for Command {
    type V = CommandView;

    open spec fn view(&self) -> CommandView {
        CommandView {
            argv: self.argv.deep_view(),
            env: self.env.deep_view(),
            input: self.input@,
            output: self.output.deep_view(),
        }
    }
}

/// One thing to be done outside the library.
#[derive(Debug, Clone, PartialEq, Eq)]
pub enum Request {
    /// Say what is at this path.
    Probe(String),
    /// Make a directory at this path, failing if anything is there already.
    CreateDir(String),
    /// Read the file at this path as text.
    Read(String),
    /// Read the file at this path, replacing what is not text.
    ReadLossy(String),
    /// Write the text to the file at this path, replacing what it held.
    Write(String, String),
    /// Add the text to the end of the file at this path.
    Append(String, String),
    /// Remove the file at this path.
    Remove(String),
    /// Give the file at the first path a second name, the second path.
    Link(String, String),
    /// Copy the file at the first path to the second path.
    Copy(String, String),
    /// Run the command and wait for it to end.
    Run(Command),
    /// Wait for this many hundredths of a time unit.
    Sleep(u64),
}

/// A [`Request`] with its texts as sequences of characters.
pub enum RequestView {
    Probe(Seq<char>),
    CreateDir(Seq<char>),
    Read(Seq<char>),
    ReadLossy(Seq<char>),
    Write(Seq<char>, Seq<char>),
    Append(Seq<char>, Seq<char>),
    Remove(Seq<char>),
    Link(Seq<char>, Seq<char>),
    Copy(Seq<char>, Seq<char>),
    Run(CommandView),
    Sleep(u64),
}

impl View for Request {
    type V = RequestView;

    open spec fn view(&self) -> RequestView {
        match self {
            Request::Probe(p) => RequestView::Probe(p@),
            Request::CreateDir(p) => RequestView::CreateDir(p@),
            Request::Read(p) => RequestView::Read(p@),
            Request::ReadLossy(p) => RequestView::ReadLossy(p@),
            Request::Write(p, d) => RequestView::Write(p@, d@),
            Request::Append(p, d) => RequestView::Append(p@, d@),
            Request::Remove(p) => RequestView::Remove(p@),
            Request::Link(a, b) => RequestView::Link(a@, b@),
            Request::Copy(a, b) => RequestView::Copy(a@, b@),
            Request::Run(c) => RequestView::Run(c@),
            Request::Sleep(n) => RequestView::Sleep(*n),
        }
    }
}

/// How a request went.
#[derive(Debug, Clone, PartialEq, Eq)]
pub enum Reply {
    /// To `Probe`: nothing is there.
    Absent,
    /// To `Probe`: something is there that is no directory.
    NotDirectory,
    /// To `Probe`: a directory that cannot be written to.
    ReadOnly,
    /// To `Probe`: a directory that can be written to.
    Writable,
    /// It was done.
    Done,
    /// To `CreateDir`: something was there already.
    Exists,
    /// To `Read` and `ReadLossy`: what the file holds.
    Text(String),
    /// To `Run`: the command ended, with success or without.
    Exit(bool),
    /// It could not be done; the text says why.
    Failed(String),
}

/// A [`Reply`] with its texts as sequences of characters.
pub enum ReplyView {
    Absent,
    NotDirectory,
    ReadOnly,
    Writable,
    Done,
    Exists,
    Text(Seq<char>),
    Exit(bool),
    Failed(Seq<char>),
}

impl View for Reply {
    type V = ReplyView;

    open spec fn view(&self) -> ReplyView {
        match self {
            Reply::Absent => ReplyView::Absent,
            Reply::NotDirectory => ReplyView::NotDirectory,
            Reply::ReadOnly => ReplyView::ReadOnly,
            Reply::Writable => ReplyView::Writable,
            Reply::Done => ReplyView::Done,
            Reply::Exists => ReplyView::Exists,
            Reply::Text(t) => ReplyView::Text(t@),
            Reply::Exit(ok) => ReplyView::Exit(*ok),
            Reply::Failed(c) => ReplyView::Failed(c@),
        }
    }
}

/// A copy of a list of strings.
pub fn copy_strings(v: &Vec<String>) -> (r: Vec<String>)
    ensures
        r.deep_view() == v.deep_view(),
{
    let mut r: Vec<String> = Vec::new();
    let mut i: usize = 0;
    while i < v.len()
        invariant
            i <= v@.len(),
            r@.len() == i,
            forall|j: int| 0 <= j < i ==> r@[j]@ == v@[j]@,
        decreases v@.len() - i,
    {
        r.push(v[i].clone());
        i = i + 1;
    }
    assert(r.deep_view() =~= v.deep_view());
    r
}

impl Input {
    /// A copy of this input.
    pub fn copy(&self) -> (r: Input)
        ensures
            r@ == self@,
    {
        match self {
            Input::Inherit => Input::Inherit,
            Input::File(p) => Input::File(p.clone()),
            Input::Text(t) => Input::Text(t.clone()),
        }
    }
}

impl Command {
    /// The command that runs `program` without arguments.
    pub fn new(program: &str) -> (r: Command)
        ensures
            r@ == (CommandView {
                argv: seq![program@],
                env: None,
                input: InputView::Inherit,
                output: None,
            }),
    {
        let mut argv: Vec<String> = Vec::new();
        argv.push(text(program));
        let r = Command { argv, env: None, input: Input::Inherit, output: None };
        assert(r.argv.deep_view() =~= seq![program@]);
        r
    }

    /// This command with one more argument at the end.
    pub fn arg(self, a: &str) -> (r: Command)
        ensures
            r@ == (CommandView { argv: self@.argv.push(a@), ..self@ }),
    {
        let Command { mut argv, env, input, output } = self;
        let ghost before = argv.deep_view();
        argv.push(text(a));
        assert(argv.deep_view() =~= before.push(a@));
        Command { argv, env, input, output }
    }

    /// This command with the variable `name` set to `value` in its
    /// environment, in place of any variable set before.
    pub fn env(self, name: &str, value: &str) -> (r: Command)
        ensures
            r@ == (CommandView { env: Some((name@, value@)), ..self@ }),
    {
        let Command { argv, env: _, input, output } = self;
        Command { argv, env: Some((text(name), text(value))), input, output }
    }

    /// This command reading what `input` says.
    pub fn input(self, input: Input) -> (r: Command)
        ensures
            r@ == (CommandView { input: input@, ..self@ }),
    {
        let Command { argv, env, input: _, output } = self;
        Command { argv, env, input, output }
    }

    /// This command writing to the file at `path`.
    pub fn output(self, path: &str) -> (r: Command)
        ensures
            r@ == (CommandView { output: Some(path@), ..self@ }),
    {
        let Command { argv, env, input, output: _ } = self;
        Command { argv, env, input, output: Some(text(path)) }
    }

    /// A copy of this command.
    pub fn copy(&self) -> (r: Command)
        ensures
            r@ == self@,
    {
        let env = match &self.env {
            Some((k, v)) => Some((k.clone(), v.clone())),
            None => None,
        };
        let output = match &self.output {
            Some(p) => Some(p.clone()),
            None => None,
        };
        Command { argv: copy_strings(&self.argv), env, input: self.input.copy(), output }
    }
}

} // verus!
