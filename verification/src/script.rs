//! Tasks carried out one after the other, stopping at the first that fails.
//!
//! A [`Task`] is a step of a protocol: one request, or a few that belong
//! together, with the rule that turns a bad reply into an [`Error`]. A
//! [`Script`] holds a list of tasks and says which request is due; told the
//! reply, it moves on. No task is begun before the one ahead of it was
//! completed, and after a failure nothing more is asked.

use crate::effect::{Command, CommandView, Reply, ReplyView, Request, RequestView};
use crate::error::{Error, ErrorView};
use crate::text::{join, join3, same, text, trim, trimmed};
use vstd::prelude::*;
use vstd::string::StringExecFns;

verus! {

/// The stage of an [`Task::Await`] at which the last attempt is made: nine
/// attempts with eight pauses between them.
pub const LAST_ATTEMPT: u8 = 16;

/// A step of a protocol.
#[derive(Debug, Clone, PartialEq, Eq)]
pub enum Task {
    /// See that a writable directory is at the path, making it if nothing is
    /// there.
    Ensure(String),
    /// Read the text at the path and keep it.
    Read(String),
    /// Read what is at the path, replacing what is not text, and keep it.
    ReadLossy(String),
    /// Read the password at the path and hold it against the second text.
    Claim(String, String),
    /// Read the text at the path; without the white space around it, it has to
    /// be the second text. The third text is the complaint if it is not.
    Require(String, String, String),
    /// Write the text to the path.
    Write(String, String),
    /// Write the text to the path, and go on even if that fails.
    Offer(String, String),
    /// Add the text to the end of the file at the path.
    Append(String, String),
    /// Remove the file at the path.
    Remove(String),
    /// Run a signing tool.
    Sign(Command),
    /// Write a template to the path, run the signing tool that reads it, and
    /// remove the template again whether or not the tool succeeded.
    Certify(String, String, Command),
    /// Run a command on the target.
    Shell(Command),
    /// Run a command again and again until it succeeds, pausing twice as long
    /// after each failure, nine times at most.
    Await(Command),
    /// Give the file at the first path the second path as another name, or
    /// copy it there if that cannot be done.
    Link(String, String),
    /// Make a directory at the path, where nothing may be yet.
    Create(String),
    /// Copy the file at the first path to the second path.
    Copy(String, String),
    /// See that nothing is at the path. The second text is the complaint
    /// if something is.
    Vacant(String, String),
}

/// A [`Task`] with its texts as sequences of characters.
pub enum TaskView {
    Ensure(Seq<char>),
    Read(Seq<char>),
    ReadLossy(Seq<char>),
    Claim(Seq<char>, Seq<char>),
    Require(Seq<char>, Seq<char>, Seq<char>),
    Write(Seq<char>, Seq<char>),
    Offer(Seq<char>, Seq<char>),
    Append(Seq<char>, Seq<char>),
    Remove(Seq<char>),
    Sign(CommandView),
    Certify(Seq<char>, Seq<char>, CommandView),
    Shell(CommandView),
    Await(CommandView),
    Link(Seq<char>, Seq<char>),
    Create(Seq<char>),
    Copy(Seq<char>, Seq<char>),
    Vacant(Seq<char>, Seq<char>),
}

impl View for Task {
    type V = TaskView;

    open spec fn view(&self) -> TaskView {
        match self {
            Task::Ensure(p) => TaskView::Ensure(p@),
            Task::Read(p) => TaskView::Read(p@),
            Task::ReadLossy(p) => TaskView::ReadLossy(p@),
            Task::Claim(p, w) => TaskView::Claim(p@, w@),
            Task::Require(p, w, c) => TaskView::Require(p@, w@, c@),
            Task::Write(p, d) => TaskView::Write(p@, d@),
            Task::Offer(p, d) => TaskView::Offer(p@, d@),
            Task::Append(p, d) => TaskView::Append(p@, d@),
            Task::Remove(p) => TaskView::Remove(p@),
            Task::Sign(c) => TaskView::Sign(c@),
            Task::Certify(p, t, c) => TaskView::Certify(p@, t@, c@),
            Task::Shell(c) => TaskView::Shell(c@),
            Task::Await(c) => TaskView::Await(c@),
            Task::Link(a, b) => TaskView::Link(a@, b@),
            Task::Create(p) => TaskView::Create(p@),
            Task::Copy(a, b) => TaskView::Copy(a@, b@),
            Task::Vacant(p, c) => TaskView::Vacant(p@, c@),
        }
    }
}

impl DeepView for Task {
    type V = TaskView;

    open spec fn deep_view(&self) -> TaskView {
        self@
    }
}

/// What a script says when asked how to go on.
#[derive(Debug, Clone, PartialEq, Eq)]
pub enum Step {
    /// Carry out this request and come back with the reply.
    Ask(Request),
    /// Every task is completed.
    Finished,
    /// A task failed; nothing more will be asked.
    Failed(Error),
}

/// A [`Step`] with its texts as sequences of characters.
pub enum StepView {
    Ask(RequestView),
    Finished,
    Failed(ErrorView),
}

impl View for Step {
    type V = StepView;

    open spec fn view(&self) -> StepView {
        match self {
            Step::Ask(r) => StepView::Ask(r@),
            Step::Finished => StepView::Finished,
            Step::Failed(e) => StepView::Failed(e@),
        }
    }
}

/// Why a request was not carried out, as far as the reply says.
pub open spec fn cause_of(reply: ReplyView) -> Seq<char> {
    match reply {
        ReplyView::Failed(c) => c,
        _ => "unexpected reply"@,
    }
}

/// The complaint about `path` after `what` could not be done with it.
pub open spec fn complaint(what: Seq<char>, path: Seq<char>, cause: Seq<char>) -> Seq<char> {
    what + path + ": "@ + cause
}

/// The pause after the attempt of stage `2 * k`, in hundredths of a time
/// unit: one, and twice as much after each further attempt.
pub open spec fn pause(k: nat) -> nat
    decreases k,
{
    if k == 0 {
        1
    } else {
        2 * pause((k - 1) as nat)
    }
}

/// The request that is due for a task at a stage.
pub open spec fn pending(task: TaskView, stage: nat) -> RequestView {
    match task {
        TaskView::Ensure(p) => if stage == 0 {
            RequestView::Probe(p)
        } else {
            RequestView::CreateDir(p)
        },
        TaskView::Read(p) => RequestView::Read(p),
        TaskView::ReadLossy(p) => RequestView::ReadLossy(p),
        TaskView::Claim(p, _) => RequestView::Read(p),
        TaskView::Require(p, _, _) => RequestView::Read(p),
        TaskView::Write(p, d) => RequestView::Write(p, d),
        TaskView::Offer(p, d) => RequestView::Write(p, d),
        TaskView::Append(p, d) => RequestView::Append(p, d),
        TaskView::Remove(p) => RequestView::Remove(p),
        TaskView::Sign(c) => RequestView::Run(c),
        TaskView::Certify(p, t, c) => if stage == 0 {
            RequestView::Write(p, t)
        } else if stage == 1 {
            RequestView::Run(c)
        } else {
            RequestView::Remove(p)
        },
        TaskView::Shell(c) => RequestView::Run(c),
        TaskView::Await(c) => if stage % 2 == 0 {
            RequestView::Run(c)
        } else {
            RequestView::Sleep(pause(stage / 2) as u64)
        },
        TaskView::Link(a, b) => if stage == 0 {
            RequestView::Link(a, b)
        } else {
            RequestView::Copy(a, b)
        },
        TaskView::Create(p) => RequestView::CreateDir(p),
        TaskView::Copy(a, b) => RequestView::Copy(a, b),
        TaskView::Vacant(p, _) => RequestView::Probe(p),
    }
}

/// What a reply means for the task it answers.
pub enum Verdict {
    /// The task is completed.
    Next,
    /// The task is completed and this text is kept.
    Keep(Seq<char>),
    /// The task goes on to its next stage; the flag says whether its tool has
    /// succeeded so far.
    Again(bool),
    /// The task has failed.
    Fail(ErrorView),
}

/// The verdict on `reply` for `task` at `stage`, where `clean` says whether
/// the task's tool has succeeded so far.
pub open spec fn judge(task: TaskView, stage: nat, clean: bool, reply: ReplyView) -> Verdict {
    match task {
        TaskView::Ensure(p) => if stage == 0 {
            match reply {
                ReplyView::Writable => Verdict::Next,
                ReplyView::Absent => Verdict::Again(clean),
                ReplyView::NotDirectory => Verdict::Fail(
                    ErrorView::DataError("Data directory "@ + p + " is not a directory"@),
                ),
                ReplyView::ReadOnly => Verdict::Fail(
                    ErrorView::DataError("Data directory "@ + p + " is not writeable"@),
                ),
                _ => Verdict::Fail(
                    ErrorView::DataError(complaint("Failed to look at "@, p, cause_of(reply))),
                ),
            }
        } else {
            match reply {
                ReplyView::Done => Verdict::Next,
                _ => Verdict::Fail(
                    ErrorView::DataError(
                        complaint("Failed to create data directory "@, p, cause_of(reply)),
                    ),
                ),
            }
        },
        TaskView::Read(p) => match reply {
            ReplyView::Text(t) => Verdict::Keep(t),
            _ => Verdict::Fail(ErrorView::IoError(complaint("Failed to read "@, p, cause_of(reply)))),
        },
        TaskView::ReadLossy(p) => match reply {
            ReplyView::Text(t) => Verdict::Keep(t),
            _ => Verdict::Fail(ErrorView::IoError(complaint("Failed to read "@, p, cause_of(reply)))),
        },
        TaskView::Claim(_, wanted) => match reply {
            ReplyView::Text(t) => if t == wanted {
                Verdict::Next
            } else {
                Verdict::Fail(ErrorView::OtpError)
            },
            _ => Verdict::Fail(ErrorView::OtpError),
        },
        TaskView::Require(_, wanted, otherwise) => match reply {
            ReplyView::Text(t) => if trimmed(t) == wanted {
                Verdict::Next
            } else {
                Verdict::Fail(ErrorView::IoError(otherwise))
            },
            _ => Verdict::Fail(ErrorView::IoError(cause_of(reply))),
        },
        TaskView::Write(p, _) => match reply {
            ReplyView::Done => Verdict::Next,
            _ => Verdict::Fail(ErrorView::IoError(complaint("Failed to write "@, p, cause_of(reply)))),
        },
        TaskView::Offer(_, _) => Verdict::Next,
        TaskView::Append(_, _) => match reply {
            ReplyView::Done => Verdict::Next,
            _ => Verdict::Fail(ErrorView::IoError(cause_of(reply))),
        },
        TaskView::Remove(_) => match reply {
            ReplyView::Done => Verdict::Next,
            _ => Verdict::Fail(ErrorView::IoError(cause_of(reply))),
        },
        TaskView::Sign(_) => match reply {
            ReplyView::Exit(ok) => if ok {
                Verdict::Next
            } else {
                Verdict::Fail(ErrorView::CertError)
            },
            _ => Verdict::Fail(ErrorView::IoError(cause_of(reply))),
        },
        TaskView::Certify(_, _, _) => if stage == 0 {
            match reply {
                ReplyView::Done => Verdict::Again(clean),
                _ => Verdict::Fail(ErrorView::IoError(cause_of(reply))),
            }
        } else if stage == 1 {
            match reply {
                ReplyView::Exit(ok) => Verdict::Again(ok),
                _ => Verdict::Fail(ErrorView::IoError(cause_of(reply))),
            }
        } else {
            match reply {
                ReplyView::Done => if clean {
                    Verdict::Next
                } else {
                    Verdict::Fail(ErrorView::CertError)
                },
                _ => Verdict::Fail(ErrorView::IoError(cause_of(reply))),
            }
        },
        TaskView::Shell(_) => match reply {
            ReplyView::Exit(ok) => if ok {
                Verdict::Next
            } else {
                Verdict::Fail(ErrorView::IoError("command failed"@))
            },
            _ => Verdict::Fail(ErrorView::IoError(cause_of(reply))),
        },
        TaskView::Await(_) => if stage % 2 == 0 {
            match reply {
                ReplyView::Exit(ok) => if ok {
                    Verdict::Next
                } else if stage >= LAST_ATTEMPT {
                    Verdict::Fail(ErrorView::IoError("timed out"@))
                } else {
                    Verdict::Again(clean)
                },
                _ => Verdict::Fail(ErrorView::IoError(cause_of(reply))),
            }
        } else {
            match reply {
                ReplyView::Done => Verdict::Again(clean),
                _ => Verdict::Fail(ErrorView::IoError(cause_of(reply))),
            }
        },
        TaskView::Link(_, _) => if stage == 0 {
            match reply {
                ReplyView::Done => Verdict::Next,
                _ => Verdict::Again(clean),
            }
        } else {
            match reply {
                ReplyView::Done => Verdict::Next,
                _ => Verdict::Fail(ErrorView::IoError(cause_of(reply))),
            }
        },
        TaskView::Create(p) => match reply {
            ReplyView::Done => Verdict::Next,
            ReplyView::Exists => Verdict::Fail(ErrorView::DataError(p + " already exists"@)),
            _ => Verdict::Fail(
                ErrorView::DataError(complaint("Failed to create "@, p, cause_of(reply))),
            ),
        },
        TaskView::Copy(a, _) => match reply {
            ReplyView::Done => Verdict::Next,
            _ => Verdict::Fail(ErrorView::IoError(complaint("Failed to copy "@, a, cause_of(reply)))),
        },
        TaskView::Vacant(_, otherwise) => match reply {
            ReplyView::Absent => Verdict::Next,
            _ => Verdict::Fail(ErrorView::DataError(otherwise)),
        },
    }
}

/// A script as the contracts see it.
pub struct ScriptView {
    /// The tasks, in the order in which they are carried out.
    pub tasks: Seq<TaskView>,
    /// How many tasks are completed.
    pub at: nat,
    /// The stage that the task in hand has reached.
    pub stage: nat,
    /// Whether the tool of the task in hand has succeeded so far.
    pub clean: bool,
    /// Whether a task has failed.
    pub halted: bool,
    /// The texts kept so far, in the order in which they were read.
    pub texts: Seq<Seq<char>>,
}

/// A script that has not begun.
pub open spec fn fresh(tasks: Seq<TaskView>) -> ScriptView {
    ScriptView { tasks, at: 0, stage: 0, clean: true, halted: false, texts: Seq::empty() }
}

/// What a script says when it is at rest: the request that is due, that all is
/// done, or that it has failed before.
pub open spec fn current(s: ScriptView) -> StepView {
    if s.halted {
        StepView::Failed(ErrorView::IoError("no request is outstanding"@))
    } else if s.at < s.tasks.len() {
        StepView::Ask(pending(s.tasks[s.at as int], s.stage))
    } else {
        StepView::Finished
    }
}

/// The script after `reply` has come in for the request that was due, and
/// what it says then. A script with no request due stays as it is.
pub open spec fn resume(s: ScriptView, reply: ReplyView) -> (ScriptView, StepView) {
    if s.halted || s.at >= s.tasks.len() {
        (s, current(s))
    } else {
        match judge(s.tasks[s.at as int], s.stage, s.clean, reply) {
            Verdict::Next => {
                let t = ScriptView { at: s.at + 1, stage: 0, clean: true, ..s };
                (t, current(t))
            },
            Verdict::Keep(text) => {
                let t = ScriptView {
                    at: s.at + 1,
                    stage: 0,
                    clean: true,
                    texts: s.texts.push(text),
                    ..s
                };
                (t, current(t))
            },
            Verdict::Again(clean) => {
                let t = ScriptView { stage: s.stage + 1, clean, ..s };
                (t, current(t))
            },
            Verdict::Fail(e) => (ScriptView { halted: true, ..s }, StepView::Failed(e)),
        }
    }
}

/// What became of a reply, with the texts owned.
enum Outcome {
    Next,
    Keep(String),
    Again(bool),
    Fail(Error),
}

impl View for Outcome {
    type V = Verdict;

    closed spec fn view(&self) -> Verdict {
        match self {
            Outcome::Next => Verdict::Next,
            Outcome::Keep(t) => Verdict::Keep(t@),
            Outcome::Again(c) => Verdict::Again(*c),
            Outcome::Fail(e) => Verdict::Fail(e@),
        }
    }
}

/// Why a request was not carried out.
fn cause(reply: Reply) -> (r: String)
    ensures
        r@ == cause_of(reply@),
{
    match reply {
        Reply::Failed(c) => c,
        _ => text("unexpected reply"),
    }
}

/// The complaint about `path` after `what` could not be done with it.
fn complain(what: &str, path: &str, reply: Reply) -> (r: String)
    ensures
        r@ == complaint(what@, path@, cause_of(reply@)),
{
    let mut s = join(what, path);
    s.append(": ");
    let c = cause(reply);
    s.append(c.as_str());
    s
}

/// The pause after the attempt of stage `2 * k`.
fn pause_of(k: u8) -> (r: u64)
    requires
        k <= 8,
    ensures
        r == pause(k as nat),
        r <= 256,
{
    let mut r: u64 = 1;
    let mut i: u8 = 0;
    proof {
        reveal_with_fuel(pause, 9);
    }
    while i < k
        invariant
            i <= k <= 8,
            r == pause(i as nat),
            r <= pause(8),
            pause(8) == 256,
        decreases k - i,
    {
        proof {
            lemma_pause_grows((i + 1) as nat, 8);
        }
        r = r * 2;
        i = i + 1;
    }
    r
}

/// A later pause is no shorter than an earlier one.
pub proof fn lemma_pause_grows(a: nat, b: nat)
    requires
        a <= b,
    ensures
        pause(a) <= pause(b),
        pause(a) >= 1,
    decreases b,
{
    if a < b {
        lemma_pause_grows(a, (b - 1) as nat);
    } else if a > 0 {
        lemma_pause_grows((a - 1) as nat, (a - 1) as nat);
    }
}

impl Task {
    /// The request that is due for the task at `stage`.
    fn request(&self, stage: u8) -> (r: Request)
        requires
            stage <= LAST_ATTEMPT,
        ensures
            r@ == pending(self@, stage as nat),
    {
        match self {
            Task::Ensure(p) => if stage == 0 {
                Request::Probe(p.clone())
            } else {
                Request::CreateDir(p.clone())
            },
            Task::Read(p) => Request::Read(p.clone()),
            Task::ReadLossy(p) => Request::ReadLossy(p.clone()),
            Task::Claim(p, _) => Request::Read(p.clone()),
            Task::Require(p, _, _) => Request::Read(p.clone()),
            Task::Write(p, d) => Request::Write(p.clone(), d.clone()),
            Task::Offer(p, d) => Request::Write(p.clone(), d.clone()),
            Task::Append(p, d) => Request::Append(p.clone(), d.clone()),
            Task::Remove(p) => Request::Remove(p.clone()),
            Task::Sign(c) => Request::Run(c.copy()),
            Task::Certify(p, t, c) => if stage == 0 {
                Request::Write(p.clone(), t.clone())
            } else if stage == 1 {
                Request::Run(c.copy())
            } else {
                Request::Remove(p.clone())
            },
            Task::Shell(c) => Request::Run(c.copy()),
            Task::Await(c) => if stage % 2 == 0 {
                Request::Run(c.copy())
            } else {
                Request::Sleep(pause_of(stage / 2))
            },
            Task::Link(a, b) => if stage == 0 {
                Request::Link(a.clone(), b.clone())
            } else {
                Request::Copy(a.clone(), b.clone())
            },
            Task::Create(p) => Request::CreateDir(p.clone()),
            Task::Copy(a, b) => Request::Copy(a.clone(), b.clone()),
            Task::Vacant(p, _) => Request::Probe(p.clone()),
        }
    }

    /// The verdict on `reply` for the task at `stage`.
    fn settle(&self, stage: u8, clean: bool, reply: Reply) -> (r: Outcome)
        ensures
            r@ == judge(self@, stage as nat, clean, reply@),
    {
        match self {
            Task::Ensure(p) => if stage == 0 {
                match reply {
                    Reply::Writable => Outcome::Next,
                    Reply::Absent => Outcome::Again(clean),
                    Reply::NotDirectory => Outcome::Fail(
                        Error::DataError(
                            join3("Data directory ", p.as_str(), " is not a directory"),
                        ),
                    ),
                    Reply::ReadOnly => Outcome::Fail(
                        Error::DataError(join3("Data directory ", p.as_str(), " is not writeable")),
                    ),
                    _ => Outcome::Fail(
                        Error::DataError(complain("Failed to look at ", p.as_str(), reply)),
                    ),
                }
            } else {
                match reply {
                    Reply::Done => Outcome::Next,
                    _ => Outcome::Fail(
                        Error::DataError(
                            complain("Failed to create data directory ", p.as_str(), reply),
                        ),
                    ),
                }
            },
            Task::Read(p) => match reply {
                Reply::Text(t) => Outcome::Keep(t),
                _ => Outcome::Fail(Error::IoError(complain("Failed to read ", p.as_str(), reply))),
            },
            Task::ReadLossy(p) => match reply {
                Reply::Text(t) => Outcome::Keep(t),
                _ => Outcome::Fail(Error::IoError(complain("Failed to read ", p.as_str(), reply))),
            },
            Task::Claim(_, wanted) => match reply {
                Reply::Text(t) => if same(t.as_str(), wanted.as_str()) {
                    Outcome::Next
                } else {
                    Outcome::Fail(Error::OtpError())
                },
                _ => Outcome::Fail(Error::OtpError()),
            },
            Task::Require(_, wanted, otherwise) => match reply {
                Reply::Text(t) => {
                    let bare = trim(t.as_str());
                    if same(bare.as_str(), wanted.as_str()) {
                        Outcome::Next
                    } else {
                        Outcome::Fail(Error::IoError(otherwise.clone()))
                    }
                },
                _ => Outcome::Fail(Error::IoError(cause(reply))),
            },
            Task::Write(p, _) => match reply {
                Reply::Done => Outcome::Next,
                _ => Outcome::Fail(Error::IoError(complain("Failed to write ", p.as_str(), reply))),
            },
            Task::Offer(_, _) => Outcome::Next,
            Task::Append(_, _) => match reply {
                Reply::Done => Outcome::Next,
                _ => Outcome::Fail(Error::IoError(cause(reply))),
            },
            Task::Remove(_) => match reply {
                Reply::Done => Outcome::Next,
                _ => Outcome::Fail(Error::IoError(cause(reply))),
            },
            Task::Sign(_) => match reply {
                Reply::Exit(ok) => if ok {
                    Outcome::Next
                } else {
                    Outcome::Fail(Error::CertError())
                },
                _ => Outcome::Fail(Error::IoError(cause(reply))),
            },
            Task::Certify(_, _, _) => if stage == 0 {
                match reply {
                    Reply::Done => Outcome::Again(clean),
                    _ => Outcome::Fail(Error::IoError(cause(reply))),
                }
            } else if stage == 1 {
                match reply {
                    Reply::Exit(ok) => Outcome::Again(ok),
                    _ => Outcome::Fail(Error::IoError(cause(reply))),
                }
            } else {
                match reply {
                    Reply::Done => if clean {
                        Outcome::Next
                    } else {
                        Outcome::Fail(Error::CertError())
                    },
                    _ => Outcome::Fail(Error::IoError(cause(reply))),
                }
            },
            Task::Shell(_) => match reply {
                Reply::Exit(ok) => if ok {
                    Outcome::Next
                } else {
                    Outcome::Fail(Error::IoError(text("command failed")))
                },
                _ => Outcome::Fail(Error::IoError(cause(reply))),
            },
            Task::Await(_) => if stage % 2 == 0 {
                match reply {
                    Reply::Exit(ok) => if ok {
                        Outcome::Next
                    } else if stage >= LAST_ATTEMPT {
                        Outcome::Fail(Error::IoError(text("timed out")))
                    } else {
                        Outcome::Again(clean)
                    },
                    _ => Outcome::Fail(Error::IoError(cause(reply))),
                }
            } else {
                match reply {
                    Reply::Done => Outcome::Again(clean),
                    _ => Outcome::Fail(Error::IoError(cause(reply))),
                }
            },
            Task::Link(_, _) => if stage == 0 {
                match reply {
                    Reply::Done => Outcome::Next,
                    _ => Outcome::Again(clean),
                }
            } else {
                match reply {
                    Reply::Done => Outcome::Next,
                    _ => Outcome::Fail(Error::IoError(cause(reply))),
                }
            },
            Task::Create(p) => match reply {
                Reply::Done => Outcome::Next,
                Reply::Exists => Outcome::Fail(Error::DataError(join(p.as_str(), " already exists"))),
                _ => Outcome::Fail(Error::DataError(complain("Failed to create ", p.as_str(), reply))),
            },
            Task::Copy(a, _) => match reply {
                Reply::Done => Outcome::Next,
                _ => Outcome::Fail(Error::IoError(complain("Failed to copy ", a.as_str(), reply))),
            },
            Task::Vacant(_, otherwise) => match reply {
                Reply::Absent => Outcome::Next,
                _ => Outcome::Fail(Error::DataError(otherwise.clone())),
            },
        }
    }
}

/// A script goes through its tasks in their order and never back: a reply
/// leaves the tasks as they are, completes at most the task in hand, and adds
/// at most one text to those kept. Once a task has failed, whatever comes in
/// is answered with a failure and nothing more is asked.
pub proof fn lemma_script_moves_forward(s: ScriptView, reply: ReplyView)
    ensures
        resume(s, reply).0.tasks == s.tasks,
        resume(s, reply).0.at == s.at || resume(s, reply).0.at == s.at + 1,
        resume(s, reply).0.texts == s.texts || resume(s, reply).0.texts.drop_last() == s.texts,
        s.halted ==> resume(s, reply).0 == s && resume(s, reply).1 is Failed,
        resume(s, reply).1 is Failed ==> resume(s, reply).0.halted,
        resume(s, reply).0.at > s.at ==> !(judge(s.tasks[s.at as int], s.stage, s.clean, reply) is Fail),
{
    if !s.halted && s.at < s.tasks.len() {
        match judge(s.tasks[s.at as int], s.stage, s.clean, reply) {
            Verdict::Keep(text) => {
                assert(s.texts.push(text).drop_last() =~= s.texts);
            },
            _ => {},
        }
    }
}

/// Adds the tasks `more` to the end of `tasks`.
pub fn extend(tasks: &mut Vec<Task>, more: Vec<Task>)
    ensures
        final(tasks).deep_view() == old(tasks).deep_view() + more.deep_view(),
{
    let mut more = more;
    let ghost a = tasks@;
    let ghost b = more@;
    tasks.append(&mut more);
    assert(tasks@ == a + b);
    assert(tasks.deep_view() =~= a.map_values(|t: Task| t@) + b.map_values(|t: Task| t@));
    assert(a.map_values(|t: Task| t@) =~= Seq::new(a.len(), |i: int| a[i].deep_view()));
    assert(b.map_values(|t: Task| t@) =~= Seq::new(b.len(), |i: int| b[i].deep_view()));
}

/// The stage of `task` up to which a request is ever due.
pub open spec fn last_stage(task: TaskView) -> nat {
    match task {
        TaskView::Ensure(_) => 1,
        TaskView::Certify(_, _, _) => 2,
        TaskView::Await(_) => LAST_ATTEMPT as nat,
        TaskView::Link(_, _) => 1,
        _ => 0,
    }
}

/// No verdict takes a task beyond its last stage.
pub proof fn lemma_stage_bounded(task: TaskView, stage: nat, clean: bool, reply: ReplyView)
    requires
        stage <= last_stage(task),
    ensures
        judge(task, stage, clean, reply) is Again ==> stage + 1 <= last_stage(task),
{
}

/// Tasks in the course of being carried out.
pub struct Script {
    tasks: Vec<Task>,
    at: usize,
    stage: u8,
    clean: bool,
    halted: bool,
    texts: Vec<String>,
}

impl View for Script {
    type V = ScriptView;

    closed spec fn view(&self) -> ScriptView {
        ScriptView {
            tasks: self.tasks.deep_view(),
            at: self.at as nat,
            stage: self.stage as nat,
            clean: self.clean,
            halted: self.halted,
            texts: self.texts.deep_view(),
        }
    }
}

impl Script {
    #[verifier::type_invariant]
    spec fn in_bounds(self) -> bool {
        &&& self.at <= self.tasks@.len()
        &&& self.at < self.tasks@.len() ==> self.stage as nat <= last_stage(self.tasks@[self.at as int]@)
        &&& self.at == self.tasks@.len() ==> self.stage == 0
    }

    /// A script that will carry out `tasks` in their order.
    pub fn new(tasks: Vec<Task>) -> (s: Script)
        ensures
            s@ == fresh(tasks.deep_view()),
    {
        let s = Script { tasks, at: 0, stage: 0, clean: true, halted: false, texts: Vec::new() };
        assert(s.texts.deep_view() =~= Seq::<Seq<char>>::empty());
        s
    }

    /// What the script says as it stands: the request that is due, that all is
    /// done, or that it has failed.
    pub fn begin(&self) -> (r: Step)
        ensures
            r@ == current(self@),
    {
        proof {
            use_type_invariant(self);
        }
        if self.halted {
            Step::Failed(Error::IoError(text("no request is outstanding")))
        } else if self.at < self.tasks.len() {
            Step::Ask(self.tasks[self.at].request(self.stage))
        } else {
            Step::Finished
        }
    }

    /// Takes the reply to the request that was due; gives the script as it is
    /// after that, and how to go on.
    pub fn resume(self, reply: Reply) -> (r: (Script, Step))
        ensures
            r.0@ == resume(self@, reply@).0,
            r.1@ == resume(self@, reply@).1,
    {
        proof {
            use_type_invariant(&self);
        }
        if self.halted || self.at >= self.tasks.len() {
            let step = self.begin();
            return (self, step);
        }
        let ghost task = self.tasks@[self.at as int]@;
        proof {
            lemma_stage_bounded(task, self.stage as nat, self.clean, reply@);
        }
        let outcome = self.tasks[self.at].settle(self.stage, self.clean, reply);
        let Script { tasks, at, stage, clean, halted, mut texts } = self;
        let next = match outcome {
            Outcome::Next => Script { tasks, at: at + 1, stage: 0, clean: true, halted, texts },
            Outcome::Keep(kept) => {
                let ghost before = texts.deep_view();
                texts.push(kept);
                assert(texts.deep_view() =~= before.push(kept@));
                Script { tasks, at: at + 1, stage: 0, clean: true, halted, texts }
            },
            Outcome::Again(clean) => Script { tasks, at, stage: stage + 1, clean, halted, texts },
            Outcome::Fail(e) => {
                return (Script { tasks, at, stage, clean, halted: true, texts }, Step::Failed(e));
            },
        };
        let step = next.begin();
        (next, step)
    }

    /// Whether every task is completed.
    pub fn finished(&self) -> (r: bool)
        ensures
            r == (current(self@) is Finished),
    {
        proof {
            use_type_invariant(self);
        }
        !self.halted && self.at >= self.tasks.len()
    }

    /// The texts kept so far, in the order in which they were read.
    pub fn texts(&self) -> (r: &Vec<String>)
        ensures
            r.deep_view() == self@.texts,
    {
        &self.texts
    }
}

} // verus!
