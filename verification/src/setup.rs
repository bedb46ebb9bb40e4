//! What has to be in place before the operator's tool does anything else.

use crate::effect::{Reply, ReplyView, Request, RequestView};
use crate::error::{Error, ErrorView};
use crate::field::{barley_home, fields_home, images_home, ssh_home, Layout};
use crate::script::{
    current, extend, fresh, resume, Script, ScriptView, Step, StepView, TaskView,
};
use crate::ssh::{has_line, seed_host, update_config, with_settings};
use crate::store::joined;
use crate::text::text;
use vstd::prelude::*;

verus! {

/// The tasks that follow the reading of the operator's configuration of the
/// secure shell, which holds `config`: the settings for seeds are brought
/// into it unless they are there, and the three stores are validated.
pub open spec fn setup_tasks(home: Seq<char>, config: Seq<char>) -> Seq<TaskView> {
    let path = joined(ssh_home(home), "config"@);
    let backup = joined(ssh_home(home), "config.barley-backup"@);
    (if has_line(config, seed_host()) {
        Seq::<TaskView>::empty()
    } else if config.len() == 0 {
        seq![TaskView::Write(path, with_settings(config))]
    } else {
        seq![
            TaskView::Vacant(
                backup,
                "SSH config is missing a 'Host seed-*' line, but backup already exists."@,
            ),
            TaskView::Copy(path, backup),
            TaskView::Write(path, with_settings(config)),
        ]
    }) + seq![
        TaskView::Ensure(barley_home(home)),
        TaskView::Ensure(fields_home(home)),
        TaskView::Ensure(images_home(home)),
    ]
}

/// The setting up of the operator's home directory.
pub enum Setup {
    /// The directory of the operator's keys is being looked for.
    Looking(Layout),
    /// The operator's configuration of the secure shell is being read.
    Reading(Layout),
    /// The configuration and the stores are being put in order.
    Running(Script),
    /// The directory of the operator's keys is missing.
    Halted,
}

/// A [`Setup`] as the contracts see it.
pub enum SetupView {
    Looking(Seq<char>),
    Reading(Seq<char>),
    Running(ScriptView),
    Halted,
}

impl View for Setup {
    type V = SetupView;

    open spec fn view(&self) -> SetupView {
        match self {
            Setup::Looking(l) => SetupView::Looking(l@),
            Setup::Reading(l) => SetupView::Reading(l@),
            Setup::Running(s) => SetupView::Running(s@),
            Setup::Halted => SetupView::Halted,
        }
    }
}

impl SetupView {
    /// What is said at rest.
    pub open spec fn current(self) -> StepView {
        match self {
            SetupView::Looking(home) => StepView::Ask(RequestView::Probe(ssh_home(home))),
            SetupView::Reading(home) => StepView::Ask(
                RequestView::Read(joined(ssh_home(home), "config"@)),
            ),
            SetupView::Running(s) => current(s),
            SetupView::Halted => StepView::Failed(ErrorView::IoError("no request is outstanding"@)),
        }
    }

    /// The state after `reply` has come in for the request that was due, and
    /// what is said then. Without the directory of the operator's keys
    /// nothing is done. A configuration that cannot be read counts as one
    /// that holds nothing.
    pub open spec fn resume(self, reply: ReplyView) -> (SetupView, StepView) {
        match self {
            SetupView::Looking(home) => match reply {
                ReplyView::Absent => (
                    SetupView::Halted,
                    StepView::Failed(
                        ErrorView::DataError("Missing ~/.ssh. Run ssh-keygen -t ed25519."@),
                    ),
                ),
                _ => (SetupView::Reading(home), SetupView::Reading(home).current()),
            },
            SetupView::Reading(home) => {
                let config = match reply {
                    ReplyView::Text(t) => t,
                    _ => Seq::empty(),
                };
                let script = fresh(setup_tasks(home, config));
                (SetupView::Running(script), current(script))
            },
            SetupView::Running(s) => {
                let (next, step) = resume(s, reply);
                (SetupView::Running(next), step)
            },
            SetupView::Halted => (self, self.current()),
        }
    }
}

impl Setup {
    /// Begins to set up what lies below the home directory of `layout`.
    pub fn new(layout: &Layout) -> (s: Setup)
        ensures
            s@ == SetupView::Looking(layout@),
    {
        Setup::Looking(layout.copy())
    }

    /// What is said as things stand.
    pub fn begin(&self) -> (r: Step)
        ensures
            r@ == self@.current(),
    {
        match self {
            Setup::Looking(l) => Step::Ask(Request::Probe(text(l.home_ssh().home()))),
            Setup::Reading(l) => Step::Ask(Request::Read(l.home_ssh().file("config"))),
            Setup::Running(s) => s.begin(),
            Setup::Halted => Step::Failed(Error::IoError(text("no request is outstanding"))),
        }
    }

    /// Takes the reply to the request that was due; gives the state after
    /// that, and how to go on.
    pub fn resume(self, reply: Reply) -> (r: (Setup, Step))
        ensures
            r.0@ == self@.resume(reply@).0,
            r.1@ == self@.resume(reply@).1,
    {
        match self {
            Setup::Looking(l) => match reply {
                Reply::Absent => (
                    Setup::Halted,
                    Step::Failed(
                        Error::DataError(text("Missing ~/.ssh. Run ssh-keygen -t ed25519.")),
                    ),
                ),
                _ => {
                    let next = Setup::Reading(l);
                    let step = next.begin();
                    (next, step)
                },
            },
            Setup::Reading(l) => {
                let config = match reply {
                    Reply::Text(t) => t,
                    _ => String::new(),
                };
                let ssh = l.home_ssh();
                let mut tasks = update_config(
                    ssh.file("config").as_str(),
                    ssh.file("config.barley-backup").as_str(),
                    config.as_str(),
                );
                extend(&mut tasks, l.setup());
                let script = Script::new(tasks);
                let step = script.begin();
                (Setup::Running(script), step)
            },
            Setup::Running(s) => {
                let (next, step) = s.resume(reply);
                (Setup::Running(next), step)
            },
            Setup::Halted => (
                Setup::Halted,
                Step::Failed(Error::IoError(text("no request is outstanding"))),
            ),
        }
    }
}

} // verus!
