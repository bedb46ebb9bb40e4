//! A store of attributes: a directory with a file for each attribute and a
//! subdirectory for each entity, where a name is reserved by making its
//! directory.

use crate::effect::{Reply, ReplyView, Request, RequestView};
use crate::error::{Error, ErrorView};
use crate::names::{name_of, NameCounter, LIMIT};
use crate::script::{cause_of, complaint, Step, StepView, Task, TaskView};
use crate::text::{chars_of, join, join3, text};
use vstd::prelude::*;
use vstd::string::StringExecFns;

verus! {

/// The path of `name` below the directory `home`: `name` itself where it
/// begins at the root, else `home` and `name` with one `/` between them unless
/// `home` is empty or ends in one.
pub open spec fn joined(home: Seq<char>, name: Seq<char>) -> Seq<char> {
    if name.len() > 0 && name[0] == '/' {
        name
    } else if home.len() == 0 || home.last() == '/' {
        home + name
    } else {
        home + seq!['/'] + name
    }
}

/// The path of `name` below the directory `home`.
pub fn join_path(home: &str, name: &str) -> (r: String)
    ensures
        r@ == joined(home@, name@),
{
    let n = chars_of(name);
    if n.len() > 0 && n[0] == '/' {
        return text(name);
    }
    let h = chars_of(home);
    if h.len() == 0 || h[h.len() - 1] == '/' {
        join(home, name)
    } else {
        proof {
            reveal_strlit("/");
            assert("/"@ =~= seq!['/']);
        }
        join3(home, "/", name)
    }
}

/// A store, known by the path of its directory.
#[derive(Debug, Clone, PartialEq, Eq)]
pub struct Data {
    home: String,
}

impl View for Data {
    type V = Seq<char>;

    /// The path of the store's directory.
    closed spec fn view(&self) -> Seq<char> {
        self.home@
    }
}

impl Data {
    /// The store in the directory `home`. Nothing is looked at: the task of
    /// [`Data::ensure`] sees that the directory is there.
    pub fn new(home: &str) -> (d: Data)
        ensures
            d@ == home@,
    {
        Data { home: text(home) }
    }

    /// A second handle on this store.
    pub fn copy(&self) -> (d: Data)
        ensures
            d@ == self@,
    {
        Data { home: self.home.clone() }
    }

    /// The path of the store's directory.
    pub fn home(&self) -> (r: &str)
        ensures
            r@ == self@,
    {
        self.home.as_str()
    }

    /// The task that validates the store: its directory has to exist and be
    /// writable, and is made where nothing is in its place.
    pub fn ensure(&self) -> (t: Task)
        ensures
            t@ == TaskView::Ensure(self@),
    {
        Task::Ensure(self.home.clone())
    }

    /// The path of the attribute or entity `name` in this store.
    pub fn file(&self, name: &str) -> (r: String)
        ensures
            r@ == joined(self@, name@),
    {
        join_path(self.home.as_str(), name)
    }

    /// The task that reads the attribute `name` and keeps its text.
    pub fn read(&self, name: &str) -> (t: Task)
        ensures
            t@ == TaskView::Read(joined(self@, name@)),
    {
        Task::Read(self.file(name))
    }

    /// The task that writes `data` as the attribute `name`.
    pub fn write(&self, name: &str, data: &str) -> (t: Task)
        ensures
            t@ == TaskView::Write(joined(self@, name@), data@),
    {
        Task::Write(self.file(name), text(data))
    }

    /// Begins the reservation of a name that starts with `prefix`.
    pub fn reserve(&self, prefix: &str) -> (r: Reservation)
        ensures
            r@ == opening(self@, prefix@),
    {
        let mut counter = NameCounter::new();
        let first = counter.next();
        let name = match first {
            Some(n) => join3(prefix, "-", n.as_str()),
            None => text(prefix),
        };
        Reservation {
            home: self.home.clone(),
            prefix: text(prefix),
            counter,
            name,
            done: false,
            halted: false,
        }
    }
}

/// The `n`-th candidate for a name that starts with `prefix`.
pub open spec fn candidate(prefix: Seq<char>, n: nat) -> Seq<char> {
    prefix + "-"@ + name_of(n)
}

/// A reservation as the contracts see it.
pub struct ReservationView {
    /// The path of the store's directory.
    pub home: Seq<char>,
    /// What the name has to start with.
    pub prefix: Seq<char>,
    /// The number of the candidate in hand.
    pub count: nat,
    /// Whether the candidate in hand has been reserved.
    pub done: bool,
    /// Whether the reservation has failed.
    pub halted: bool,
}

/// A reservation before its first request.
pub open spec fn opening(home: Seq<char>, prefix: Seq<char>) -> ReservationView {
    ReservationView { home, prefix, count: 1, done: false, halted: false }
}

impl ReservationView {
    /// The candidate in hand.
    pub open spec fn name(self) -> Seq<char> {
        candidate(self.prefix, self.count)
    }

    /// The path of the candidate in hand.
    pub open spec fn path(self) -> Seq<char> {
        joined(self.home, self.name())
    }

    /// What the reservation says when it is at rest.
    pub open spec fn current(self) -> StepView {
        if self.halted {
            StepView::Failed(ErrorView::IoError("no request is outstanding"@))
        } else if self.done {
            StepView::Finished
        } else {
            StepView::Ask(RequestView::CreateDir(self.path()))
        }
    }

    /// The reservation after `reply` has come in for the request that was
    /// due, and what it says then. The candidate is reserved when its
    /// directory was made; the next candidate is tried when something was
    /// there already; anything else is a failure.
    pub open spec fn resume(self, reply: ReplyView) -> (ReservationView, StepView) {
        if self.halted || self.done {
            (self, self.current())
        } else {
            match reply {
                ReplyView::Done => (ReservationView { done: true, ..self }, StepView::Finished),
                ReplyView::Exists => if self.count + 1 < LIMIT {
                    let next = ReservationView { count: self.count + 1, ..self };
                    (next, next.current())
                } else {
                    (
                        ReservationView { halted: true, ..self },
                        StepView::Failed(ErrorView::AllocationExhausted),
                    )
                },
                _ => (
                    ReservationView { halted: true, ..self },
                    StepView::Failed(
                        ErrorView::DataError(
                            complaint("Failed to create "@, self.path(), cause_of(reply)),
                        ),
                    ),
                ),
            }
        }
    }
}

/// The reservation of a name in a store: candidates are tried in the order of
/// the counter until the directory of one could be made.
pub struct Reservation {
    home: String,
    prefix: String,
    counter: NameCounter,
    name: String,
    done: bool,
    halted: bool,
}

impl View for Reservation {
    type V = ReservationView;

    closed spec fn view(&self) -> ReservationView {
        ReservationView {
            home: self.home@,
            prefix: self.prefix@,
            count: self.counter.value(),
            done: self.done,
            halted: self.halted,
        }
    }
}

impl Reservation {
    #[verifier::type_invariant]
    spec fn consistent(self) -> bool {
        &&& 1 <= self.counter.value() < LIMIT
        &&& self.name@ == candidate(self.prefix@, self.counter.value())
    }

    /// What the reservation says as it stands.
    pub fn begin(&self) -> (r: Step)
        ensures
            r@ == self@.current(),
    {
        proof {
            use_type_invariant(self);
        }
        if self.halted {
            Step::Failed(Error::IoError(text("no request is outstanding")))
        } else if self.done {
            Step::Finished
        } else {
            Step::Ask(Request::CreateDir(join_path(self.home.as_str(), self.name.as_str())))
        }
    }

    /// Takes the reply to the request that was due; gives the reservation as
    /// it is after that, and how to go on.
    pub fn resume(self, reply: Reply) -> (r: (Reservation, Step))
        ensures
            r.0@ == self@.resume(reply@).0,
            r.1@ == self@.resume(reply@).1,
    {
        proof {
            use_type_invariant(&self);
        }
        if self.halted || self.done {
            let step = self.begin();
            return (self, step);
        }
        let Reservation { home, prefix, mut counter, name, done, halted } = self;
        match reply {
            Reply::Done => (
                Reservation { home, prefix, counter, name, done: true, halted },
                Step::Finished,
            ),
            Reply::Exists => {
                match counter.next() {
                    Some(n) => {
                        let name = join3(prefix.as_str(), "-", n.as_str());
                        let next = Reservation { home, prefix, counter, name, done, halted };
                        let step = next.begin();
                        (next, step)
                    },
                    None => (
                        Reservation { home, prefix, counter, name, done, halted: true },
                        Step::Failed(Error::AllocationExhausted()),
                    ),
                }
            },
            _ => {
                let path = join_path(home.as_str(), name.as_str());
                let mut message = join("Failed to create ", path.as_str());
                message.append(": ");
                let why = match reply {
                    Reply::Failed(c) => c,
                    _ => text("unexpected reply"),
                };
                message.append(why.as_str());
                (
                    Reservation { home, prefix, counter, name, done, halted: true },
                    Step::Failed(Error::DataError(message)),
                )
            },
        }
    }

    /// The name that was reserved, once the reservation is finished.
    pub fn name(&self) -> (r: Option<String>)
        ensures
            r is Some <==> self@.done,
            r is Some ==> r->0@ == self@.name(),
    {
        proof {
            use_type_invariant(self);
        }
        if self.done {
            Some(self.name.clone())
        } else {
            None
        }
    }
}

} // verus!
