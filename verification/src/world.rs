//! An ideal store, and what the protocols come to when they are held
//! against it.
//!
//! The store remembers what was written, forgets what was removed, and
//! answers every request about files and directories at once. Nothing here
//! runs: these are statements about the protocols, checked once and for all.

use crate::effect::{CommandView, ReplyView, RequestView};
use crate::error::ErrorView;
use crate::script::{
    current, fresh, judge, pause, pending, resume, ScriptView, StepView, TaskView, Verdict,
    LAST_ATTEMPT,
};
use crate::seed::register_tasks;
use crate::store::{joined, opening, ReservationView};
use vstd::prelude::*;

verus! {

/// The files and directories of an ideal store.
pub struct Files {
    /// The text of each file, by its path.
    pub texts: Map<Seq<char>, Seq<char>>,
    /// The paths of the directories.
    pub dirs: Set<Seq<char>>,
}

/// What the ideal store makes of a request: the store afterwards and the
/// reply, or nothing for a request that is none of its business.
pub open spec fn serve(files: Files, request: RequestView) -> Option<(Files, ReplyView)> {
    match request {
        RequestView::Probe(p) => Some(
            (
                files,
                if files.dirs.contains(p) {
                    ReplyView::Writable
                } else if files.texts.dom().contains(p) {
                    ReplyView::NotDirectory
                } else {
                    ReplyView::Absent
                },
            ),
        ),
        RequestView::CreateDir(p) => if files.dirs.contains(p) || files.texts.dom().contains(p) {
            Some((files, ReplyView::Exists))
        } else {
            Some((Files { dirs: files.dirs.insert(p), ..files }, ReplyView::Done))
        },
        RequestView::Read(p) => if files.texts.dom().contains(p) {
            Some((files, ReplyView::Text(files.texts[p])))
        } else {
            Some((files, ReplyView::Failed("No such file or directory"@)))
        },
        RequestView::ReadLossy(p) => if files.texts.dom().contains(p) {
            Some((files, ReplyView::Text(files.texts[p])))
        } else {
            Some((files, ReplyView::Failed("No such file or directory"@)))
        },
        RequestView::Write(p, d) => Some(
            (Files { texts: files.texts.insert(p, d), ..files }, ReplyView::Done),
        ),
        RequestView::Append(p, d) => if files.texts.dom().contains(p) {
            Some((Files { texts: files.texts.insert(p, files.texts[p] + d), ..files }, ReplyView::Done))
        } else {
            Some((files, ReplyView::Failed("No such file or directory"@)))
        },
        RequestView::Remove(p) => if files.texts.dom().contains(p) {
            Some((Files { texts: files.texts.remove(p), ..files }, ReplyView::Done))
        } else {
            Some((files, ReplyView::Failed("No such file or directory"@)))
        },
        _ => None,
    }
}

/// A script held against the ideal store: as long as it asks what the store
/// can answer, and for `fuel` requests at most, the request is served and the
/// reply handed back. Gives the script, the store and what the script said
/// last.
pub open spec fn play(s: ScriptView, step: StepView, files: Files, fuel: nat) -> (
    ScriptView,
    Files,
    StepView,
)
    decreases fuel,
{
    match step {
        StepView::Ask(request) => if fuel == 0 || serve(files, request) is None {
            (s, files, step)
        } else {
            let (after, reply) = serve(files, request)->0;
            let (next, said) = resume(s, reply);
            play(next, said, after, (fuel - 1) as nat)
        },
        _ => (s, files, step),
    }
}

/// The path of the record of the password of the seed `name` in the store
/// `home`.
pub open spec fn record(home: Seq<char>, name: Seq<char>) -> Seq<char> {
    joined(joined(home, name), "otp"@)
}

/// A registration held against the ideal store `files`.
pub open spec fn registration(
    home: Seq<char>,
    name: Seq<char>,
    otp: Seq<char>,
    ip: Seq<char>,
    ssh: Seq<char>,
    csr: Seq<char>,
    nonce: nat,
    files: Files,
    fuel: nat,
) -> (ScriptView, Files, StepView) {
    let s = fresh(register_tasks(home, name, otp, ip, ssh, csr, nonce));
    play(s, current(s), files, fuel)
}

proof fn lemma_paths_differ(seed: Seq<char>)
    ensures
        joined(seed, "otp"@) != joined(seed, "ip"@),
        joined(seed, "otp"@) != joined(seed, "ssh.pub"@),
        joined(seed, "ip"@) != seed,
        joined(seed, "ssh.pub"@) != seed,
        joined(seed, "otp"@) != seed,
{
    reveal_strlit("otp");
    reveal_strlit("ip");
    reveal_strlit("ssh.pub");
    assert(joined(seed, "otp"@).len() != joined(seed, "ip"@).len());
    assert(joined(seed, "otp"@).len() != joined(seed, "ssh.pub"@).len());
    assert(joined(seed, "ip"@).len() != seed.len());
    assert(joined(seed, "ssh.pub"@).len() != seed.len());
    assert(joined(seed, "otp"@).len() != seed.len());
}

/// A registration with a password that is not the one on record, or with
/// none on record, is refused for the password's sake, and no file of the
/// store is touched: the password on record stays good.
pub proof fn lemma_wrong_password_is_refused(
    home: Seq<char>,
    name: Seq<char>,
    otp: Seq<char>,
    ip: Seq<char>,
    ssh: Seq<char>,
    csr: Seq<char>,
    nonce: nat,
    files: Files,
    fuel: nat,
)
    requires
        fuel >= 3,
        files.dirs.contains(joined(home, name)) || !files.texts.dom().contains(joined(home, name)),
        !files.texts.dom().contains(record(home, name)) || files.texts[record(home, name)] != otp,
    ensures
        registration(home, name, otp, ip, ssh, csr, nonce, files, fuel).2 == StepView::Failed(
            ErrorView::OtpError,
        ),
        registration(home, name, otp, ip, ssh, csr, nonce, files, fuel).1.texts == files.texts,
        registration(home, name, otp, ip, ssh, csr, nonce, files, fuel).1.dirs.contains(
            joined(home, name),
        ),
{
    let seed = joined(home, name);
    let tasks = register_tasks(home, name, otp, ip, ssh, csr, nonce);
    let s0 = fresh(tasks);
    assert(tasks[0] == TaskView::Ensure(seed));
    assert(tasks[1] == TaskView::Claim(record(home, name), otp));
    reveal_with_fuel(play, 4);
    if files.dirs.contains(seed) {
        let (a1, r1) = serve(files, RequestView::Probe(seed))->0;
        let (s1, t1) = resume(s0, r1);
        assert(s1.at == 1);
        assert(t1 == StepView::Ask(RequestView::Read(record(home, name))));
    } else {
        let (a1, r1) = serve(files, RequestView::Probe(seed))->0;
        let (s1, t1) = resume(s0, r1);
        assert(t1 == StepView::Ask(RequestView::CreateDir(seed)));
        let (a2, r2) = serve(a1, RequestView::CreateDir(seed))->0;
        let (s2, t2) = resume(s1, r2);
        assert(s2.at == 1);
        assert(t2 == StepView::Ask(RequestView::Read(record(home, name))));
    }
}

/// A registration with the password on record takes the record away before
/// it does anything else to the store and before any tool is run: when the
/// first tool is called for, the store holds the address and the host key of
/// the seed, and no password.
pub proof fn lemma_right_password_is_used_up(
    home: Seq<char>,
    name: Seq<char>,
    otp: Seq<char>,
    ip: Seq<char>,
    ssh: Seq<char>,
    csr: Seq<char>,
    nonce: nat,
    files: Files,
    fuel: nat,
)
    requires
        fuel >= 6,
        files.dirs.contains(joined(home, name)) || !files.texts.dom().contains(joined(home, name)),
        files.texts.dom().contains(record(home, name)),
        files.texts[record(home, name)] == otp,
    ensures
        ({
            let seed = joined(home, name);
            let after = registration(home, name, otp, ip, ssh, csr, nonce, files, fuel);
            &&& after.2 == StepView::Ask(
                RequestView::Run(
                    crate::ssh::sign_command(name, joined(home, "ca"@), joined(seed, "ssh.pub"@)),
                ),
            )
            &&& after.1.texts == files.texts.remove(record(home, name)).insert(
                joined(seed, "ip"@),
                ip,
            ).insert(joined(seed, "ssh.pub"@), ssh)
            &&& !after.1.texts.dom().contains(record(home, name))
            &&& after.1.dirs.contains(seed)
        }),
{
    let seed = joined(home, name);
    let tasks = register_tasks(home, name, otp, ip, ssh, csr, nonce);
    let s0 = fresh(tasks);
    lemma_paths_differ(seed);
    assert(tasks[0] == TaskView::Ensure(seed));
    assert(tasks[1] == TaskView::Claim(record(home, name), otp));
    assert(tasks[2] == TaskView::Remove(record(home, name)));
    assert(tasks[3] == TaskView::Write(joined(seed, "ip"@), ip));
    assert(tasks[4] == TaskView::Write(joined(seed, "ssh.pub"@), ssh));
    assert(tasks[5] == TaskView::Sign(
        crate::ssh::sign_command(name, joined(home, "ca"@), joined(seed, "ssh.pub"@)),
    ));
    reveal_with_fuel(play, 7);
    let (a1, r1) = serve(files, RequestView::Probe(seed))->0;
    let (s1, t1) = resume(s0, r1);
    let ready = if files.dirs.contains(seed) {
        (s1, a1)
    } else {
        assert(t1 == StepView::Ask(RequestView::CreateDir(seed)));
        let (a2, r2) = serve(a1, RequestView::CreateDir(seed))->0;
        let (s2, t2) = resume(s1, r2);
        (s2, a2)
    };
    let (s2, a2) = ready;
    assert(s2.at == 1 && s2.stage == 0 && !s2.halted && s2.tasks == tasks);
    assert(a2.texts == files.texts);
    let (a3, r3) = serve(a2, RequestView::Read(record(home, name)))->0;
    assert(r3 == ReplyView::Text(otp));
    let (s3, t3) = resume(s2, r3);
    assert(s3.at == 2);
    assert(t3 == StepView::Ask(RequestView::Remove(record(home, name))));
    let (a4, r4) = serve(a3, RequestView::Remove(record(home, name)))->0;
    let (s4, t4) = resume(s3, r4);
    assert(s4.at == 3);
    let (a5, r5) = serve(a4, RequestView::Write(joined(seed, "ip"@), ip))->0;
    let (s5, t5) = resume(s4, r5);
    assert(s5.at == 4);
    let (a6, r6) = serve(a5, RequestView::Write(joined(seed, "ssh.pub"@), ssh))->0;
    let (s6, t6) = resume(s5, r6);
    assert(s6.at == 5);
    assert(t6 == StepView::Ask(
        RequestView::Run(
            crate::ssh::sign_command(name, joined(home, "ca"@), joined(seed, "ssh.pub"@)),
        ),
    ));
    assert(serve(a6, t6->Ask_0) is None);
}

/// A password opens the door once: after a registration with the password on
/// record has come as far as its first tool, a second registration of the
/// same seed, with the same password or any other, is refused for the
/// password's sake.
pub proof fn lemma_password_opens_once(
    home: Seq<char>,
    name: Seq<char>,
    otp: Seq<char>,
    ip: Seq<char>,
    ssh: Seq<char>,
    csr: Seq<char>,
    nonce: nat,
    files: Files,
    again: Seq<char>,
    fuel: nat,
)
    requires
        fuel >= 6,
        files.dirs.contains(joined(home, name)) || !files.texts.dom().contains(joined(home, name)),
        files.texts.dom().contains(record(home, name)),
        files.texts[record(home, name)] == otp,
    ensures
        ({
            let first = registration(home, name, otp, ip, ssh, csr, nonce, files, fuel);
            registration(home, name, again, ip, ssh, csr, nonce, first.1, fuel).2
                == StepView::Failed(ErrorView::OtpError)
        }),
{
    lemma_right_password_is_used_up(home, name, otp, ip, ssh, csr, nonce, files, fuel);
    let first = registration(home, name, otp, ip, ssh, csr, nonce, files, fuel);
    lemma_wrong_password_is_refused(home, name, again, ip, ssh, csr, nonce, first.1, fuel);
}

/// A wrong password does no harm: after a registration with a wrong
/// password was refused, the registration with the right one goes ahead as
/// if nothing had happened.
pub proof fn lemma_wrong_password_does_no_harm(
    home: Seq<char>,
    name: Seq<char>,
    otp: Seq<char>,
    wrong: Seq<char>,
    ip: Seq<char>,
    ssh: Seq<char>,
    csr: Seq<char>,
    nonce: nat,
    files: Files,
    fuel: nat,
)
    requires
        fuel >= 6,
        wrong != otp,
        files.dirs.contains(joined(home, name)) || !files.texts.dom().contains(joined(home, name)),
        files.texts.dom().contains(record(home, name)),
        files.texts[record(home, name)] == otp,
    ensures
        ({
            let refused = registration(home, name, wrong, ip, ssh, csr, nonce, files, fuel);
            let then = registration(home, name, otp, ip, ssh, csr, nonce, refused.1, fuel);
            &&& refused.2 == StepView::Failed(ErrorView::OtpError)
            &&& then.2 is Ask
            &&& !then.1.texts.dom().contains(record(home, name))
        }),
{
    lemma_wrong_password_is_refused(home, name, wrong, ip, ssh, csr, nonce, files, fuel);
    let refused = registration(home, name, wrong, ip, ssh, csr, nonce, files, fuel);
    lemma_right_password_is_used_up(home, name, otp, ip, ssh, csr, nonce, refused.1, fuel);
}

/// A registration that has issued the certificate ends by reading four
/// files, and keeps what they hold behind the host certificate that it kept
/// before: the seed's certificate as it was just issued, the
/// administrator's key, the certificate of the root authority and the
/// certificate of the authority that issued the seed's. Nothing is written
/// any more.
pub proof fn lemma_registration_ends_with_certificates(
    home: Seq<char>,
    name: Seq<char>,
    otp: Seq<char>,
    ip: Seq<char>,
    ssh: Seq<char>,
    csr: Seq<char>,
    nonce: nat,
    host: Seq<char>,
    files: Files,
    fuel: nat,
)
    requires
        fuel >= 4,
        files.texts.dom().contains(joined(joined(home, name), "crt"@)),
        files.texts.dom().contains(joined(home, "admin.pub"@)),
        files.texts.dom().contains(joined(home, "root.crt"@)),
        files.texts.dom().contains(joined(home, "machine.crt"@)),
    ensures
        ({
            let tasks = register_tasks(home, name, otp, ip, ssh, csr, nonce);
            let issued = ScriptView {
                tasks,
                at: 9,
                stage: 0,
                clean: true,
                halted: false,
                texts: seq![host],
            };
            let end = play(issued, current(issued), files, fuel);
            &&& tasks.len() == 13
            &&& end.2 == StepView::Finished
            &&& end.1 == files
            &&& end.0.texts == seq![
                host,
                files.texts[joined(joined(home, name), "crt"@)],
                files.texts[joined(home, "admin.pub"@)],
                files.texts[joined(home, "root.crt"@)],
                files.texts[joined(home, "machine.crt"@)],
            ]
        }),
{
    let seed = joined(home, name);
    let tasks = register_tasks(home, name, otp, ip, ssh, csr, nonce);
    assert(tasks.len() == 13);
    assert(tasks[9] == TaskView::Read(joined(seed, "crt"@)));
    assert(tasks[10] == TaskView::ReadLossy(joined(home, "admin.pub"@)));
    assert(tasks[11] == TaskView::Read(joined(home, "root.crt"@)));
    assert(tasks[12] == TaskView::Read(joined(home, "machine.crt"@)));
    let s0 = ScriptView { tasks, at: 9, stage: 0, clean: true, halted: false, texts: seq![host] };
    reveal_with_fuel(play, 5);
    let (a1, r1) = serve(files, RequestView::Read(joined(seed, "crt"@)))->0;
    let (s1, t1) = resume(s0, r1);
    assert(s1.at == 10);
    let (a2, r2) = serve(a1, RequestView::ReadLossy(joined(home, "admin.pub"@)))->0;
    let (s2, t2) = resume(s1, r2);
    assert(s2.at == 11);
    let (a3, r3) = serve(a2, RequestView::Read(joined(home, "root.crt"@)))->0;
    let (s3, t3) = resume(s2, r3);
    assert(s3.at == 12);
    let (a4, r4) = serve(a3, RequestView::Read(joined(home, "machine.crt"@)))->0;
    let (s4, t4) = resume(s3, r4);
    assert(s4.at == 13);
    assert(t4 == StepView::Finished);
    assert(s4.texts =~= seq![
        host,
        files.texts[joined(seed, "crt"@)],
        files.texts[joined(home, "admin.pub"@)],
        files.texts[joined(home, "root.crt"@)],
        files.texts[joined(home, "machine.crt"@)],
    ]);
}

/// What the tools outside do to the store when they are run, and whether
/// they succeed.
pub type Tools = spec_fn(Files, CommandView) -> (Files, bool);

/// What becomes of a request when the tools `tools` stand beside the ideal
/// store: the store answers what it can, the tools are run, and a pause
/// passes.
pub open spec fn serve_all(files: Files, tools: Tools, request: RequestView) -> (Files, ReplyView) {
    match request {
        RequestView::Run(c) => (tools(files, c).0, ReplyView::Exit(tools(files, c).1)),
        RequestView::Sleep(_) => (files, ReplyView::Done),
        RequestView::Link(a, b) => if files.texts.dom().contains(a) {
            (Files { texts: files.texts.insert(b, files.texts[a]), ..files }, ReplyView::Done)
        } else {
            (files, ReplyView::Failed("No such file or directory"@))
        },
        RequestView::Copy(a, b) => if files.texts.dom().contains(a) {
            (Files { texts: files.texts.insert(b, files.texts[a]), ..files }, ReplyView::Done)
        } else {
            (files, ReplyView::Failed("No such file or directory"@))
        },
        _ => serve(files, request)->0,
    }
}

/// A script carried out against the ideal store and the tools `tools`, for
/// `fuel` requests at most. Gives the script, the store and what the script
/// said last.
pub open spec fn run(s: ScriptView, step: StepView, files: Files, tools: Tools, fuel: nat) -> (
    ScriptView,
    Files,
    StepView,
)
    decreases fuel,
{
    match step {
        StepView::Ask(request) => if fuel == 0 {
            (s, files, step)
        } else {
            let (after, reply) = serve_all(files, tools, request);
            let (next, said) = resume(s, reply);
            run(next, said, after, tools, (fuel - 1) as nat)
        },
        _ => (s, files, step),
    }
}

/// Tools that do their part in the registration of the seed `name`: they
/// succeed, they remove no file and no directory, they put no password on
/// record, and the two that sign leave a certificate where it is looked
/// for.
pub open spec fn obliging(tools: Tools, home: Seq<char>, name: Seq<char>, nonce: nat) -> bool {
    let seed = joined(home, name);
    forall|files: Files, c: CommandView|
        {
            let after = (#[trigger] tools(files, c)).0;
            &&& tools(files, c).1
            &&& forall|p: Seq<char>|
                files.texts.dom().contains(p) ==> #[trigger] after.texts.dom().contains(p)
            &&& forall|p: Seq<char>| files.dirs.contains(p) ==> #[trigger] after.dirs.contains(p)
            &&& !files.texts.dom().contains(record(home, name)) ==> !after.texts.dom().contains(
                record(home, name),
            )
            &&& c == crate::ssh::sign_command(name, joined(home, "ca"@), joined(seed, "ssh.pub"@))
                ==> after.texts.dom().contains(joined(seed, "ssh-cert.pub"@))
            &&& c == crate::tls::sign_command(
                joined(seed, crate::tls::conf_name(nonce)),
                joined(home, "machine.crt"@),
                joined(home, "machine.key"@),
                joined(seed, "csr"@),
                joined(seed, "crt"@),
            ) ==> after.texts.dom().contains(joined(seed, "crt"@))
        }
}

proof fn lemma_last_of_joined(home: Seq<char>, name: Seq<char>)
    requires
        name.len() > 0,
    ensures
        joined(home, name).len() > 0,
        joined(home, name).last() == name.last(),
{
}

proof fn lemma_written_paths_differ(home: Seq<char>, name: Seq<char>, nonce: nat)
    ensures
        ({
            let seed = joined(home, name);
            let conf = joined(seed, crate::tls::conf_name(nonce));
            &&& joined(seed, "csr"@) != record(home, name)
            &&& conf != record(home, name)
            &&& conf != joined(seed, "crt"@)
            &&& conf != joined(home, "admin.pub"@)
            &&& conf != joined(home, "root.crt"@)
            &&& conf != joined(home, "machine.crt"@)
        }),
{
    let seed = joined(home, name);
    reveal_strlit("csr");
    reveal_strlit("otp");
    reveal_strlit("crt");
    reveal_strlit("admin.pub");
    reveal_strlit("root.crt");
    reveal_strlit("machine.crt");
    reveal_strlit(".conf");
    reveal_strlit("ca-");
    let conf_name = crate::tls::conf_name(nonce);
    assert(conf_name.len() > 0 && conf_name.last() == 'f');
    lemma_last_of_joined(seed, conf_name);
    lemma_last_of_joined(seed, "csr"@);
    lemma_last_of_joined(seed, "otp"@);
    lemma_last_of_joined(seed, "crt"@);
    lemma_last_of_joined(home, "admin.pub"@);
    lemma_last_of_joined(home, "root.crt"@);
    lemma_last_of_joined(home, "machine.crt"@);
}

proof fn lemma_run_adds(s: ScriptView, step: StepView, files: Files, tools: Tools, a: nat, b: nat)
    ensures
        run(s, step, files, tools, a + b) == ({
            let mid = run(s, step, files, tools, a);
            run(mid.0, mid.2, mid.1, tools, b)
        }),
    decreases a,
{
    if a > 0 {
        match step {
            StepView::Ask(request) => {
                let (after, reply) = serve_all(files, tools, request);
                let (next, said) = resume(s, reply);
                lemma_run_adds(next, said, after, tools, (a - 1) as nat, b);
                assert((a + b - 1) as nat == (a - 1) as nat + b);
            },
            _ => {
                assert(run(s, step, files, tools, b) == (s, files, step));
            },
        }
    }
}

proof fn lemma_registration_begins(
    home: Seq<char>,
    name: Seq<char>,
    otp: Seq<char>,
    ip: Seq<char>,
    ssh: Seq<char>,
    csr: Seq<char>,
    nonce: nat,
    files: Files,
    tools: Tools,
) -> (steps: nat)
    requires
        files.dirs.contains(joined(home, name)) || !files.texts.dom().contains(joined(home, name)),
        files.texts.dom().contains(record(home, name)),
        files.texts[record(home, name)] == otp,
    ensures
        steps <= 6,
        ({
            let seed = joined(home, name);
            let tasks = register_tasks(home, name, otp, ip, ssh, csr, nonce);
            let s0 = fresh(tasks);
            let mid = run(s0, current(s0), files, tools, steps);
            &&& mid.0 == ScriptView { at: 5, ..s0 }
            &&& mid.2 == current(mid.0)
            &&& mid.1.texts == files.texts.remove(record(home, name)).insert(
                joined(seed, "ip"@),
                ip,
            ).insert(joined(seed, "ssh.pub"@), ssh)
            &&& mid.1.dirs.contains(seed)
        }),
{
    let seed = joined(home, name);
    let tasks = register_tasks(home, name, otp, ip, ssh, csr, nonce);
    let s0 = fresh(tasks);
    assert(tasks[0] == TaskView::Ensure(seed));
    assert(tasks[1] == TaskView::Claim(record(home, name), otp));
    assert(tasks[2] == TaskView::Remove(record(home, name)));
    assert(tasks[3] == TaskView::Write(joined(seed, "ip"@), ip));
    assert(tasks[4] == TaskView::Write(joined(seed, "ssh.pub"@), ssh));
    assert(tasks.len() == 13);
    reveal_with_fuel(run, 7);
    let (a1, r1) = serve_all(files, tools, RequestView::Probe(seed));
    let (s1, t1) = resume(s0, r1);
    let ready = if files.dirs.contains(seed) {
        (s1, a1)
    } else {
        assert(t1 == StepView::Ask(RequestView::CreateDir(seed)));
        let (a2, r2) = serve_all(a1, tools, RequestView::CreateDir(seed));
        let (s2, t2) = resume(s1, r2);
        (s2, a2)
    };
    let (s2, a2) = ready;
    assert(s2 == ScriptView { at: 1, ..s0 });
    assert(a2.texts == files.texts);
    let (a3, r3) = serve_all(a2, tools, RequestView::Read(record(home, name)));
    assert(r3 == ReplyView::Text(otp));
    let (s3, t3) = resume(s2, r3);
    assert(s3 == ScriptView { at: 2, ..s0 });
    let (a4, r4) = serve_all(a3, tools, RequestView::Remove(record(home, name)));
    let (s4, t4) = resume(s3, r4);
    assert(s4 == ScriptView { at: 3, ..s0 });
    let (a5, r5) = serve_all(a4, tools, RequestView::Write(joined(seed, "ip"@), ip));
    let (s5, t5) = resume(s4, r5);
    assert(s5 == ScriptView { at: 4, ..s0 });
    let (a6, r6) = serve_all(a5, tools, RequestView::Write(joined(seed, "ssh.pub"@), ssh));
    let (s6, t6) = resume(s5, r6);
    assert(s6 == ScriptView { at: 5, ..s0 });
    assert(t6 == current(s6));
    if files.dirs.contains(seed) {
        5
    } else {
        6
    }
}

proof fn lemma_registration_goes_on(
    home: Seq<char>,
    name: Seq<char>,
    otp: Seq<char>,
    ip: Seq<char>,
    ssh: Seq<char>,
    csr: Seq<char>,
    nonce: nat,
    files: Files,
    tools: Tools,
)
    requires
        obliging(tools, home, name, nonce),
        files.dirs.contains(joined(home, name)),
        !files.texts.dom().contains(record(home, name)),
        files.texts.dom().contains(joined(home, "admin.pub"@)),
        files.texts.dom().contains(joined(home, "root.crt"@)),
        files.texts.dom().contains(joined(home, "machine.crt"@)),
    ensures
        ({
            let seed = joined(home, name);
            let tasks = register_tasks(home, name, otp, ip, ssh, csr, nonce);
            let s5 = ScriptView { at: 5, ..fresh(tasks) };
            let mid = run(s5, current(s5), files, tools, 6);
            &&& mid.1.dirs.contains(seed)
            &&& mid.0.tasks == tasks
            &&& mid.0.at == 9
            &&& mid.0.stage == 0
            &&& mid.0.clean
            &&& !mid.0.halted
            &&& mid.0.texts.len() == 1
            &&& mid.2 == current(mid.0)
            &&& !mid.1.texts.dom().contains(record(home, name))
            &&& mid.1.texts.dom().contains(joined(seed, "crt"@))
            &&& mid.1.texts.dom().contains(joined(home, "admin.pub"@))
            &&& mid.1.texts.dom().contains(joined(home, "root.crt"@))
            &&& mid.1.texts.dom().contains(joined(home, "machine.crt"@))
        }),
{
    let seed = joined(home, name);
    let tasks = register_tasks(home, name, otp, ip, ssh, csr, nonce);
    let s5 = ScriptView { at: 5, ..fresh(tasks) };
    let conf = joined(seed, crate::tls::conf_name(nonce));
    let sign_host = crate::ssh::sign_command(name, joined(home, "ca"@), joined(seed, "ssh.pub"@));
    let sign_leaf = crate::tls::sign_command(
        conf,
        joined(home, "machine.crt"@),
        joined(home, "machine.key"@),
        joined(seed, "csr"@),
        joined(seed, "crt"@),
    );
    lemma_written_paths_differ(home, name, nonce);
    assert(tasks.len() == 13);
    assert(tasks[5] == TaskView::Sign(sign_host));
    assert(tasks[6] == TaskView::Read(joined(seed, "ssh-cert.pub"@)));
    assert(tasks[7] == TaskView::Write(joined(seed, "csr"@), csr));
    assert(tasks[8] == TaskView::Certify(conf, crate::tls::leaf_template(name), sign_leaf));
    assert(tasks[9] == TaskView::Read(joined(seed, "crt"@)));
    reveal_with_fuel(run, 7);
    let admin = joined(home, "admin.pub"@);
    let root = joined(home, "root.crt"@);
    let issuer = joined(home, "machine.crt"@);
    let (a1, r1) = serve_all(files, tools, RequestView::Run(sign_host));
    assert(a1 == tools(files, sign_host).0);
    assert(r1 == ReplyView::Exit(true));
    assert(a1.dirs.contains(seed));
    assert(a1.texts.dom().contains(admin) && a1.texts.dom().contains(root)
        && a1.texts.dom().contains(issuer));
    let (s1, t1) = resume(s5, r1);
    assert(s1 == ScriptView { at: 6, ..s5 });
    let (a2, r2) = serve_all(a1, tools, RequestView::Read(joined(seed, "ssh-cert.pub"@)));
    assert(r2 is Text);
    let (s2, t2) = resume(s1, r2);
    assert(s2.at == 7 && s2.texts.len() == 1 && s2.tasks == tasks && s2.stage == 0 && s2.clean
        && !s2.halted);
    let (a3, r3) = serve_all(a2, tools, RequestView::Write(joined(seed, "csr"@), csr));
    let (s3, t3) = resume(s2, r3);
    assert(s3.at == 8 && s3.stage == 0);
    assert(t3 == StepView::Ask(RequestView::Write(conf, crate::tls::leaf_template(name))));
    let (a4, r4) = serve_all(a3, tools, RequestView::Write(conf, crate::tls::leaf_template(name)));
    let (s4, t4) = resume(s3, r4);
    assert(s4.at == 8 && s4.stage == 1);
    assert(t4 == StepView::Ask(RequestView::Run(sign_leaf)));
    assert(!a4.texts.dom().contains(record(home, name)));
    assert(a4.texts.dom().contains(conf));
    assert(a4.texts.dom().contains(admin) && a4.texts.dom().contains(root)
        && a4.texts.dom().contains(issuer));
    let (a5, r5) = serve_all(a4, tools, RequestView::Run(sign_leaf));
    assert(a5 == tools(a4, sign_leaf).0);
    assert(r5 == ReplyView::Exit(true));
    assert(a4.dirs.contains(seed));
    assert(a5.dirs.contains(seed));
    assert(a5.texts.dom().contains(conf));
    assert(a5.texts.dom().contains(admin) && a5.texts.dom().contains(root)
        && a5.texts.dom().contains(issuer));
    let (s6, t6) = resume(s4, r5);
    assert(s6.at == 8 && s6.stage == 2 && s6.clean);
    assert(t6 == StepView::Ask(RequestView::Remove(conf)));
    let (a7, r7) = serve_all(a5, tools, RequestView::Remove(conf));
    assert(r7 == ReplyView::Done);
    let (s7, t7) = resume(s6, r7);
    assert(s7.at == 9 && s7.stage == 0 && s7.clean && !s7.halted && s7.texts.len() == 1);
    assert(a7.texts.dom().contains(joined(seed, "crt"@)));
}

/// With tools that do their part, the registration with the password on
/// record succeeds: it finishes, the password is off the record, and the
/// texts that it keeps are the host certificate and, as the store holds them
/// at the end, the seed's certificate, the administrator's key, the
/// certificate of the root authority and that of the issuer.
pub proof fn lemma_right_password_registers(
    home: Seq<char>,
    name: Seq<char>,
    otp: Seq<char>,
    ip: Seq<char>,
    ssh: Seq<char>,
    csr: Seq<char>,
    nonce: nat,
    files: Files,
    tools: Tools,
    fuel: nat,
)
    requires
        fuel >= 16,
        obliging(tools, home, name, nonce),
        files.dirs.contains(joined(home, name)) || !files.texts.dom().contains(joined(home, name)),
        files.texts.dom().contains(record(home, name)),
        files.texts[record(home, name)] == otp,
        files.texts.dom().contains(joined(home, "admin.pub"@)),
        files.texts.dom().contains(joined(home, "root.crt"@)),
        files.texts.dom().contains(joined(home, "machine.crt"@)),
    ensures
        ({
            let seed = joined(home, name);
            let s0 = fresh(register_tasks(home, name, otp, ip, ssh, csr, nonce));
            let end = run(s0, current(s0), files, tools, fuel);
            &&& end.2 == StepView::Finished
            &&& !end.1.texts.dom().contains(record(home, name))
            &&& end.1.dirs.contains(seed)
            &&& end.0.texts.len() == 5
            &&& end.0.texts[1] == end.1.texts[joined(seed, "crt"@)]
            &&& end.0.texts[2] == end.1.texts[joined(home, "admin.pub"@)]
            &&& end.0.texts[3] == end.1.texts[joined(home, "root.crt"@)]
            &&& end.0.texts[4] == end.1.texts[joined(home, "machine.crt"@)]
        }),
{
    let seed = joined(home, name);
    let tasks = register_tasks(home, name, otp, ip, ssh, csr, nonce);
    let s0 = fresh(tasks);
    lemma_paths_differ(seed);
    let k = lemma_registration_begins(home, name, otp, ip, ssh, csr, nonce, files, tools);
    let first = run(s0, current(s0), files, tools, k);
    reveal_strlit("admin.pub");
    reveal_strlit("root.crt");
    reveal_strlit("machine.crt");
    reveal_strlit("otp");
    lemma_last_of_joined(seed, "otp"@);
    lemma_last_of_joined(home, "admin.pub"@);
    lemma_last_of_joined(home, "root.crt"@);
    lemma_last_of_joined(home, "machine.crt"@);
    assert(first.1.texts.dom().contains(joined(home, "admin.pub"@)));
    assert(first.1.texts.dom().contains(joined(home, "root.crt"@)));
    assert(first.1.texts.dom().contains(joined(home, "machine.crt"@)));
    lemma_registration_goes_on(home, name, otp, ip, ssh, csr, nonce, first.1, tools);
    let second = run(first.0, first.2, first.1, tools, 6);
    let host = second.0.texts[0];
    assert(second.0.texts =~= seq![host]);
    assert(second.0 == ScriptView {
        tasks,
        at: 9,
        stage: 0,
        clean: true,
        halted: false,
        texts: seq![host],
    });
    lemma_registration_ends_with_certificates(
        home,
        name,
        otp,
        ip,
        ssh,
        csr,
        nonce,
        host,
        second.1,
        4,
    );
    lemma_play_is_run(second.0, second.2, second.1, tools, 4);
    let third = run(second.0, second.2, second.1, tools, 4);
    lemma_run_adds(s0, current(s0), files, tools, k, 6);
    lemma_run_adds(s0, current(s0), files, tools, k + 6, 4);
    assert(run(s0, current(s0), files, tools, k + 6 + 4) == third);
    lemma_run_adds(s0, current(s0), files, tools, k + 10, (fuel - (k + 10)) as nat);
    assert(run(third.0, third.2, third.1, tools, (fuel - (k + 10)) as nat) == third);
}

/// With tools that do their part, a password registers a seed exactly once:
/// the registration with the password on record succeeds, and whatever is
/// handed in for the same seed afterwards, with the same password or another,
/// is refused for the password's sake.
pub proof fn lemma_registers_exactly_once(
    home: Seq<char>,
    name: Seq<char>,
    otp: Seq<char>,
    ip: Seq<char>,
    ssh: Seq<char>,
    csr: Seq<char>,
    nonce: nat,
    files: Files,
    tools: Tools,
    again: (Seq<char>, Seq<char>, Seq<char>, Seq<char>, nat),
    fuel: nat,
)
    requires
        fuel >= 16,
        obliging(tools, home, name, nonce),
        files.dirs.contains(joined(home, name)) || !files.texts.dom().contains(joined(home, name)),
        files.texts.dom().contains(record(home, name)),
        files.texts[record(home, name)] == otp,
        files.texts.dom().contains(joined(home, "admin.pub"@)),
        files.texts.dom().contains(joined(home, "root.crt"@)),
        files.texts.dom().contains(joined(home, "machine.crt"@)),
    ensures
        ({
            let s0 = fresh(register_tasks(home, name, otp, ip, ssh, csr, nonce));
            let first = run(s0, current(s0), files, tools, fuel);
            let s1 = fresh(register_tasks(home, name, again.0, again.1, again.2, again.3, again.4));
            let second = run(s1, current(s1), first.1, tools, fuel);
            &&& first.2 == StepView::Finished
            &&& second.2 == StepView::Failed(ErrorView::OtpError)
            &&& second.1.texts == first.1.texts
        }),
{
    lemma_right_password_registers(home, name, otp, ip, ssh, csr, nonce, files, tools, fuel);
    let s0 = fresh(register_tasks(home, name, otp, ip, ssh, csr, nonce));
    let first = run(s0, current(s0), files, tools, fuel);
    lemma_wrong_password_is_refused(
        home,
        name,
        again.0,
        again.1,
        again.2,
        again.3,
        again.4,
        first.1,
        fuel,
    );
    let s1 = fresh(register_tasks(home, name, again.0, again.1, again.2, again.3, again.4));
    lemma_play_is_run(s1, current(s1), first.1, tools, fuel);
}

proof fn lemma_play_is_run(s: ScriptView, step: StepView, files: Files, tools: Tools, fuel: nat)
    requires
        !(play(s, step, files, fuel).2 is Ask),
    ensures
        run(s, step, files, tools, fuel) == play(s, step, files, fuel),
    decreases fuel,
{
    match step {
        StepView::Ask(request) => {
            if fuel > 0 && serve(files, request) is Some {
                let (after, reply) = serve(files, request)->0;
                let (next, said) = resume(s, reply);
                lemma_play_is_run(next, said, after, tools, (fuel - 1) as nat);
            }
        },
        _ => {},
    }
}

/// The requests that a script makes while the replies `replies` are handed
/// to it one by one, until it asks no more.
pub open spec fn asked(s: ScriptView, replies: Seq<ReplyView>) -> Seq<RequestView>
    decreases replies.len(),
{
    match current(s) {
        StepView::Ask(request) => if replies.len() == 0 {
            seq![request]
        } else {
            seq![request] + asked(resume(s, replies[0]).0, replies.drop_first())
        },
        _ => Seq::empty(),
    }
}

/// How many of the requests run a command.
pub open spec fn runs(requests: Seq<RequestView>) -> nat
    decreases requests.len(),
{
    if requests.len() == 0 {
        0
    } else {
        runs(requests.drop_first()) + if requests[0] is Run {
            1nat
        } else {
            0nat
        }
    }
}

/// How long the requests pause in all, in hundredths of a time unit.
pub open spec fn slept(requests: Seq<RequestView>) -> nat
    decreases requests.len(),
{
    if requests.len() == 0 {
        0
    } else {
        slept(requests.drop_first()) + match requests[0] {
            RequestView::Sleep(n) => n as nat,
            _ => 0nat,
        }
    }
}

proof fn lemma_wait_from(c: CommandView, s: ScriptView, replies: Seq<ReplyView>)
    requires
        s.tasks == seq![TaskView::Await(c)],
        s.at == 0,
        !s.halted,
        s.stage <= LAST_ATTEMPT,
    ensures
        asked(s, replies).len() <= 17 - s.stage,
        runs(asked(s, replies)) <= 9 - (s.stage + 1) / 2,
        slept(asked(s, replies)) + pause(s.stage / 2) <= 256,
    decreases replies.len(),
{
    reveal_with_fuel(pause, 10);
    let request = pending(TaskView::Await(c), s.stage);
    let even = s.stage % 2 == 0;
    assert(current(s) == StepView::Ask(request));
    assert(even ==> request is Run);
    assert(!even ==> request == RequestView::Sleep(pause(s.stage / 2) as u64) && s.stage <= 15);
    let rest = if replies.len() == 0 {
        Seq::<RequestView>::empty()
    } else {
        asked(resume(s, replies[0]).0, replies.drop_first())
    };
    let all = seq![request] + rest;
    assert(asked(s, replies) =~= all);
    assert(all.drop_first() =~= rest);
    assert(all[0] == request);
    assert(runs(all) == runs(rest) + if even {
        1nat
    } else {
        0nat
    });
    assert(slept(all) == slept(rest) + if even {
        0nat
    } else {
        pause(s.stage / 2)
    });
    if replies.len() > 0 {
        let next = resume(s, replies[0]).0;
        match judge(TaskView::Await(c), s.stage, s.clean, replies[0]) {
            Verdict::Again(_) => {
                assert(next.stage == s.stage + 1);
                assert(next.tasks == s.tasks && next.at == 0 && !next.halted);
                lemma_wait_from(c, next, replies.drop_first());
                if even {
                    assert((s.stage + 2) / 2 == s.stage / 2 + 1);
                    assert((s.stage + 1) / 2 == s.stage / 2);
                } else {
                    assert((s.stage + 2) / 2 == (s.stage + 1) / 2);
                    assert((s.stage + 1) / 2 == s.stage / 2 + 1);
                    assert(pause((s.stage + 1) / 2) == 2 * pause(s.stage / 2));
                }
            },
            _ => {
                assert(!(current(next) is Ask));
                assert(rest =~= Seq::<RequestView>::empty());
            },
        }
    }
}

/// The wait for a machine comes to an end whatever the machine does: the
/// command is tried nine times at most, the pauses between the tries come to
/// no more than 255 hundredths of a time unit, and after seventeen replies
/// nothing more is asked.
pub proof fn lemma_wait_is_bounded(c: CommandView, replies: Seq<ReplyView>)
    ensures
        asked(fresh(seq![TaskView::Await(c)]), replies).len() <= 17,
        runs(asked(fresh(seq![TaskView::Await(c)]), replies)) <= 9,
        slept(asked(fresh(seq![TaskView::Await(c)]), replies)) <= 255,
{
    lemma_wait_from(c, fresh(seq![TaskView::Await(c)]), replies);
    assert(pause(0) == 1);
}

/// Several reservations at work in one store, and the paths that are taken
/// in it.
pub struct Race {
    pub runs: Seq<ReservationView>,
    pub taken: Set<Seq<char>>,
}

/// One move in a race: the reservation `who` has its request carried out,
/// or, with `fault`, is told that the system failed it.
pub struct Turn {
    pub who: int,
    pub fault: Option<Seq<char>>,
}

/// The race after a move. The making of a directory is one step: it is
/// made and taken from then on, or it was taken already.
pub open spec fn turn(r: Race, t: Turn) -> Race {
    if 0 <= t.who < r.runs.len() && r.runs[t.who].current() is Ask {
        let run = r.runs[t.who];
        match t.fault {
            Some(why) => Race {
                runs: r.runs.update(t.who, run.resume(ReplyView::Failed(why)).0),
                ..r
            },
            None => if r.taken.contains(run.path()) {
                Race { runs: r.runs.update(t.who, run.resume(ReplyView::Exists).0), ..r }
            } else {
                Race {
                    runs: r.runs.update(t.who, run.resume(ReplyView::Done).0),
                    taken: r.taken.insert(run.path()),
                }
            },
        }
    } else {
        r
    }
}

/// The race after the moves `turns`, in their order.
pub open spec fn race(r: Race, turns: Seq<Turn>) -> Race
    decreases turns.len(),
{
    if turns.len() == 0 {
        r
    } else {
        race(turn(r, turns[0]), turns.drop_first())
    }
}

/// What holds throughout a race in the store `home`: every reservation is
/// one in that store, what is reserved is taken, and no two reservations
/// have reserved the same path.
pub open spec fn orderly(r: Race, home: Seq<char>) -> bool {
    &&& forall|i: int| 0 <= i < r.runs.len() ==> (#[trigger] r.runs[i]).home == home
    &&& forall|i: int|
        0 <= i < r.runs.len() && (#[trigger] r.runs[i]).done ==> r.taken.contains(r.runs[i].path())
    &&& forall|i: int, j: int|
        0 <= i < r.runs.len() && 0 <= j < r.runs.len() && i != j && (#[trigger] r.runs[i]).done && (
        #[trigger] r.runs[j]).done ==> r.runs[i].path() != r.runs[j].path()
}

proof fn lemma_turn_keeps_order(r: Race, home: Seq<char>, t: Turn)
    requires
        orderly(r, home),
    ensures
        orderly(turn(r, t), home),
        turn(r, t).runs.len() == r.runs.len(),
{
    let after = turn(r, t);
    if 0 <= t.who < r.runs.len() && r.runs[t.who].current() is Ask {
        let run = r.runs[t.who];
        assert(!run.done && !run.halted);
        assert forall|i: int| 0 <= i < after.runs.len() implies (#[trigger] after.runs[i]).home
            == home by {
            if i != t.who {
                assert(after.runs[i] == r.runs[i]);
            }
        }
        assert forall|i: int| 0 <= i < after.runs.len() && (#[trigger] after.runs[i]).done implies after.taken.contains(
        after.runs[i].path()) by {
            if i != t.who {
                assert(after.runs[i] == r.runs[i]);
            }
        }
        assert forall|i: int, j: int|
            0 <= i < after.runs.len() && 0 <= j < after.runs.len() && i != j && (
            #[trigger] after.runs[i]).done && (#[trigger] after.runs[j]).done implies after.runs[i].path()
            != after.runs[j].path() by {
            if i != t.who && j != t.who {
                assert(after.runs[i] == r.runs[i]);
                assert(after.runs[j] == r.runs[j]);
            } else if i == t.who {
                assert(after.runs[j] == r.runs[j]);
                assert(r.taken.contains(r.runs[j].path()));
            } else {
                assert(after.runs[i] == r.runs[i]);
                assert(r.taken.contains(r.runs[i].path()));
            }
        }
    }
}

proof fn lemma_race_keeps_order(r: Race, home: Seq<char>, turns: Seq<Turn>)
    requires
        orderly(r, home),
    ensures
        orderly(race(r, turns), home),
        race(r, turns).runs.len() == r.runs.len(),
    decreases turns.len(),
{
    if turns.len() > 0 {
        lemma_turn_keeps_order(r, home, turns[0]);
        lemma_race_keeps_order(turn(r, turns[0]), home, turns.drop_first());
    }
}

/// Reservations that go on at the same time in one store end with names
/// that differ from one another, whatever the order in which their requests
/// are carried out and whatever the store held before, as long as the
/// making of a directory is one step.
pub proof fn lemma_reserved_names_differ(
    home: Seq<char>,
    prefixes: Seq<Seq<char>>,
    taken: Set<Seq<char>>,
    turns: Seq<Turn>,
    i: int,
    j: int,
)
    requires
        0 <= i < prefixes.len(),
        0 <= j < prefixes.len(),
        i != j,
    ensures
        ({
            let start = Race {
                runs: Seq::new(prefixes.len(), |k: int| opening(home, prefixes[k])),
                taken,
            };
            let end = race(start, turns);
            end.runs.len() == prefixes.len() && (end.runs[i].done && end.runs[j].done
                ==> end.runs[i].name() != end.runs[j].name())
        }),
{
    let start = Race { runs: Seq::new(prefixes.len(), |k: int| opening(home, prefixes[k])), taken };
    assert(orderly(start, home));
    lemma_race_keeps_order(start, home, turns);
    let end = race(start, turns);
    if end.runs[i].done && end.runs[j].done {
        assert(end.runs[i].home == home);
        assert(end.runs[j].home == home);
        assert(end.runs[i].path() != end.runs[j].path());
    }
}

} // verus!
