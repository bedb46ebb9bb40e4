//! Host certificates and the administrator's key.

use crate::effect::{Command, CommandView, InputView};
use crate::script::{Task, TaskView};
use crate::text::join3;
use vstd::prelude::*;

verus! {

/// The program that signs keys.
pub open spec fn keygen() -> Seq<char> {
    "/usr/bin/ssh-keygen"@
}

/// The command that signs the public key in the file `key` as the host
/// certificate of `id`, with the authority's key in the file `ca`.
pub open spec fn sign_command(id: Seq<char>, ca: Seq<char>, key: Seq<char>) -> CommandView {
    CommandView {
        argv: seq![keygen(), "-I"@, id, "-s"@, ca, "-h"@, key],
        env: None,
        input: InputView::Inherit,
        output: None,
    }
}

/// The task that signs the public key in the file `key` as the host
/// certificate of `id`, with the authority's key in the file `ca`. The
/// certificate comes to lie beside the key.
pub fn sign(id: &str, ca: &str, key: &str) -> (t: Task)
    ensures
        t@ == TaskView::Sign(sign_command(id@, ca@, key@)),
{
    let c = Command::new("/usr/bin/ssh-keygen").arg("-I").arg(id).arg("-s").arg(ca).arg("-h").arg(
        key,
    );
    assert(c@.argv =~= sign_command(id@, ca@, key@).argv);
    Task::Sign(c)
}

/// The line that lets the administrator in: the key, and the same key once
/// more as an authority for certificates.
pub open spec fn authorized(key: Seq<char>) -> Seq<char> {
    key + "\ncert-authority "@ + key
}

/// The line for the file of authorized keys, made from the administrator's
/// public key.
pub fn authorized_keys(key: &str) -> (r: String)
    ensures
        r@ == authorized(key@),
{
    join3(key, "\ncert-authority ", key)
}

/// The task that reads the administrator's public key from the file `path`,
/// bearing with bytes that are no text.
pub fn admin_key(path: &str) -> (t: Task)
    ensures
        t@ == TaskView::ReadLossy(path@),
{
    Task::ReadLossy(crate::text::text(path))
}

/// The line that opens the settings for seeds in the operator's
/// configuration of the secure shell.
pub open spec fn seed_host() -> Seq<char> {
    "Host seed-*"@
}

/// The settings for seeds: the administrator logs in, and only hosts that
/// are known are trusted.
pub open spec fn seed_settings() -> Seq<char> {
    "Host seed-*\n\tUser root\n\tStrictHostKeyChecking yes\n"@
}

/// Whether the characters of `text` from `from` up to `to` are a line that
/// reads `wanted`: the line begins at the start or behind the end of a line,
/// and ends at the end or at the end of a line, where a carriage return may
/// stand before it.
pub open spec fn is_line(text: Seq<char>, from: int, to: int, wanted: Seq<char>) -> bool {
    &&& 0 <= from <= to <= text.len()
    &&& from == 0 || text[from - 1] == '\n'
    &&& if to == text.len() {
        text.subrange(from, to) == wanted
    } else {
        text[to] == '\n' && (text.subrange(from, to) == wanted || text.subrange(from, to)
            == wanted.push('\r'))
    }
}

/// Whether one of the lines of `text` reads `wanted`.
pub open spec fn has_line(text: Seq<char>, wanted: Seq<char>) -> bool {
    exists|from: int, to: int| is_line(text, from, to, wanted)
}

/// The configuration `config` with the settings for seeds at its end, on
/// lines of their own.
pub open spec fn with_settings(config: Seq<char>) -> Seq<char> {
    if config.len() > 0 && config.last() == '\n' {
        config + seed_settings()
    } else {
        config + "\n"@ + seed_settings()
    }
}

/// Whether the characters of `v` from `from` up to `to` are those of `w`.
fn reads(v: &Vec<char>, from: usize, to: usize, w: &Vec<char>) -> (r: bool)
    requires
        from <= to <= v@.len(),
    ensures
        r == (v@.subrange(from as int, to as int) == w@),
{
    if to - from != w.len() {
        return false;
    }
    let mut i: usize = 0;
    while i < w.len()
        invariant
            from <= to <= v@.len(),
            to - from == w@.len(),
            i <= w@.len(),
            forall|j: int| 0 <= j < i ==> v@[from + j] == w@[j],
        decreases w@.len() - i,
    {
        if v[from + i] != w[i] {
            assert(v@.subrange(from as int, to as int)[i as int] != w@[i as int]);
            return false;
        }
        i = i + 1;
    }
    assert(v@.subrange(from as int, to as int) =~= w@);
    true
}

/// Whether one of the lines of `text` reads `wanted`, for a `wanted` that
/// is a line itself.
fn holds_line(text: &str, wanted: &str) -> (r: bool)
    requires
        wanted@.len() > 0,
        forall|i: int| 0 <= i < wanted@.len() ==> wanted@[i] != '\n',
    ensures
        r == has_line(text@, wanted@),
{
    let v = crate::text::chars_of(text);
    let w = crate::text::chars_of(wanted);
    let mut from: usize = 0;
    loop
        invariant
            from <= v@.len(),
            from == 0 || v@[from - 1] == '\n',
            v@ == text@,
            w@ == wanted@,
            w@.len() > 0,
            forall|i: int| 0 <= i < w@.len() ==> w@[i] != '\n',
            forall|f: int, t: int| is_line(v@, f, t, w@) ==> f >= from,
        decreases v@.len() - from,
    {
        let mut to: usize = from;
        while to < v.len() && v[to] != '\n'
            invariant
                from <= to <= v@.len(),
                forall|k: int| from <= k < to ==> v@[k] != '\n',
            decreases v@.len() - to,
        {
            to = to + 1;
        }
        let exact = reads(&v, from, to, &w);
        let returned = to < v.len() && to > from && v[to - 1] == '\r' && reads(&v, from, to - 1, &w);
        if exact || returned {
            proof {
                if !exact {
                    assert(v@.subrange(from as int, to as int) =~= w@.push('\r'));
                }
                assert(is_line(v@, from as int, to as int, w@));
            }
            return true;
        }
        proof {
            assert forall|f: int, t: int| is_line(v@, f, t, w@) implies f > to by {
                let piece = v@.subrange(f, t);
                assert(piece == w@ || piece == w@.push('\r'));
                assert forall|k: int| f <= k < t implies v@[k] != '\n' by {
                    assert(piece[k - f] == v@[k]);
                }
                if f <= to {
                    if f > from {
                        assert(v@[f - 1] == '\n');
                    } else {
                        assert(f == from);
                        if t < to {
                            assert(v@[t] == '\n');
                        } else if t > to {
                            assert(v@[to as int] != '\n');
                        } else {
                            if piece == w@.push('\r') {
                                assert(t < v@.len());
                                assert(piece.len() == w@.len() + 1);
                                assert(piece[piece.len() - 1] == '\r');
                                assert(piece.take(piece.len() - 1) =~= w@);
                                assert(v@.subrange(from as int, to - 1) =~= piece.take(
                                    piece.len() - 1,
                                ));
                            }
                        }
                    }
                }
            }
        }
        if to >= v.len() {
            return false;
        }
        from = to + 1;
    }
}

/// Whether the configuration `config` holds the settings for seeds: one of
/// its lines opens them.
pub fn has_seed_settings(config: &str) -> (r: bool)
    ensures
        r == has_line(config@, seed_host()),
{
    proof {
        reveal_strlit("Host seed-*");
    }
    holds_line(config, "Host seed-*")
}

/// The tasks that bring the settings for seeds into the operator's
/// configuration at `path`, which holds `config`: none where the settings
/// are there; else the configuration is written anew with the settings at
/// its end, after a copy of it was put at `backup`, where nothing may be
/// yet. A configuration that holds nothing needs no copy.
pub fn update_config(path: &str, backup: &str, config: &str) -> (tasks: Vec<Task>)
    ensures
        tasks.deep_view() == if has_line(config@, seed_host()) {
            Seq::<TaskView>::empty()
        } else if config@.len() == 0 {
            seq![TaskView::Write(path@, with_settings(config@))]
        } else {
            seq![
                TaskView::Vacant(
                    backup@,
                    "SSH config is missing a 'Host seed-*' line, but backup already exists."@,
                ),
                TaskView::Copy(path@, backup@),
                TaskView::Write(path@, with_settings(config@)),
            ]
        },
{
    let mut tasks: Vec<Task> = Vec::new();
    if has_seed_settings(config) {
        assert(tasks.deep_view() =~= Seq::<TaskView>::empty());
        return tasks;
    }
    let v = crate::text::chars_of(config);
    if v.len() > 0 {
        tasks.push(
            Task::Vacant(
                crate::text::text(backup),
                crate::text::text(
                    "SSH config is missing a 'Host seed-*' line, but backup already exists.",
                ),
            ),
        );
        tasks.push(Task::Copy(crate::text::text(path), crate::text::text(backup)));
    }
    let settings = "Host seed-*\n\tUser root\n\tStrictHostKeyChecking yes\n";
    let written = if v.len() > 0 && v[v.len() - 1] == '\n' {
        crate::text::join(config, settings)
    } else {
        join3(config, "\n", settings)
    };
    tasks.push(Task::Write(crate::text::text(path), written));
    assert(tasks.deep_view() =~= if config@.len() == 0 {
        seq![TaskView::Write(path@, with_settings(config@))]
    } else {
        seq![
            TaskView::Vacant(
                backup@,
                "SSH config is missing a 'Host seed-*' line, but backup already exists."@,
            ),
            TaskView::Copy(path@, backup@),
            TaskView::Write(path@, with_settings(config@)),
        ]
    });
    tasks
}

} // verus!
