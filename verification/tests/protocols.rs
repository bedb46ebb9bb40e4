use barley::{
    Boot, Certs, Command, Data, Error, Field, Image, Input, Layout, Machine, Provisioning,
    Registration, Reply, Request, Script, Sower, Step, Task,
};
use std::collections::{HashMap, HashSet};

struct World {
    files: HashMap<String, String>,
    dirs: HashSet<String>,
    log: Vec<Request>,
    slept: u64,
    tools_work: bool,
    target_ready_after: usize,
    probes: usize,
}

impl World {
    fn new() -> World {
        World {
            files: HashMap::new(),
            dirs: HashSet::new(),
            log: Vec::new(),
            slept: 0,
            tools_work: true,
            target_ready_after: 0,
            probes: 0,
        }
    }

    fn missing() -> Reply {
        Reply::Failed("No such file or directory (os error 2)".to_string())
    }

    fn run(&mut self, command: &Command) -> Reply {
        let argv = &command.argv;
        if argv[0] == "/usr/bin/ssh-keygen" {
            if !self.tools_work {
                return Reply::Exit(false);
            }
            let key = argv.last().unwrap();
            let cert = key.replace("ssh.pub", "ssh-cert.pub");
            let text = format!("host certificate of {} for {}", argv[2], self.files[key]);
            self.files.insert(cert, text);
            return Reply::Exit(true);
        }
        if argv[0] == "/usr/bin/certtool" {
            if !self.tools_work {
                return Reply::Exit(false);
            }
            let out = argv[argv.iter().position(|a| a == "--outfile").unwrap() + 1].clone();
            let text = match argv.iter().position(|a| a == "--template") {
                Some(i) => format!("certificate from <{}>", self.files[&argv[i + 1]]),
                None => "private key".to_string(),
            };
            self.files.insert(out, text);
            return Reply::Exit(true);
        }
        let script = argv.last().unwrap();
        if script.contains("grep -q running") || script.ends_with("--wait true") {
            self.probes += 1;
            return Reply::Exit(self.probes > self.target_ready_after);
        }
        if let Some(path) = &command.output {
            self.files.insert(path.clone(), "ssh-ed25519 HOSTCA host\n".to_string());
        }
        Reply::Exit(true)
    }

    fn serve(&mut self, request: &Request) -> Reply {
        self.log.push(request.clone());
        match request {
            Request::Probe(p) => {
                if self.dirs.contains(p) {
                    Reply::Writable
                } else if self.files.contains_key(p) {
                    Reply::NotDirectory
                } else {
                    Reply::Absent
                }
            }
            Request::CreateDir(p) => {
                if self.dirs.contains(p) || self.files.contains_key(p) {
                    Reply::Exists
                } else {
                    self.dirs.insert(p.clone());
                    Reply::Done
                }
            }
            Request::Read(p) | Request::ReadLossy(p) => match self.files.get(p) {
                Some(text) => Reply::Text(text.clone()),
                None => World::missing(),
            },
            Request::Write(p, d) => {
                self.files.insert(p.clone(), d.clone());
                Reply::Done
            }
            Request::Append(p, d) => match self.files.get_mut(p) {
                Some(text) => {
                    text.push_str(d);
                    Reply::Done
                }
                None => World::missing(),
            },
            Request::Remove(p) => match self.files.remove(p) {
                Some(_) => Reply::Done,
                None => World::missing(),
            },
            Request::Link(a, b) | Request::Copy(a, b) => match self.files.get(a).cloned() {
                Some(text) => {
                    self.files.insert(b.clone(), text);
                    Reply::Done
                }
                None => World::missing(),
            },
            Request::Run(command) => self.run(command),
            Request::Sleep(n) => {
                self.slept += n;
                Reply::Done
            }
        }
    }
}

fn play(script: Script, world: &mut World) -> (Script, Result<(), Error>) {
    let mut script = script;
    let mut step = script.begin();
    loop {
        match step {
            Step::Ask(request) => {
                let reply = world.serve(&request);
                let (next, said) = script.resume(reply);
                script = next;
                step = said;
            }
            Step::Finished => return (script, Ok(())),
            Step::Failed(e) => return (script, Err(e)),
        }
    }
}

fn boot(start: Boot, world: &mut World) -> Result<String, Error> {
    let mut state = start;
    let mut step = state.begin();
    loop {
        match step {
            Step::Ask(request) => {
                let reply = world.serve(&request);
                let (next, said) = state.resume(reply);
                state = next;
                step = said;
            }
            Step::Finished => return Ok(state.descriptor().unwrap()),
            Step::Failed(e) => return Err(e),
        }
    }
}

fn provision(start: Provisioning, world: &mut World) -> Result<(), Error> {
    let mut state = start;
    let mut step = state.begin();
    loop {
        match step {
            Step::Ask(request) => {
                let reply = world.serve(&request);
                let (next, said) = state.resume(reply);
                state = next;
                step = said;
            }
            Step::Finished => return Ok(()),
            Step::Failed(e) => return Err(e),
        }
    }
}

fn service() -> (Sower, World) {
    let sower = Sower::new("10.0.0.1", "/srv/barley", "/var/lib/barley");
    let mut world = World::new();
    let (_, done) = play(Script::new(sower.ensure()), &mut world);
    assert_eq!(done, Ok(()));
    for (name, text) in [
        ("admin.pub", "ssh-ed25519 ADMIN admin"),
        ("root.crt", "ROOT CERTIFICATE\n"),
        ("machine.crt", "INTERMEDIATE CERTIFICATE\n"),
        ("machine.key", "INTERMEDIATE KEY\n"),
        ("ca", "HOST CA KEY\n"),
    ] {
        world.files.insert(format!("/var/lib/barley/{}", name), text.to_string());
    }
    world.log.clear();
    (sower, world)
}

fn registration(otp: &str) -> Registration {
    Registration {
        otp: otp.to_string(),
        ip: "10.0.0.17".to_string(),
        ssh: "ssh-ed25519 SEEDKEY".to_string(),
        csr: "CERTIFICATE REQUEST".to_string(),
    }
}

fn register(sower: &Sower, world: &mut World, otp: &str) -> Result<Certs, Error> {
    let (script, done) = play(sower.register_with("seed-1", &registration(otp), 42), world);
    done.map(|_| Sower::certs(script.texts()).unwrap())
}

#[test]
fn the_service_validates_its_stores() {
    let sower = Sower::new("10.0.0.1", "/srv/barley", "/var/lib/barley");
    let mut world = World::new();
    world.dirs.insert("/srv/barley".to_string());
    let (_, done) = play(Script::new(sower.ensure()), &mut world);
    assert_eq!(done, Ok(()));
    assert!(world.dirs.contains("/var/lib/barley"));
    assert_eq!(
        world.log,
        vec![
            Request::Probe("/srv/barley".to_string()),
            Request::Probe("/var/lib/barley".to_string()),
            Request::CreateDir("/var/lib/barley".to_string()),
        ]
    );
}

#[test]
fn a_store_that_is_no_writable_directory_is_refused() {
    let cases = [
        (Reply::NotDirectory, "Data directory /d is not a directory"),
        (Reply::ReadOnly, "Data directory /d is not writeable"),
    ];
    for (reply, message) in cases {
        let script = Script::new(vec![Data::new("/d").ensure()]);
        let (_, step) = script.resume(reply);
        assert_eq!(step, Step::Failed(Error::DataError(message.to_string())));
    }
    let script = Script::new(vec![Data::new("/d").ensure()]);
    let (script, step) = script.resume(Reply::Absent);
    assert_eq!(step, Step::Ask(Request::CreateDir("/d".to_string())));
    let (_, step) = script.resume(Reply::Failed("Read-only file system".to_string()));
    assert_eq!(
        step,
        Step::Failed(Error::DataError(
            "Failed to create data directory /d: Read-only file system".to_string()
        ))
    );
}

#[test]
fn reading_and_writing_wrap_failures_with_the_path() {
    let data = Data::new("/d");
    let (_, step) = Script::new(vec![data.read("x")]).resume(Reply::Failed("denied".to_string()));
    assert_eq!(step, Step::Failed(Error::IoError("Failed to read /d/x: denied".to_string())));
    let (_, step) =
        Script::new(vec![data.write("x", "1")]).resume(Reply::Failed("full".to_string()));
    assert_eq!(step, Step::Failed(Error::IoError("Failed to write /d/x: full".to_string())));
    let (script, step) = Script::new(vec![data.read("x")]).resume(Reply::Text("kept".to_string()));
    assert_eq!(step, Step::Finished);
    assert_eq!(script.texts(), &vec!["kept".to_string()]);
    assert!(script.finished());
}

#[test]
fn a_seed_that_boots_is_given_a_name_and_a_password() {
    let (sower, mut world) = service();
    let script = boot(sower.ipxe_with("c0ffee"), &mut world).unwrap();
    assert_eq!(
        script,
        "#!ipxe\nkernel seed.vmlinuz rdinit=/lib/systemd/systemd systemd.hostname=seed-1 console=ttyS0\ninitrd seed.cpio.zst\ninitrd init/seed-1 /etc/default/barley-seed\nboot\n"
    );
    assert_eq!(world.files["/var/lib/barley/seed-1/otp"], "c0ffee");
    let second = boot(sower.ipxe_with("decaf"), &mut world).unwrap();
    assert!(second.contains("systemd.hostname=seed-2 "));
    assert_eq!(world.files["/var/lib/barley/seed-2/otp"], "decaf");
}

#[test]
fn a_seed_boots_even_if_its_password_cannot_be_kept() {
    let (sower, _) = service();
    let state = sower.ipxe_with("c0ffee");
    let (state, _) = state.resume(Reply::Done);
    let (state, _) = state.resume(Reply::Writable);
    assert_eq!(state.descriptor(), None);
    let (state, step) = state.resume(Reply::Failed("No space left on device".to_string()));
    assert_eq!(step, Step::Finished);
    assert!(state.descriptor().unwrap().contains("initrd init/seed-1 "));
}

#[test]
fn a_fresh_password_is_a_number_in_hexadecimal() {
    let (sower, mut world) = service();
    boot(sower.ipxe(), &mut world).unwrap();
    let otp = &world.files["/var/lib/barley/seed-1/otp"];
    assert!(!otp.is_empty() && otp.len() <= 32);
    assert_eq!(format!("{:0x}", u128::from_str_radix(otp, 16).unwrap()), *otp);
    assert_ne!(barley::random_pw(), barley::random_pw());
}

#[test]
fn a_seed_is_told_the_service_and_its_password() {
    let (sower, mut world) = service();
    boot(sower.ipxe_with("c0ffee"), &mut world).unwrap();
    let (script, done) = play(sower.init("seed-1"), &mut world);
    assert_eq!(done, Ok(()));
    assert_eq!(sower.init_reply(&script.texts()[0]), "SOWER=10.0.0.1\nOTP=c0ffee\n");
    assert_eq!(sower.binding(), "10.0.0.1:8000");
}

#[test]
fn the_right_password_registers_a_seed_once() {
    let (sower, mut world) = service();
    boot(sower.ipxe_with("c0ffee"), &mut world).unwrap();
    let certs = register(&sower, &mut world, "c0ffee").unwrap();
    assert_eq!(certs.ca, "ROOT CERTIFICATE\n");
    let leaf = world.files["/var/lib/barley/seed-1/crt"].clone();
    assert_eq!(
        leaf,
        "certificate from <dn=cn=seed-1\nexpiration_days=365\nsigning_key\ntls_www_client\ntls_www_server\npath_len=2>"
    );
    assert_eq!(certs.cert, format!("{}INTERMEDIATE CERTIFICATE\n", leaf));
    assert_eq!(certs.host, "host certificate of seed-1 for ssh-ed25519 SEEDKEY");
    assert_eq!(certs.admin, "ssh-ed25519 ADMIN admin\ncert-authority ssh-ed25519 ADMIN admin");
    assert_eq!(world.files["/var/lib/barley/seed-1/ip"], "10.0.0.17");
    assert!(!world.files.contains_key("/var/lib/barley/seed-1/otp"));
    assert!(!world.files.contains_key("/var/lib/barley/seed-1/ca-42.conf"));
    assert_eq!(register(&sower, &mut world, "c0ffee"), Err(Error::OtpError()));
}

#[test]
fn a_wrong_password_is_refused_and_does_no_harm() {
    let (sower, mut world) = service();
    boot(sower.ipxe_with("c0ffee"), &mut world).unwrap();
    let before = world.files.clone();
    assert_eq!(register(&sower, &mut world, "c0ffef"), Err(Error::OtpError()));
    assert_eq!(register(&sower, &mut world, ""), Err(Error::OtpError()));
    assert_eq!(world.files, before);
    assert!(register(&sower, &mut world, "c0ffee").is_ok());
}

#[test]
fn a_seed_that_is_not_known_is_refused() {
    let (sower, mut world) = service();
    assert_eq!(register(&sower, &mut world, "c0ffee"), Err(Error::OtpError()));
}

#[test]
fn the_password_is_taken_off_the_record_before_anything_else() {
    let (sower, mut world) = service();
    boot(sower.ipxe_with("c0ffee"), &mut world).unwrap();
    world.log.clear();
    register(&sower, &mut world, "c0ffee").unwrap();
    let otp = "/var/lib/barley/seed-1/otp".to_string();
    assert_eq!(
        world.log[..4],
        [
            Request::Probe("/var/lib/barley/seed-1".to_string()),
            Request::Read(otp.clone()),
            Request::Remove(otp),
            Request::Write("/var/lib/barley/seed-1/ip".to_string(), "10.0.0.17".to_string()),
        ]
    );
}

#[test]
fn a_signing_tool_that_fails_uses_the_password_up_all_the_same() {
    let (sower, mut world) = service();
    boot(sower.ipxe_with("c0ffee"), &mut world).unwrap();
    world.tools_work = false;
    assert_eq!(register(&sower, &mut world, "c0ffee"), Err(Error::CertError()));
    world.tools_work = true;
    assert_eq!(register(&sower, &mut world, "c0ffee"), Err(Error::OtpError()));
}

#[test]
fn a_template_is_removed_even_if_the_tool_fails() {
    let task = barley::tls::sign("id", "/ca.crt", "/ca.key", "/d/csr", "/d/crt", "/d/ca-1.conf");
    let script = Script::new(vec![task]);
    assert_eq!(
        script.begin(),
        Step::Ask(Request::Write(
            "/d/ca-1.conf".to_string(),
            "dn=cn=id\nexpiration_days=365\nsigning_key\ntls_www_client\ntls_www_server\npath_len=2"
                .to_string()
        ))
    );
    let (script, step) = script.resume(Reply::Done);
    match step {
        Step::Ask(Request::Run(command)) => assert_eq!(
            command.argv,
            [
                "/usr/bin/certtool",
                "--generate-certificate",
                "--template",
                "/d/ca-1.conf",
                "--load-request",
                "/d/csr",
                "--load-ca-certificate",
                "/ca.crt",
                "--load-ca-privkey",
                "/ca.key",
                "--outfile",
                "/d/crt"
            ]
        ),
        other => panic!("{:?}", other),
    }
    let (script, step) = script.resume(Reply::Exit(false));
    assert_eq!(step, Step::Ask(Request::Remove("/d/ca-1.conf".to_string())));
    let (_, step) = script.resume(Reply::Done);
    assert_eq!(step, Step::Failed(Error::CertError()));
}

#[test]
fn certs_are_put_together_leaf_first() {
    let certs = Certs::assemble("KEY", "HOST", "ROOT", "LEAF\n", "ISSUER\n");
    assert_eq!(certs.cert, "LEAF\nISSUER\n");
    assert_eq!(certs.ca, "ROOT");
    assert_eq!(certs.host, "HOST");
    assert_eq!(certs.admin, "KEY\ncert-authority KEY");
    assert_eq!(Sower::certs(&vec!["a".to_string()]), None);
}

fn layout() -> Layout {
    Layout::new("/home/op")
}

fn machine(seed: Option<&str>) -> Machine {
    Machine::new(
        "base".to_string(),
        None,
        None,
        seed.map(|s| s.to_string()),
        seed.is_none(),
        &vec![Image::new("base", "20230101"), Image::new("base", "20230102")],
        &vec![Field::new("old", 10), Field::new("new", 20)],
        &layout(),
    )
    .unwrap()
}

fn target() -> World {
    let mut world = World::new();
    world.dirs.insert("/home/op/.barley/fields/new".to_string());
    for (path, text) in [
        ("/sys/class/net/br0/operstate", "up\n"),
        ("/home/op/.ssh/known_hosts", "old line\n"),
        ("/home/op/.barley/fields/new/root.crt", "ROOT"),
        ("/home/op/.barley/fields/new/root.key", "ROOT KEY"),
        ("/home/op/.barley/fields/new/admin.pub", "ADMIN"),
        ("/home/op/.barley/images/base_20230102.tar.zst", "ARCHIVE"),
    ] {
        world.files.insert(path.to_string(), text.to_string());
    }
    world
}

fn scripts_run(world: &World) -> Vec<String> {
    world
        .log
        .iter()
        .filter_map(|r| match r {
            Request::Run(c) => Some(c.argv.join(" ")),
            _ => None,
        })
        .collect()
}

#[test]
fn a_machine_is_brought_up_without_an_identity() {
    let mut world = target();
    assert_eq!(provision(machine(None).start_with(false, &None, 1), &mut world), Ok(()));
    assert_eq!(
        world.log[0],
        Request::Read("/sys/class/net/br0/operstate".to_string())
    );
    assert_eq!(
        scripts_run(&world),
        [
            "/usr/bin/sudo /bin/sh -c zstdcat | machinectl -q import-tar - base",
            "/usr/bin/sudo /bin/sh -c mkdir -p /etc/systemd/nspawn && cat > /etc/systemd/nspawn/base.nspawn",
            "/usr/bin/sudo /bin/sh -c machinectl start base",
        ]
    );
    match &world.log[3] {
        Request::Run(c) => {
            assert_eq!(
                c.input,
                Input::File("/home/op/.barley/images/base_20230102.tar.zst".to_string())
            )
        }
        other => panic!("{:?}", other),
    }
    match &world.log[4] {
        Request::Run(c) => assert_eq!(c.input, Input::Text("[Network]\nBridge=br0\n".to_string())),
        other => panic!("{:?}", other),
    }
    assert_eq!(world.files["/home/op/.ssh/known_hosts"], "old line\n");
    assert_eq!(world.slept, 0);
}

#[test]
fn a_machine_with_an_identity_is_waited_for_and_pinned() {
    let mut world = target();
    world.target_ready_after = 3;
    assert_eq!(provision(machine(None).start_with(true, &None, 5), &mut world), Ok(()));
    assert_eq!(
        world.files["/home/op/.ssh/known_hosts"],
        "old line\n@cert-authority * ssh-ed25519 HOSTCA host-20230102\n"
    );
    assert_eq!(world.slept, 1 + 2 + 4);
    let run = scripts_run(&world);
    assert_eq!(run[0], "/usr/bin/sudo /bin/sh -c zstdcat | machinectl -q import-tar - base");
    assert_eq!(
        run[1],
        "/usr/bin/certtool --generate-privkey --key-type ed25519 --no-text --outfile /home/op/.barley/fields/new/base/machine.key"
    );
    assert_eq!(
        run[2],
        "/usr/bin/certtool --generate-certificate --template /home/op/.barley/fields/new/base/ca-5.conf --ask-pass --load-privkey /home/op/.barley/fields/new/base/machine.key --load-ca-certificate /home/op/.barley/fields/new/root.crt --load-ca-privkey /home/op/.barley/fields/new/root.key --outfile /home/op/.barley/fields/new/base/machine.crt"
    );
    assert_eq!(
        run[3],
        "/usr/bin/sudo /bin/sh -c systemd-nspawn -M base -UPq sh -c 'install -m 600 -o barley -g barley /dev/null /var/lib/barley/machine.key && cat > /var/lib/barley/machine.key'"
    );
    assert_eq!(
        run[6],
        "/usr/bin/sudo /bin/sh -c systemd-nspawn -M base -UPq sh -c 'install -m 644 -o barley -g barley /dev/null /var/lib/barley/admin.pub && cat > /var/lib/barley/admin.pub'"
    );
    assert_eq!(run[8], "/usr/bin/sudo /bin/sh -c machinectl start base");
    assert_eq!(
        run[9],
        "/usr/bin/sudo /bin/sh -c machinectl show --property=State --value base | grep -q running"
    );
    assert_eq!(run[13], "/usr/bin/sudo /bin/sh -c systemd-run -M base -Pq --wait true");
    assert_eq!(
        run[14],
        "/usr/bin/sudo /bin/sh -c systemd-run -M base -Pq --wait sh -c 'cat /var/lib/barley/ca.pub'"
    );
    assert_eq!(run.len(), 15);
    assert_eq!(
        world.files["/home/op/.barley/fields/new/base/machine.crt"],
        "certificate from <dn=cn=base\nexpiration_days=365\nca\ncert_signing_key\ncrl_signing_key\nsigning_key\ntls_www_client\ntls_www_server>"
    );
}

#[test]
fn a_machine_on_a_host_is_reached_through_that_host_alone() {
    let mut world = target();
    world.files.remove("/sys/class/net/br0/operstate");
    assert_eq!(provision(machine(Some("seed-7")).start_with(true, &None, 5), &mut world), Ok(()));
    for line in scripts_run(&world) {
        assert!(line.starts_with("/usr/bin/ssh seed-7 ") || line.starts_with("/usr/bin/certtool "));
    }
}

#[test]
fn a_machine_that_never_comes_up_is_given_up_after_nine_tries() {
    let mut world = target();
    world.target_ready_after = usize::MAX;
    assert_eq!(
        provision(machine(None).start_with(true, &None, 5), &mut world),
        Err(Error::IoError("timed out".to_string()))
    );
    assert_eq!(world.probes, 9);
    assert_eq!(world.slept, 255);
    assert_eq!(world.files["/home/op/.ssh/known_hosts"], "old line\n");
}

#[test]
fn a_wait_pauses_twice_as_long_each_time() {
    let script = Script::new(vec![Task::Await(Command::new("true"))]);
    let mut script = script;
    let mut pauses = Vec::new();
    let mut step = script.begin();
    let mut tries = 0;
    loop {
        match step {
            Step::Ask(Request::Run(_)) => {
                tries += 1;
                let (next, said) = script.resume(Reply::Exit(tries == 6));
                script = next;
                step = said;
            }
            Step::Ask(Request::Sleep(n)) => {
                pauses.push(n);
                let (next, said) = script.resume(Reply::Done);
                script = next;
                step = said;
            }
            Step::Finished => break,
            other => panic!("{:?}", other),
        }
    }
    assert_eq!(tries, 6);
    assert_eq!(pauses, [1, 2, 4, 8, 16]);
}

#[test]
fn a_bridge_that_is_down_stops_everything_before_it_begins() {
    let mut world = target();
    world.files.insert("/sys/class/net/br0/operstate".to_string(), "down\n".to_string());
    let before = world.files.clone();
    assert_eq!(
        provision(machine(None).start_with(true, &None, 5), &mut world),
        Err(Error::IoError("Bridge br0 is down.".to_string()))
    );
    assert_eq!(world.log.len(), 1);
    assert_eq!(world.files, before);
    assert!(world.dirs.len() == 1);
}

#[test]
fn network_lines_of_the_operator_need_no_bridge() {
    let mut world = target();
    world.files.remove("/sys/class/net/br0/operstate");
    let lines = Some(vec!["VirtualEthernet=yes".to_string(), "Port=tcp:80".to_string()]);
    assert_eq!(provision(machine(None).start_with(false, &lines, 5), &mut world), Ok(()));
    assert_eq!(Machine::network(&lines), "[Network]\nVirtualEthernet=yes\nPort=tcp:80\n");
    assert_eq!(Machine::network(&Some(Vec::new())), "[Network]\n");
}

#[test]
fn a_step_that_fails_ends_the_sequence() {
    let mut world = target();
    world.files.remove("/home/op/.barley/fields/new/admin.pub");
    let script = Script::new(machine(None).plan(false, &None, 1));
    let (script, step) = script.resume(Reply::Text("up".to_string()));
    assert_eq!(
        step,
        Step::Ask(Request::Probe("/home/op/.barley/fields/new/base".to_string()))
    );
    let (script, _) = script.resume(Reply::Writable);
    let (script, step) = script.resume(Reply::Exit(false));
    assert_eq!(step, Step::Failed(Error::IoError("command failed".to_string())));
    assert!(!script.finished());
    let (_, step) = script.resume(Reply::Exit(true));
    assert_eq!(step, Step::Failed(Error::IoError("no request is outstanding".to_string())));
}

#[test]
fn a_key_of_another_kind_is_not_pinned() {
    let m = machine(None);
    assert_eq!(
        m.update_known_hosts("ssh-rsa AAAA"),
        Err(Error::IoError("Invalid key: ssh-rsa AAAA".to_string()))
    );
    assert_eq!(
        m.update_known_hosts("ssh-ed25519 AAAA ca\n"),
        Ok(Task::Append(
            "/home/op/.ssh/known_hosts".to_string(),
            "@cert-authority * ssh-ed25519 AAAA ca-20230102\n".to_string()
        ))
    );
}

#[test]
fn a_machine_needs_a_target_an_image_and_a_field() {
    let images = vec![Image::new("base", "1")];
    let fields = vec![Field::new("f", 1)];
    let new = |image: &str, version: Option<&str>, field: Option<&str>, seed: Option<&str>, local| {
        Machine::new(
            image.to_string(),
            version.map(|s| s.to_string()),
            field.map(|s| s.to_string()),
            seed.map(|s| s.to_string()),
            local,
            &images,
            &fields,
            &layout(),
        )
    };
    assert_eq!(
        new("base", None, None, None, false).err(),
        Some(Error::DataError(
            "Unable to pick a Seed for this machine, use --seed <host> or --local.".to_string()
        ))
    );
    assert_eq!(
        new("none", None, None, None, true).err(),
        Some(Error::DataError("No images found for 'none'. Run 'sow import <path>'.".to_string()))
    );
    assert_eq!(
        Machine::new("base".to_string(), None, None, None, true, &images, &Vec::new(), &layout())
            .err(),
        Some(Error::DataError("No Barley fields found. Run 'sow new <name>'.".to_string()))
    );
    assert!(new("none", Some("7"), Some("x"), Some("host"), false).is_ok());
    let m = new("none", Some("7"), Some("x"), None, true).unwrap();
    assert_eq!(
        m.import(),
        Task::Shell(
            Command::new("/usr/bin/sudo")
                .arg("/bin/sh")
                .arg("-c")
                .arg("zstdcat | machinectl -q import-tar - none")
                .input(Input::File("/home/op/.barley/images/none_7.tar.zst".to_string()))
        )
    );
}

#[test]
fn a_field_is_made_with_its_authority() {
    let home = layout().fields_home();
    let field = Field::new("green", 0);
    let mut world = World::new();
    world.dirs.insert("/home/op/.barley/fields".to_string());
    world.files.insert("/home/op/.ssh/id_ed25519.pub".to_string(), "ADMINKEY".to_string());
    let tasks = field.create_with(&home, "/home/op/.ssh/id_ed25519.pub", "s3cret", 9);
    let (_, done) = play(Script::new(tasks), &mut world);
    assert_eq!(done, Ok(()));
    assert!(world.dirs.contains("/home/op/.barley/fields/green"));
    assert_eq!(world.files["/home/op/.barley/fields/green/admin.pub"], "ADMINKEY");
    assert_eq!(world.files["/home/op/.barley/fields/green/root.key"], "private key");
    assert_eq!(
        world.files["/home/op/.barley/fields/green/root.crt"],
        "certificate from <dn=cn=green\nexpiration_days=1825\nca\ncert_signing_key\ncrl_signing_key>"
    );
    let run = scripts_run(&world);
    assert_eq!(
        run[0],
        "/usr/bin/certtool --generate-privkey --key-type ed25519 --pkcs-cipher aes-256 --password s3cret --outfile /home/op/.barley/fields/green/root.key"
    );
    match &world.log[4] {
        Request::Run(c) => {
            assert_eq!(c.env, Some(("GNUTLS_PIN".to_string(), "s3cret".to_string())))
        }
        other => panic!("{:?}", other),
    }
    let again = field.create_with(&home, "/home/op/.ssh/id_ed25519.pub", "s3cret", 9);
    let (_, done) = play(Script::new(again), &mut world);
    assert_eq!(
        done,
        Err(Error::DataError("/home/op/.barley/fields/green already exists".to_string()))
    );
    let (pw, tasks) = field.create(&home, "/k");
    assert_eq!(tasks.len(), 4);
    assert!(u128::from_str_radix(&pw, 16).is_ok());
}

#[test]
fn the_field_changed_last_is_the_latest() {
    assert_eq!(Field::latest(&Vec::new()), None);
    let fields = vec![Field::new("a", 5), Field::new("b", 9), Field::new("c", 9), Field::new("d", 1)];
    assert_eq!(Field::latest(&fields), Some(Field::new("c", 9)));
    assert_eq!(Field::from_dir(false, "x", 1), None);
    assert_eq!(Field::from_dir(true, "x", 1), Some(Field::new("x", 1)));
    let home = layout().fields_home();
    assert_eq!(fields[0].cacert(&home), "/home/op/.barley/fields/a/root.crt");
    assert_eq!(fields[0].cakey(&home), "/home/op/.barley/fields/a/root.key");
    assert_eq!(fields[0].admin(&home), "/home/op/.barley/fields/a/admin.pub");
}

#[test]
fn the_layout_lies_below_the_home_directory() {
    let l = layout();
    assert_eq!(l.home_ssh().home(), "/home/op/.ssh");
    assert_eq!(l.home_barley().home(), "/home/op/.barley");
    assert_eq!(l.fields_home().home(), "/home/op/.barley/fields");
    assert_eq!(l.images_home().home(), "/home/op/.barley/images");
    assert_eq!(
        l.setup(),
        vec![
            Task::Ensure("/home/op/.barley".to_string()),
            Task::Ensure("/home/op/.barley/fields".to_string()),
            Task::Ensure("/home/op/.barley/images".to_string()),
        ]
    );
}

#[test]
fn an_import_links_or_else_copies() {
    let script = Script::new(vec![Task::Link("/a".to_string(), "/b".to_string())]);
    assert_eq!(script.begin(), Step::Ask(Request::Link("/a".to_string(), "/b".to_string())));
    let (script, step) = script.resume(Reply::Failed("Invalid cross-device link".to_string()));
    assert_eq!(step, Step::Ask(Request::Copy("/a".to_string(), "/b".to_string())));
    let (_, step) = script.resume(Reply::Failed("No space left".to_string()));
    assert_eq!(step, Step::Failed(Error::IoError("No space left".to_string())));
}

#[test]
fn host_keys_are_signed_for_the_seed() {
    assert_eq!(
        barley::ssh::sign("seed-1", "/d/ca", "/d/seed-1/ssh.pub"),
        Task::Sign(
            Command::new("/usr/bin/ssh-keygen")
                .arg("-I")
                .arg("seed-1")
                .arg("-s")
                .arg("/d/ca")
                .arg("-h")
                .arg("/d/seed-1/ssh.pub")
        )
    );
    assert_eq!(barley::ssh::authorized_keys("KEY"), "KEY\ncert-authority KEY");
    let (_, step) =
        Script::new(vec![barley::ssh::sign("s", "/ca", "/k")]).resume(Reply::Exit(false));
    assert_eq!(step, Step::Failed(Error::CertError()));
    let (_, step) = Script::new(vec![barley::ssh::admin_key("/d/admin.pub")])
        .resume(Reply::Failed("gone".to_string()));
    assert_eq!(step, Step::Failed(Error::IoError("Failed to read /d/admin.pub: gone".to_string())));
}
