//! Seeds: nodes that have booted and are not trusted yet, and the service
//! that takes them in.
//!
//! A seed is offered a one-time password while it boots. It hands the
//! password back once, together with its keys, and is given its certificates
//! in return. The password is taken off the record before anything else is
//! done with the registration.

use crate::effect::{Reply, ReplyView};
use crate::script::{current, extend, fresh, resume, Script, ScriptView, Step, StepView, Task, TaskView};
use crate::ssh::{authorized, authorized_keys};
use crate::store::{joined, opening, Data, Reservation, ReservationView};
use crate::text::{hex, hex_of, join, join3, text};
use crate::tls::{conf_name, leaf_template};
use vstd::prelude::*;
use vstd::string::StringExecFns;

verus! {

/// What a seed is given when its registration succeeds.
#[derive(Debug, Clone, PartialEq, Eq)]
pub struct Certs {
    /// The line that lets the administrator in.
    pub admin: String,
    /// The host certificate of the seed.
    pub host: String,
    /// The certificate of the root authority.
    pub ca: String,
    /// The certificate of the seed, followed by that of the authority that
    /// issued it.
    pub cert: String,
}

impl Certs {
    /// Puts together what a seed is given: the line made from the
    /// administrator's key, the host certificate and the root certificate as
    /// they are, and the seed's certificate with the issuer's behind it.
    pub fn assemble(admin_key: &str, host: &str, ca: &str, leaf: &str, issuer: &str) -> (c: Certs)
        ensures
            c.admin@ == authorized(admin_key@),
            c.host@ == host@,
            c.ca@ == ca@,
            c.cert@ == leaf@ + issuer@,
    {
        Certs {
            admin: authorized_keys(admin_key),
            host: text(host),
            ca: text(ca),
            cert: join(leaf, issuer),
        }
    }
}

/// What a seed hands in to be registered.
#[derive(Debug, Clone, PartialEq, Eq)]
pub struct Registration {
    /// The one-time password that the seed was offered.
    pub otp: String,
    /// The address of the seed, as text.
    pub ip: String,
    /// The public host key of the seed.
    pub ssh: String,
    /// The seed's request for a certificate.
    pub csr: String,
}

/// What a seed is told to boot: a kernel, the common file system, and a
/// second one of its own that leads it back to the service.
pub open spec fn boot_script(name: Seq<char>) -> Seq<char> {
    "#!ipxe\nkernel seed.vmlinuz rdinit=/lib/systemd/systemd systemd.hostname="@ + name
        + " console=ttyS0\ninitrd seed.cpio.zst\ninitrd init/"@ + name
        + " /etc/default/barley-seed\nboot\n"@
}

/// The tasks that hold the password `otp` against the one on record at `path`
/// and take the record away.
pub open spec fn claim_tasks(path: Seq<char>, otp: Seq<char>) -> Seq<TaskView> {
    seq![TaskView::Claim(path, otp), TaskView::Remove(path)]
}

/// The tasks that sign the host key `key` of the seed `name`, whose store is
/// `home`, with the authority's key in the file `ca`.
pub open spec fn sign_ssh_tasks(
    home: Seq<char>,
    name: Seq<char>,
    key: Seq<char>,
    ca: Seq<char>,
) -> Seq<TaskView> {
    seq![
        TaskView::Write(joined(home, "ssh.pub"@), key),
        TaskView::Sign(crate::ssh::sign_command(name, ca, joined(home, "ssh.pub"@))),
        TaskView::Read(joined(home, "ssh-cert.pub"@)),
    ]
}

/// The tasks that issue the certificate that the seed `name`, whose store is
/// `home`, asks for in `csr`.
pub open spec fn sign_tls_tasks(
    home: Seq<char>,
    name: Seq<char>,
    csr: Seq<char>,
    cacert: Seq<char>,
    cakey: Seq<char>,
    nonce: nat,
) -> Seq<TaskView> {
    seq![
        TaskView::Write(joined(home, "csr"@), csr),
        TaskView::Certify(
            joined(home, conf_name(nonce)),
            leaf_template(name),
            crate::tls::sign_command(
                joined(home, conf_name(nonce)),
                cacert,
                cakey,
                joined(home, "csr"@),
                joined(home, "crt"@),
            ),
        ),
        TaskView::Read(joined(home, "crt"@)),
    ]
}

/// A seed: its name, and the store that holds what is known of it.
#[derive(Debug, Clone, PartialEq, Eq)]
pub struct Seed {
    name: String,
    data: Data,
}

impl Seed {
    /// The name of the seed.
    pub closed spec fn name(self) -> Seq<char> {
        self.name@
    }

    /// The path of the seed's store.
    pub closed spec fn home(self) -> Seq<char> {
        self.data@
    }

    /// The seed `name`, whose store lies in the store `home` under its name.
    /// Nothing is looked at: the task of [`Seed::ensure`] sees that the store
    /// is there.
    pub fn new(home: &Data, name: &str) -> (s: Seed)
        ensures
            s.name() == name@,
            s.home() == joined(home@, name@),
    {
        let path = home.file(name);
        Seed { name: text(name), data: Data::new(path.as_str()) }
    }

    /// The task that validates the seed's store, making it where it is
    /// missing.
    pub fn ensure(&self) -> (t: Task)
        ensures
            t@ == TaskView::Ensure(self.home()),
    {
        self.data.ensure()
    }

    /// The task that puts the password `otp` on record for the seed. The
    /// seed is to boot whether or not this works.
    pub fn offer(&self, otp: &str) -> (t: Task)
        ensures
            t@ == TaskView::Offer(joined(self.home(), "otp"@), otp@),
    {
        Task::Offer(self.data.file("otp"), text(otp))
    }

    /// What the seed is told to boot.
    pub fn ipxe(&self) -> (r: String)
        ensures
            r@ == boot_script(self.name()),
    {
        let mut s = join3(
            "#!ipxe\nkernel seed.vmlinuz rdinit=/lib/systemd/systemd systemd.hostname=",
            self.name.as_str(),
            " console=ttyS0\ninitrd seed.cpio.zst\ninitrd init/",
        );
        s.append(self.name.as_str());
        s.append(" /etc/default/barley-seed\nboot\n");
        s
    }

    /// The task that reads the password on record and keeps it.
    pub fn otp(&self) -> (t: Task)
        ensures
            t@ == TaskView::Read(joined(self.home(), "otp"@)),
    {
        self.data.read("otp")
    }

    /// The tasks that check the password `otp`: it has to be the one on
    /// record, and then the record is taken away, so that no password opens
    /// the door twice.
    pub fn check_otp(&self, otp: &str) -> (tasks: Vec<Task>)
        ensures
            tasks.deep_view() == claim_tasks(joined(self.home(), "otp"@), otp@),
    {
        let mut tasks: Vec<Task> = Vec::new();
        tasks.push(Task::Claim(self.data.file("otp"), text(otp)));
        tasks.push(Task::Remove(self.data.file("otp")));
        assert(tasks.deep_view() =~= claim_tasks(joined(self.home(), "otp"@), otp@));
        tasks
    }

    /// The task that puts the address `ip` of the seed on record.
    pub fn write_ip(&self, ip: &str) -> (t: Task)
        ensures
            t@ == TaskView::Write(joined(self.home(), "ip"@), ip@),
    {
        self.data.write("ip", ip)
    }

    /// The tasks that put the host key `key` on record, sign it with the
    /// authority's key in the file `ca`, and read the certificate.
    pub fn sign_ssh(&self, key: &str, ca: &str) -> (tasks: Vec<Task>)
        ensures
            tasks.deep_view() == sign_ssh_tasks(self.home(), self.name(), key@, ca@),
    {
        let public = self.data.file("ssh.pub");
        let mut tasks: Vec<Task> = Vec::new();
        tasks.push(self.data.write("ssh.pub", key));
        tasks.push(crate::ssh::sign(self.name.as_str(), ca, public.as_str()));
        tasks.push(self.data.read("ssh-cert.pub"));
        assert(tasks.deep_view() =~= sign_ssh_tasks(self.home(), self.name(), key@, ca@));
        tasks
    }

    /// The tasks that put the request `csr` on record, issue the certificate
    /// under the authority of `cacert` and `cakey`, and read it. The number
    /// `nonce` tells the template file apart from others.
    pub fn sign_tls(&self, csr: &str, cacert: &str, cakey: &str, nonce: u128) -> (tasks: Vec<Task>)
        ensures
            tasks.deep_view() == sign_tls_tasks(
                self.home(),
                self.name(),
                csr@,
                cacert@,
                cakey@,
                nonce as nat,
            ),
    {
        let request = self.data.file("csr");
        let issued = self.data.file("crt");
        let conf = crate::tls::conf_path(&self.data, nonce);
        let mut tasks: Vec<Task> = Vec::new();
        tasks.push(self.data.write("csr", csr));
        tasks.push(
            crate::tls::sign(
                self.name.as_str(),
                cacert,
                cakey,
                request.as_str(),
                issued.as_str(),
                conf.as_str(),
            ),
        );
        tasks.push(self.data.read("crt"));
        assert(tasks.deep_view() =~= sign_tls_tasks(
            self.home(),
            self.name(),
            csr@,
            cacert@,
            cakey@,
            nonce as nat,
        ));
        tasks
    }
}

/// A number that nobody can foresee, from the generator of the thread
/// (`rand::random`). Nothing is claimed of the number. The call fails only
/// where the system gives the generator no entropy to start from.
#[verifier::external_body]
pub(crate) fn random_number() -> u128 {
    rand::random::<u128>()
}

/// A fresh password: a number of 128 bits that nobody can foresee, written
/// in hexadecimal.
pub fn random_pw() -> (r: String)
    ensures
        exists|n: u128| r@ == hex_of(n as nat),
{
    let n = random_number();
    hex(n)
}

/// What the first match of the pattern `pattern` in `text` holds in its group
/// `group`, as the `regex` crate finds it: `None` where the pattern is none
/// that the crate accepts; else `Some` of the text of the group, or of
/// nothing where the pattern does not match or the group took no part.
pub uninterp spec fn first_capture(pattern: Seq<char>, group: Seq<char>, text: Seq<char>) -> Option<
    Option<Seq<char>>,
>;

/// Compiles `pattern` with `regex::Regex::new`, looks for its first match in
/// `haystack` with `Regex::captures` and takes the text of the group `group`
/// with `Captures::name`. The claim is that the outcome depends on the three
/// texts alone.
#[verifier::external_body]
fn capture(pattern: &str, group: &str, haystack: &str) -> (r: Option<Option<String>>)
    ensures
        r.deep_view() == first_capture(pattern@, group@, haystack@),
{
    match regex::Regex::new(pattern) {
        Ok(re) => Some(
            re.captures(haystack).and_then(|c| c.name(group).map(|m| m.as_str().to_string())),
        ),
        Err(_) => None,
    }
}

/// The pattern of the address under which the boot service is announced: a
/// web address with a port, of which the host is wanted.
pub open spec fn announcement() -> Seq<char> {
    "http://(?P<ip>.*?):\\d+/"@
}

/// The tasks of a registration, in their order: the seed's store is
/// validated, the password is checked and taken off the record, the address
/// is put on record, the host key is signed, the certificate is issued, and
/// the administrator's key and the certificates of the authorities are read.
pub open spec fn register_tasks(
    home: Seq<char>,
    name: Seq<char>,
    otp: Seq<char>,
    ip: Seq<char>,
    ssh: Seq<char>,
    csr: Seq<char>,
    nonce: nat,
) -> Seq<TaskView> {
    let seed = joined(home, name);
    seq![TaskView::Ensure(seed)] + claim_tasks(joined(seed, "otp"@), otp) + seq![
        TaskView::Write(joined(seed, "ip"@), ip),
    ] + sign_ssh_tasks(seed, name, ssh, joined(home, "ca"@)) + sign_tls_tasks(
        seed,
        name,
        csr,
        joined(home, "machine.crt"@),
        joined(home, "machine.key"@),
        nonce,
    ) + seq![
        TaskView::ReadLossy(joined(home, "admin.pub"@)),
        TaskView::Read(joined(home, "root.crt"@)),
        TaskView::Read(joined(home, "machine.crt"@)),
    ]
}

/// What the service answers a seed that asks for its password: the address
/// of the service and the password.
pub open spec fn init_text(ip: Seq<char>, otp: Seq<char>) -> Seq<char> {
    "SOWER="@ + ip + "\nOTP="@ + otp + "\n"@
}

/// The service that takes seeds in.
#[derive(Debug, Clone, PartialEq, Eq)]
pub struct Sower {
    ip: String,
    images: Data,
    data: Data,
}

impl Sower {
    /// The address at which the service is reached, as text.
    pub closed spec fn address(self) -> Seq<char> {
        self.ip@
    }

    /// The path of the store of the images that seeds boot from.
    pub closed spec fn image_home(self) -> Seq<char> {
        self.images@
    }

    /// The path of the store that holds the seeds and the authority.
    pub closed spec fn home(self) -> Seq<char> {
        self.data@
    }

    /// The address at which the service is reached, as text.
    pub fn ip(&self) -> (r: &str)
        ensures
            r@ == self.address(),
    {
        self.ip.as_str()
    }

    /// The store of the images that seeds boot from.
    pub fn images(&self) -> (r: &Data)
        ensures
            r@ == self.image_home(),
    {
        &self.images
    }

    /// The service at the address `ip`, with its images in `image_dir` and
    /// the rest in `data_dir`. Nothing is looked at: the tasks of
    /// [`Sower::ensure`] see that both stores are there.
    pub fn new(ip: &str, image_dir: &str, data_dir: &str) -> (s: Sower)
        ensures
            s.address() == ip@,
            s.image_home() == image_dir@,
            s.home() == data_dir@,
    {
        Sower { ip: text(ip), images: Data::new(image_dir), data: Data::new(data_dir) }
    }

    /// The tasks that validate the two stores of the service.
    pub fn ensure(&self) -> (tasks: Vec<Task>)
        ensures
            tasks.deep_view() == seq![
                TaskView::Ensure(self.image_home()),
                TaskView::Ensure(self.home()),
            ],
    {
        let mut tasks: Vec<Task> = Vec::new();
        tasks.push(self.images.ensure());
        tasks.push(self.data.ensure());
        assert(tasks.deep_view() =~= seq![
            TaskView::Ensure(self.image_home()),
            TaskView::Ensure(self.home()),
        ]);
        tasks
    }

    /// The host of the first web address with a port that the settings
    /// `conf` of the boot service hold, or nothing where they hold none.
    pub fn parse_dnsmasq(conf: &str) -> (r: Option<String>)
        ensures
            r.deep_view() == match first_capture(announcement(), "ip"@, conf@) {
                Some(found) => found,
                None => None,
            },
    {
        match capture("http://(?P<ip>.*?):\\d+/", "ip", conf) {
            Some(found) => found,
            None => None,
        }
    }

    /// The address and port on which the service listens.
    pub fn binding(&self) -> (r: String)
        ensures
            r@ == self.address() + ":8000"@,
    {
        join(self.ip.as_str(), ":8000")
    }

    /// Begins taking in a seed that boots: a name is reserved for it, and
    /// the password `otp` is put on record under that name.
    pub fn ipxe_with(&self, otp: &str) -> (b: Boot)
        ensures
            b@ == BootView::Reserving(opening(self.home(), "seed"@), self.home(), otp@),
    {
        Boot::Reserving(self.data.reserve("seed"), self.data.copy(), text(otp))
    }

    /// Begins taking in a seed that boots, with a fresh password.
    pub fn ipxe(&self) -> (b: Boot)
        ensures
            exists|n: u128|
                b@ == BootView::Reserving(
                    opening(self.home(), "seed"@),
                    self.home(),
                    hex_of(n as nat),
                ),
    {
        let otp = random_pw();
        self.ipxe_with(otp.as_str())
    }

    /// The tasks that answer the seed `name` when it asks for its password:
    /// its store is validated and the password on record is read.
    pub fn init(&self, name: &str) -> (s: Script)
        ensures
            s@ == fresh(
                seq![
                    TaskView::Ensure(joined(self.home(), name@)),
                    TaskView::Read(joined(joined(self.home(), name@), "otp"@)),
                ],
            ),
    {
        let seed = Seed::new(&self.data, name);
        let mut tasks: Vec<Task> = Vec::new();
        tasks.push(seed.ensure());
        tasks.push(seed.otp());
        assert(tasks.deep_view() =~= seq![
            TaskView::Ensure(joined(self.home(), name@)),
            TaskView::Read(joined(joined(self.home(), name@), "otp"@)),
        ]);
        Script::new(tasks)
    }

    /// What the seed is answered once its password `otp` has been read.
    pub fn init_reply(&self, otp: &str) -> (r: String)
        ensures
            r@ == init_text(self.address(), otp@),
    {
        let mut s = join3("SOWER=", self.ip.as_str(), "\nOTP=");
        s.append(otp);
        s.append("\n");
        s
    }

    /// The registration of the seed `name` with what it handed in, where
    /// `nonce` tells the template file of this registration apart from
    /// others.
    pub fn register_with(&self, name: &str, reg: &Registration, nonce: u128) -> (s: Script)
        ensures
            s@ == fresh(
                register_tasks(self.home(), name@, reg.otp@, reg.ip@, reg.ssh@, reg.csr@, nonce as nat),
            ),
    {
        let seed = Seed::new(&self.data, name);
        let ca = self.data.file("ca");
        let issuer = self.data.file("machine.crt");
        let issuer_key = self.data.file("machine.key");
        let mut tasks: Vec<Task> = Vec::new();
        tasks.push(seed.ensure());
        assert(tasks.deep_view() =~= seq![TaskView::Ensure(joined(self.home(), name@))]);
        extend(&mut tasks, seed.check_otp(reg.otp.as_str()));
        let mut one: Vec<Task> = Vec::new();
        one.push(seed.write_ip(reg.ip.as_str()));
        assert(one.deep_view() =~= seq![
            TaskView::Write(joined(joined(self.home(), name@), "ip"@), reg.ip@),
        ]);
        extend(&mut tasks, one);
        extend(&mut tasks, seed.sign_ssh(reg.ssh.as_str(), ca.as_str()));
        extend(
            &mut tasks,
            seed.sign_tls(reg.csr.as_str(), issuer.as_str(), issuer_key.as_str(), nonce),
        );
        let mut last: Vec<Task> = Vec::new();
        last.push(crate::ssh::admin_key(self.data.file("admin.pub").as_str()));
        last.push(self.data.read("root.crt"));
        last.push(self.data.read("machine.crt"));
        assert(last.deep_view() =~= seq![
            TaskView::ReadLossy(joined(self.home(), "admin.pub"@)),
            TaskView::Read(joined(self.home(), "root.crt"@)),
            TaskView::Read(joined(self.home(), "machine.crt"@)),
        ]);
        extend(&mut tasks, last);
        Script::new(tasks)
    }

    /// The registration of the seed `name` with what it handed in. The
    /// template file of this registration is told apart by a fresh number.
    pub fn register(&self, name: &str, reg: &Registration) -> (s: Script)
        ensures
            exists|nonce: u128|
                s@ == fresh(
                    register_tasks(
                        self.home(),
                        name@,
                        reg.otp@,
                        reg.ip@,
                        reg.ssh@,
                        reg.csr@,
                        nonce as nat,
                    ),
                ),
    {
        let nonce = random_number();
        self.register_with(name, reg, nonce)
    }

    /// What the seed is given, from the five texts that a registration keeps
    /// when it finishes: the host certificate, the seed's certificate, the
    /// administrator's key, the root certificate and the issuer's
    /// certificate. `None` where the texts are not five.
    pub fn certs(texts: &Vec<String>) -> (r: Option<Certs>)
        ensures
            r is Some <==> texts@.len() == 5,
            r is Some ==> {
                &&& r->0.host@ == texts@[0]@
                &&& r->0.cert@ == texts@[1]@ + texts@[4]@
                &&& r->0.admin@ == authorized(texts@[2]@)
                &&& r->0.ca@ == texts@[3]@
            },
    {
        if texts.len() != 5 {
            return None;
        }
        Some(
            Certs::assemble(
                texts[2].as_str(),
                texts[0].as_str(),
                texts[3].as_str(),
                texts[1].as_str(),
                texts[4].as_str(),
            ),
        )
    }
}

/// The tasks that follow the reservation of the name `name` in the store
/// `home`: the seed's store is validated and the password is offered.
pub open spec fn offer_tasks(home: Seq<char>, name: Seq<char>, otp: Seq<char>) -> Seq<TaskView> {
    seq![
        TaskView::Ensure(joined(home, name)),
        TaskView::Offer(joined(joined(home, name), "otp"@), otp),
    ]
}

/// The taking in of a seed that boots.
pub enum Boot {
    /// A name is being reserved in the store, for the password held here.
    Reserving(Reservation, Data, String),
    /// The name is reserved and the password is being put on record.
    Offering(Script, Seed),
}

/// A [`Boot`] as the contracts see it.
pub enum BootView {
    Reserving(ReservationView, Seq<char>, Seq<char>),
    Offering(ScriptView, Seq<char>),
}

impl View for Boot {
    type V = BootView;

    open spec fn view(&self) -> BootView {
        match self {
            Boot::Reserving(r, home, otp) => BootView::Reserving(r@, home@, otp@),
            Boot::Offering(s, seed) => BootView::Offering(s@, seed.name()),
        }
    }
}

impl BootView {
    /// What is said at rest.
    pub open spec fn current(self) -> StepView {
        match self {
            BootView::Reserving(r, _, _) => r.current(),
            BootView::Offering(s, _) => current(s),
        }
    }

    /// The state after `reply` has come in for the request that was due, and
    /// what is said then. When the name is reserved, the tasks of
    /// [`offer_tasks`] begin.
    pub open spec fn resume(self, reply: ReplyView) -> (BootView, StepView) {
        match self {
            BootView::Reserving(r, home, otp) => {
                let (next, step) = r.resume(reply);
                if !r.done && !r.halted && step is Finished {
                    let script = fresh(offer_tasks(home, next.name(), otp));
                    (BootView::Offering(script, next.name()), current(script))
                } else {
                    (BootView::Reserving(next, home, otp), step)
                }
            },
            BootView::Offering(s, name) => {
                let (next, step) = resume(s, reply);
                (BootView::Offering(next, name), step)
            },
        }
    }

    /// What the seed is told to boot, once all is done.
    pub open spec fn descriptor(self) -> Option<Seq<char>> {
        match self {
            BootView::Offering(s, name) => if current(s) is Finished {
                Some(boot_script(name))
            } else {
                None
            },
            _ => None,
        }
    }
}

impl Boot {
    /// What is said as things stand.
    pub fn begin(&self) -> (r: Step)
        ensures
            r@ == self@.current(),
    {
        match self {
            Boot::Reserving(r, _, _) => r.begin(),
            Boot::Offering(s, _) => s.begin(),
        }
    }

    /// Takes the reply to the request that was due; gives the state after
    /// that, and how to go on.
    pub fn resume(self, reply: Reply) -> (r: (Boot, Step))
        ensures
            r.0@ == self@.resume(reply@).0,
            r.1@ == self@.resume(reply@).1,
    {
        match self {
            Boot::Reserving(r, home, otp) => {
                let fresh_start = match r.begin() {
                    Step::Ask(_) => true,
                    _ => false,
                };
                let (next, step) = r.resume(reply);
                let reserved = match step {
                    Step::Finished => fresh_start,
                    _ => false,
                };
                if reserved {
                    match next.name() {
                        Some(name) => {
                            let seed = Seed::new(&home, name.as_str());
                            let mut tasks: Vec<Task> = Vec::new();
                            tasks.push(seed.ensure());
                            tasks.push(seed.offer(otp.as_str()));
                            assert(tasks.deep_view() =~= offer_tasks(home@, name@, otp@));
                            let script = Script::new(tasks);
                            let first = script.begin();
                            (Boot::Offering(script, seed), first)
                        },
                        None => (Boot::Reserving(next, home, otp), step),
                    }
                } else {
                    (Boot::Reserving(next, home, otp), step)
                }
            },
            Boot::Offering(s, seed) => {
                let (next, step) = s.resume(reply);
                (Boot::Offering(next, seed), step)
            },
        }
    }

    /// What the seed is told to boot, once all is done.
    pub fn descriptor(&self) -> (r: Option<String>)
        ensures
            r is Some <==> self@.descriptor() is Some,
            r is Some ==> r->0@ == self@.descriptor()->0,
    {
        match self {
            Boot::Offering(s, seed) => if s.finished() {
                Some(seed.ipxe())
            } else {
                None
            },
            _ => None,
        }
    }
}

} // verus!
