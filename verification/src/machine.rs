//! Machines: an image brought up on a target, with an identity under a
//! field.
//!
//! What has to be done is laid out as tasks before the first of them is
//! begun, and every command goes through the one channel that was chosen when
//! the machine was resolved.

use crate::effect::{Command, CommandView, Input, InputView, Reply, ReplyView, Request, RequestView};
use crate::error::{Error, ErrorView};
use crate::field::{
    fields_home, images_home, is_latest, latest_position, ssh_home, Field, FieldView, Layout,
};
use crate::image::{archive_name, latest_of, lemma_latest_in_range, Image, ImageView, Latest};
use crate::script::{
    cause_of, current, extend, fresh, resume, Script, ScriptView, Step, StepView, Task, TaskView,
};
use crate::store::{joined, Data};
use crate::text::{join, join3, starts_with, text, trim, trimmed};
use crate::tls::{conf_name, key_command, machine_template, sign_ca_command};
use vstd::prelude::*;
use vstd::string::StringExecFns;

verus! {

/// A machine as the contracts see it.
pub struct MachineView {
    /// The name of the machine on its target.
    pub name: Seq<char>,
    /// The image that the machine is made from.
    pub image: ImageView,
    /// The field under which the machine gets its identity.
    pub field: FieldView,
    /// The host that the machine runs on; nothing for this host.
    pub seed: Option<Seq<char>>,
    /// The path of the store that holds what is known of the machine.
    pub data: Seq<char>,
    /// The operator's home directory.
    pub home: Seq<char>,
}

/// The image for a machine: the one asked for by name and version, else the
/// latest that bears the name.
pub open spec fn image_choice(
    image: Seq<char>,
    version: Option<Seq<char>>,
    images: Seq<ImageView>,
) -> Result<ImageView, ErrorView> {
    match version {
        Some(v) => Ok(ImageView { name: image, version: v }),
        None => match latest_of(images, image, images.len()) {
            Latest::At(p) => Ok(images[p]),
            Latest::Nothing => Err(
                ErrorView::DataError(
                    "No images found for '"@ + image + "'. Run 'sow import <path>'."@,
                ),
            ),
            Latest::Incomparable => Err(
                ErrorView::DataError("Versions of "@ + image + " cannot be compared"@),
            ),
        },
    }
}

/// The field for a machine: the one asked for by name, else the one that was
/// changed last, which is the one at [`latest_position`] where there is a
/// field at all.
pub open spec fn field_choice(field: Option<Seq<char>>, fields: Seq<FieldView>) -> Result<
    FieldView,
    ErrorView,
> {
    match field {
        Some(f) => Ok(FieldView { name: f, modified: 0 }),
        None => if fields.len() == 0 {
            Err(ErrorView::DataError("No Barley fields found. Run 'sow new <name>'."@))
        } else {
            Ok(fields[latest_position(fields)])
        },
    }
}

/// The machine that the operator's wishes come to. The target has to be
/// named unless this host is asked for, the image has to exist unless its
/// version is given, and so has a field unless one is named.
pub open spec fn resolved(
    image: Seq<char>,
    version: Option<Seq<char>>,
    field: Option<Seq<char>>,
    seed: Option<Seq<char>>,
    local: bool,
    images: Seq<ImageView>,
    fields: Seq<FieldView>,
    home: Seq<char>,
) -> Result<MachineView, ErrorView> {
    if !local && seed is None {
        Err(
            ErrorView::DataError(
                "Unable to pick a Seed for this machine, use --seed <host> or --local."@,
            ),
        )
    } else {
        match image_choice(image, version, images) {
            Err(e) => Err(e),
            Ok(chosen) => match field_choice(field, fields) {
                Err(e) => Err(e),
                Ok(under) => Ok(
                    MachineView {
                        name: chosen.name,
                        image: chosen,
                        field: under,
                        seed,
                        data: joined(joined(fields_home(home), under.name), chosen.name),
                        home,
                    },
                ),
            },
        }
    }
}

/// The command that runs `script` on the target: through a secure shell on
/// the host `seed`, or with the rights of the administrator on this host.
pub open spec fn channel(seed: Option<Seq<char>>, script: Seq<char>) -> CommandView {
    CommandView {
        argv: match seed {
            Some(host) => seq!["/usr/bin/ssh"@, host, script],
            None => seq!["/usr/bin/sudo"@, "/bin/sh"@, "-c"@, script],
        },
        env: None,
        input: InputView::Inherit,
        output: None,
    }
}

/// The script that runs `script` in the file system of the machine `name`
/// while the machine is down.
pub open spec fn nspawn_script(name: Seq<char>, script: Seq<char>) -> Seq<char> {
    "systemd-nspawn -M "@ + name + " -UPq sh -c '"@ + script + "'"@
}

/// The script that runs `script` inside the running machine `name`.
pub open spec fn run_script(name: Seq<char>, script: Seq<char>) -> Seq<char> {
    "systemd-run -M "@ + name + " -Pq --wait sh -c '"@ + script + "'"@
}

/// The script that takes its input to the file `to` of the machine's trust
/// directory, with the access rights `mode`.
pub open spec fn install_script(to: Seq<char>, mode: Seq<char>) -> Seq<char> {
    "install -m "@ + mode + " -o barley -g barley /dev/null /var/lib/barley/"@ + to
        + " && cat > /var/lib/barley/"@ + to
}

/// The task that takes the file `from` to the file `to` of the trust
/// directory of the machine, with the access rights `mode`.
pub open spec fn install_task(m: MachineView, from: Seq<char>, to: Seq<char>, mode: Seq<char>) -> TaskView {
    TaskView::Shell(
        CommandView {
            input: InputView::File(from),
            ..channel(m.seed, nspawn_script(m.name, install_script(to, mode)))
        },
    )
}

/// The task that fetches the file `name` of the machine's trust directory
/// into the machine's store.
pub open spec fn download_task(m: MachineView, name: Seq<char>) -> TaskView {
    TaskView::Shell(
        CommandView {
            output: Some(joined(m.data, name)),
            ..channel(m.seed, run_script(m.name, "cat /var/lib/barley/"@ + name))
        },
    )
}

/// The file that says whether the bridge is up.
pub open spec fn bridge_state() -> Seq<char> {
    "/sys/class/net/br0/operstate"@
}

/// The check of the network before anything is changed: a machine on this
/// host with the default network needs the bridge to be up.
pub open spec fn check_network_tasks(m: MachineView, network: Option<Seq<Seq<char>>>) -> Seq<
    TaskView,
> {
    if m.seed is None && network is None {
        seq![TaskView::Require(bridge_state(), "up"@, "Bridge br0 is down."@)]
    } else {
        Seq::empty()
    }
}

/// The task that unpacks the image on the target under the machine's name.
pub open spec fn import_task(m: MachineView) -> TaskView {
    TaskView::Shell(
        CommandView {
            input: InputView::File(joined(images_home(m.home), archive_name(m.image))),
            ..channel(m.seed, "zstdcat | machinectl -q import-tar - "@ + m.name)
        },
    )
}

/// The tasks that give the machine its identity: a fresh key, its
/// certificate under the root authority of the field, and four files in the
/// machine's trust directory, the key for its owner alone.
pub open spec fn install_ca_tasks(m: MachineView, nonce: nat) -> Seq<TaskView> {
    let key = joined(m.data, "machine.key"@);
    let cert = joined(m.data, "machine.crt"@);
    let conf = joined(m.data, conf_name(nonce));
    let dir = joined(fields_home(m.home), m.field.name);
    let cacert = joined(dir, "root.crt"@);
    let cakey = joined(dir, "root.key"@);
    let admin = joined(dir, "admin.pub"@);
    seq![
        TaskView::Sign(key_command(key)),
        TaskView::Certify(
            conf,
            machine_template(m.name),
            sign_ca_command(conf, cacert, cakey, key, cert),
        ),
        install_task(m, key, "machine.key"@, "600"@),
        install_task(m, cert, "machine.crt"@, "644"@),
        install_task(m, cacert, "root.crt"@, "644"@),
        install_task(m, admin, "admin.pub"@, "644"@),
    ]
}

/// The lines `lines`, each with the end of a line behind it.
pub open spec fn lines_text(lines: Seq<Seq<char>>) -> Seq<char>
    decreases lines.len(),
{
    if lines.len() == 0 {
        Seq::empty()
    } else {
        lines_text(lines.drop_last()) + lines.last() + "\n"@
    }
}

/// The network section of the machine's settings: the lines given, or the
/// shared bridge where none are.
pub open spec fn network_config(network: Option<Seq<Seq<char>>>) -> Seq<char> {
    "[Network]\n"@ + match network {
        Some(lines) => lines_text(lines),
        None => "Bridge=br0\n"@,
    }
}

/// The task that writes the machine's settings on the target.
pub open spec fn write_config_task(m: MachineView, network: Option<Seq<Seq<char>>>) -> TaskView {
    TaskView::Shell(
        CommandView {
            input: InputView::Text(network_config(network)),
            ..channel(
                m.seed,
                "mkdir -p /etc/systemd/nspawn && cat > /etc/systemd/nspawn/"@ + m.name
                    + ".nspawn"@,
            )
        },
    )
}

/// The task that starts the machine.
pub open spec fn start_task(m: MachineView) -> TaskView {
    TaskView::Shell(channel(m.seed, "machinectl start "@ + m.name))
}

/// The tasks that wait for the machine: first until it is said to run, then
/// until a command can be run in it.
pub open spec fn wait_tasks(m: MachineView) -> Seq<TaskView> {
    seq![
        TaskView::Await(
            channel(
                m.seed,
                "machinectl show --property=State --value "@ + m.name + " | grep -q running"@,
            ),
        ),
        TaskView::Await(channel(m.seed, "systemd-run -M "@ + m.name + " -Pq --wait true"@)),
    ]
}

/// The tasks that fetch the public key of the machine's authority for host
/// keys and read it.
pub open spec fn get_ssh_ca_tasks(m: MachineView) -> Seq<TaskView> {
    seq![download_task(m, "ca.pub"@), TaskView::Read(joined(m.data, "ca.pub"@))]
}

/// Everything that brings the machine up, in its order: the check of the
/// network, the machine's store, the image, the identity if one is asked
/// for, the settings, the start, and with an identity the wait for the
/// machine and the fetching of its authority's key.
pub open spec fn start_tasks(
    m: MachineView,
    ca: bool,
    network: Option<Seq<Seq<char>>>,
    nonce: nat,
) -> Seq<TaskView> {
    check_network_tasks(m, network) + seq![TaskView::Ensure(m.data), import_task(m)] + (if ca {
        install_ca_tasks(m, nonce)
    } else {
        Seq::empty()
    }) + seq![write_config_task(m, network), start_task(m)] + (if ca {
        wait_tasks(m) + get_ssh_ca_tasks(m)
    } else {
        Seq::empty()
    })
}

/// Whether a task that runs a command on the target does so through the
/// channel to `seed`. Tasks that run nothing there pass.
pub open spec fn through(seed: Option<Seq<char>>, task: TaskView) -> bool {
    match task {
        TaskView::Shell(c) => c.argv.len() > 0 && c.argv == channel(seed, c.argv.last()).argv,
        TaskView::Await(c) => c.argv.len() > 0 && c.argv == channel(seed, c.argv.last()).argv,
        _ => true,
    }
}

/// The channel is chosen once: every command that the bringing up of a
/// machine runs on the target goes through the channel of the machine, and
/// where the bridge has to be up, that is seen to before anything else.
pub proof fn lemma_one_channel(
    m: MachineView,
    ca: bool,
    network: Option<Seq<Seq<char>>>,
    nonce: nat,
    k: int,
)
    requires
        0 <= k < start_tasks(m, ca, network, nonce).len(),
    ensures
        through(m.seed, start_tasks(m, ca, network, nonce)[k]),
        m.seed is None && network is None ==> start_tasks(m, ca, network, nonce)[0]
            == TaskView::Require(bridge_state(), "up"@, "Bridge br0 is down."@),
{
    let head = check_network_tasks(m, network);
    let base = seq![TaskView::Ensure(m.data), import_task(m)];
    let identity = if ca {
        install_ca_tasks(m, nonce)
    } else {
        Seq::<TaskView>::empty()
    };
    let go = seq![write_config_task(m, network), start_task(m)];
    let after = if ca {
        wait_tasks(m) + get_ssh_ca_tasks(m)
    } else {
        Seq::<TaskView>::empty()
    };
    let all = start_tasks(m, ca, network, nonce);
    assert(all == head + base + identity + go + after);
    assert forall|x: Seq<char>| #![trigger channel(m.seed, x)] channel(m.seed, x).argv.len() > 0
        && channel(m.seed, x).argv.last() == x by {}
    assert forall|i: int| 0 <= i < head.len() implies through(m.seed, #[trigger] head[i]) by {}
    assert forall|i: int| 0 <= i < base.len() implies through(m.seed, #[trigger] base[i]) by {}
    assert forall|i: int| 0 <= i < identity.len() implies through(m.seed, #[trigger] identity[i]) by {}
    assert forall|i: int| 0 <= i < go.len() implies through(m.seed, #[trigger] go[i]) by {}
    assert forall|i: int| 0 <= i < after.len() implies through(m.seed, #[trigger] after[i]) by {
        if ca {
            if i < 2 {
                assert(after[i] == wait_tasks(m)[i]);
            } else {
                assert(after[i] == get_ssh_ca_tasks(m)[i - 2]);
            }
        }
    }
    let a = head.len();
    let b = a + base.len();
    let c = b + identity.len();
    let d = c + go.len();
    if k < a {
        assert(all[k] == head[k]);
    } else if k < b {
        assert(all[k] == base[k - a]);
    } else if k < c {
        assert(all[k] == identity[k - b]);
    } else if k < d {
        assert(all[k] == go[k - c]);
    } else {
        assert(all[k] == after[k - d]);
    }
    if m.seed is None && network is None {
        assert(all[0] == head[0]);
    }
}

/// The line that makes the operator trust the hosts that the authority `key`
/// vouches for, marked with the version of the image; an error where `key`
/// is no key of the kind expected.
pub open spec fn pin_line(key: Seq<char>, version: Seq<char>) -> Result<Seq<char>, ErrorView> {
    if "ssh-ed25519 "@.is_prefix_of(key) {
        Ok("@cert-authority * "@ + trimmed(key) + "-"@ + version + "\n"@)
    } else {
        Err(ErrorView::IoError("Invalid key: "@ + key))
    }
}

/// A machine that is to be brought up.
#[derive(Debug, Clone, PartialEq, Eq)]
pub struct Machine {
    name: String,
    image: Image,
    field: Field,
    seed: Option<String>,
    data: Data,
    layout: Layout,
}

impl View for Machine {
    type V = MachineView;

    closed spec fn view(&self) -> MachineView {
        MachineView {
            name: self.name@,
            image: self.image@,
            field: self.field@,
            seed: self.seed.deep_view(),
            data: self.data@,
            home: self.layout@,
        }
    }
}

/// A copy of a list of lines.
fn copy_lines(network: &Option<Vec<String>>) -> (r: Option<Vec<String>>)
    ensures
        r.deep_view() == network.deep_view(),
{
    match network {
        Some(lines) => Some(crate::effect::copy_strings(lines)),
        None => None,
    }
}

impl Machine {
    /// Resolves what the operator asked for: the image `image` in the
    /// version `version` or else in its latest among `images`, under the
    /// field `field` or else the one of `fields` that was changed last, on
    /// the host `seed` or, if `local` is set, on this one.
    pub fn new(
        image: String,
        version: Option<String>,
        field: Option<String>,
        seed: Option<String>,
        local: bool,
        images: &Vec<Image>,
        fields: &Vec<Field>,
        layout: &Layout,
    ) -> (r: Result<Machine, Error>)
        ensures
            match resolved(
                image@,
                version.deep_view(),
                field.deep_view(),
                seed.deep_view(),
                local,
                images.deep_view(),
                fields.deep_view(),
                layout@,
            ) {
                Ok(m) => r is Ok && r->Ok_0@ == m,
                Err(e) => r is Err && r->Err_0@ == e,
            },
            r is Ok && field is None ==> is_latest(
                fields.deep_view(),
                latest_position(fields.deep_view()),
            ) && r->Ok_0@.field == fields.deep_view()[latest_position(fields.deep_view())],
    {
        if !local && seed.is_none() {
            return Err(
                Error::DataError(
                    text("Unable to pick a Seed for this machine, use --seed <host> or --local."),
                ),
            );
        }
        let chosen = match version {
            Some(v) => Image { name: image, version: v },
            None => match Image::latest(images, image.as_str()) {
                Ok(Some(found)) => {
                    proof {
                        let all = images.deep_view();
                        lemma_latest_in_range(all, image@, images@.len());
                        let p = latest_of(all, image@, images@.len())->At_0;
                        assert(all[p] == images@[p]@);
                    }
                    found
                },
                Ok(None) => {
                    return Err(
                        Error::DataError(
                            join3(
                                "No images found for '",
                                image.as_str(),
                                "'. Run 'sow import <path>'.",
                            ),
                        ),
                    );
                },
                Err(e) => {
                    return Err(e);
                },
            },
        };
        let under = match field {
            Some(f) => Field { name: f, modified: 0 },
            None => match Field::latest(fields) {
                Some(found) => found,
                None => {
                    return Err(
                        Error::DataError(text("No Barley fields found. Run 'sow new <name>'.")),
                    );
                },
            },
        };
        let name = chosen.name.clone();
        let home = layout.fields_home();
        let data = Data::new(under.file(&home, name.as_str()).as_str());
        Ok(Machine { name, image: chosen, field: under, seed, data, layout: layout.copy() })
    }

    /// The command that runs `script` on the machine's target.
    pub fn command(&self, script: &str) -> (c: Command)
        ensures
            c@ == channel(self@.seed, script@),
    {
        match &self.seed {
            Some(host) => {
                let c = Command::new("/usr/bin/ssh").arg(host.as_str()).arg(script);
                assert(c@.argv =~= channel(self@.seed, script@).argv);
                c
            },
            None => {
                let c = Command::new("/usr/bin/sudo").arg("/bin/sh").arg("-c").arg(script);
                assert(c@.argv =~= channel(self@.seed, script@).argv);
                c
            },
        }
    }

    /// The command that runs `script` in the machine's file system while the
    /// machine is down.
    pub fn nspawn(&self, script: &str) -> (c: Command)
        ensures
            c@ == channel(self@.seed, nspawn_script(self@.name, script@)),
    {
        let mut s = join3("systemd-nspawn -M ", self.name.as_str(), " -UPq sh -c '");
        s.append(script);
        s.append("'");
        self.command(s.as_str())
    }

    /// The command that runs `script` inside the running machine.
    pub fn run(&self, script: &str) -> (c: Command)
        ensures
            c@ == channel(self@.seed, run_script(self@.name, script@)),
    {
        let mut s = join3("systemd-run -M ", self.name.as_str(), " -Pq --wait sh -c '");
        s.append(script);
        s.append("'");
        self.command(s.as_str())
    }

    /// The task that takes the file `from` to the file `to` of the machine's
    /// trust directory, with the access rights `mode`.
    pub fn install(&self, from: &str, to: &str, mode: &str) -> (t: Task)
        ensures
            t@ == install_task(self@, from@, to@, mode@),
    {
        let mut s = join3("install -m ", mode, " -o barley -g barley /dev/null /var/lib/barley/");
        s.append(to);
        s.append(" && cat > /var/lib/barley/");
        s.append(to);
        Task::Shell(self.nspawn(s.as_str()).input(Input::File(text(from))))
    }

    /// The task that fetches the file `name` of the machine's trust
    /// directory into the machine's store.
    pub fn download(&self, name: &str) -> (t: Task)
        ensures
            t@ == download_task(self@, name@),
    {
        let s = join("cat /var/lib/barley/", name);
        let to = self.data.file(name);
        Task::Shell(self.run(s.as_str()).output(to.as_str()))
    }

    /// The check of the network that comes before anything is changed.
    pub fn check_network(&self, network: &Option<Vec<String>>) -> (tasks: Vec<Task>)
        ensures
            tasks.deep_view() == check_network_tasks(self@, network.deep_view()),
    {
        let mut tasks: Vec<Task> = Vec::new();
        if self.seed.is_none() && network.is_none() {
            tasks.push(
                Task::Require(
                    text("/sys/class/net/br0/operstate"),
                    text("up"),
                    text("Bridge br0 is down."),
                ),
            );
        }
        assert(tasks.deep_view() =~= check_network_tasks(self@, network.deep_view()));
        tasks
    }

    /// The task that unpacks the image on the target under the machine's
    /// name.
    pub fn import(&self) -> (t: Task)
        ensures
            t@ == import_task(self@),
    {
        let s = join("zstdcat | machinectl -q import-tar - ", self.name.as_str());
        let archive = self.image.path(&self.layout.images_home());
        Task::Shell(self.command(s.as_str()).input(Input::File(archive)))
    }

    /// The tasks that give the machine its identity. The number `nonce`
    /// tells the template file apart from others.
    pub fn install_ca(&self, nonce: u128) -> (tasks: Vec<Task>)
        ensures
            tasks.deep_view() == install_ca_tasks(self@, nonce as nat),
    {
        let key = self.data.file("machine.key");
        let cert = self.data.file("machine.crt");
        let conf = crate::tls::conf_path(&self.data, nonce);
        let home = self.layout.fields_home();
        let cacert = self.field.cacert(&home);
        let cakey = self.field.cakey(&home);
        let admin = self.field.admin(&home);
        let mut tasks: Vec<Task> = Vec::new();
        tasks.push(crate::tls::generate(key.as_str()));
        tasks.push(
            crate::tls::sign_ca(
                self.name.as_str(),
                cacert.as_str(),
                cakey.as_str(),
                key.as_str(),
                cert.as_str(),
                conf.as_str(),
            ),
        );
        tasks.push(self.install(key.as_str(), "machine.key", "600"));
        tasks.push(self.install(cert.as_str(), "machine.crt", "644"));
        tasks.push(self.install(cacert.as_str(), "root.crt", "644"));
        tasks.push(self.install(admin.as_str(), "admin.pub", "644"));
        assert(tasks.deep_view() =~= install_ca_tasks(self@, nonce as nat));
        tasks
    }

    /// The network section of the machine's settings.
    pub fn network(network: &Option<Vec<String>>) -> (r: String)
        ensures
            r@ == network_config(network.deep_view()),
    {
        let mut s = text("[Network]\n");
        match network {
            Some(lines) => {
                let ghost all = lines.deep_view();
                let mut body = String::new();
                let mut i: usize = 0;
                assert(all.take(0) =~= Seq::<Seq<char>>::empty());
                while i < lines.len()
                    invariant
                        i <= lines@.len(),
                        all == lines.deep_view(),
                        body@ == lines_text(all.take(i as int)),
                    decreases lines@.len() - i,
                {
                    assert(all.take(i + 1).drop_last() =~= all.take(i as int));
                    assert(all.take(i + 1).last() == lines@[i as int]@);
                    body.append(lines[i].as_str());
                    body.append("\n");
                    i = i + 1;
                }
                assert(all.take(lines@.len() as int) =~= all);
                s.append(body.as_str());
            },
            None => {
                s.append("Bridge=br0\n");
            },
        }
        s
    }

    /// The task that writes the machine's settings on the target.
    pub fn write_config(&self, network: &Option<Vec<String>>) -> (t: Task)
        ensures
            t@ == write_config_task(self@, network.deep_view()),
    {
        let s = join3(
            "mkdir -p /etc/systemd/nspawn && cat > /etc/systemd/nspawn/",
            self.name.as_str(),
            ".nspawn",
        );
        Task::Shell(self.command(s.as_str()).input(Input::Text(Self::network(network))))
    }

    /// The task that waits until `test` succeeds on the target.
    pub fn wait_for(&self, test: &str) -> (t: Task)
        ensures
            t@ == TaskView::Await(channel(self@.seed, test@)),
    {
        Task::Await(self.command(test))
    }

    /// The tasks that wait for the machine: until it is said to run, and
    /// until a command can be run in it.
    pub fn wait_for_machine(&self) -> (tasks: Vec<Task>)
        ensures
            tasks.deep_view() == wait_tasks(self@),
    {
        let running = join3(
            "machinectl show --property=State --value ",
            self.name.as_str(),
            " | grep -q running",
        );
        let usable = join3("systemd-run -M ", self.name.as_str(), " -Pq --wait true");
        let mut tasks: Vec<Task> = Vec::new();
        tasks.push(self.wait_for(running.as_str()));
        tasks.push(self.wait_for(usable.as_str()));
        assert(tasks.deep_view() =~= wait_tasks(self@));
        tasks
    }

    /// The tasks that fetch the public key of the machine's authority for
    /// host keys and read it.
    pub fn get_ssh_ca(&self) -> (tasks: Vec<Task>)
        ensures
            tasks.deep_view() == get_ssh_ca_tasks(self@),
    {
        let mut tasks: Vec<Task> = Vec::new();
        tasks.push(self.download("ca.pub"));
        tasks.push(self.data.read("ca.pub"));
        assert(tasks.deep_view() =~= get_ssh_ca_tasks(self@));
        tasks
    }

    /// The task that makes the operator trust the hosts that the authority
    /// `key` vouches for; an error where `key` is no key of the kind
    /// expected.
    pub fn update_known_hosts(&self, key: &str) -> (r: Result<Task, Error>)
        ensures
            match pin_line(key@, self@.image.version) {
                Ok(line) => r is Ok && r->Ok_0@ == TaskView::Append(
                    joined(ssh_home(self@.home), "known_hosts"@),
                    line,
                ),
                Err(e) => r is Err && r->Err_0@ == e,
            },
    {
        if !starts_with(key, "ssh-ed25519 ") {
            return Err(Error::IoError(join("Invalid key: ", key)));
        }
        let bare = trim(key);
        let mut line = join3("@cert-authority * ", bare.as_str(), "-");
        line.append(self.image.version.as_str());
        line.append("\n");
        Ok(Task::Append(self.layout.home_ssh().file("known_hosts"), line))
    }

    /// Everything that brings the machine up, with an identity if `ca` is
    /// set and with the network lines `network` or else the shared bridge.
    /// The number `nonce` tells the template file apart from others.
    pub fn plan(&self, ca: bool, network: &Option<Vec<String>>, nonce: u128) -> (tasks: Vec<Task>)
        ensures
            tasks.deep_view() == start_tasks(self@, ca, network.deep_view(), nonce as nat),
    {
        let mut tasks = self.check_network(network);
        let mut base: Vec<Task> = Vec::new();
        base.push(self.data.ensure());
        base.push(self.import());
        assert(base.deep_view() =~= seq![TaskView::Ensure(self@.data), import_task(self@)]);
        extend(&mut tasks, base);
        let identity = if ca {
            self.install_ca(nonce)
        } else {
            Vec::new()
        };
        assert(!ca ==> identity.deep_view() =~= Seq::<TaskView>::empty());
        extend(&mut tasks, identity);
        let mut go: Vec<Task> = Vec::new();
        go.push(self.write_config(network));
        go.push(Task::Shell(self.command(join("machinectl start ", self.name.as_str()).as_str())));
        assert(go.deep_view() =~= seq![
            write_config_task(self@, network.deep_view()),
            start_task(self@),
        ]);
        extend(&mut tasks, go);
        let mut after: Vec<Task> = Vec::new();
        if ca {
            extend(&mut after, self.wait_for_machine());
            extend(&mut after, self.get_ssh_ca());
        }
        assert(after.deep_view() =~= if ca {
            wait_tasks(self@) + get_ssh_ca_tasks(self@)
        } else {
            Seq::<TaskView>::empty()
        });
        extend(&mut tasks, after);
        tasks
    }

    /// Begins to bring the machine up, where `nonce` tells the template file
    /// apart from others.
    pub fn start_with(&self, ca: bool, network: &Option<Vec<String>>, nonce: u128) -> (p:
        Provisioning)
        ensures
            p@ == ProvisioningView::Running(
                fresh(start_tasks(self@, ca, network.deep_view(), nonce as nat)),
                if ca {
                    Some(
                        (joined(ssh_home(self@.home), "known_hosts"@), self@.image.version),
                    )
                } else {
                    None
                },
            ),
    {
        let script = Script::new(self.plan(ca, network, nonce));
        let pin = if ca {
            Some((self.layout.home_ssh().file("known_hosts"), self.image.version.clone()))
        } else {
            None
        };
        Provisioning::Running(script, pin)
    }

    /// Begins to bring the machine up, with an identity if `ca` is set and
    /// with the network lines `network` or else the shared bridge.
    pub fn start(&self, ca: bool, network: &Option<Vec<String>>) -> (p: Provisioning)
        ensures
            exists|nonce: u128|
                p@ == ProvisioningView::Running(
                    fresh(start_tasks(self@, ca, network.deep_view(), nonce as nat)),
                    if ca {
                        Some(
                            (joined(ssh_home(self@.home), "known_hosts"@), self@.image.version),
                        )
                    } else {
                        None
                    },
                ),
    {
        let nonce = crate::seed::random_number();
        self.start_with(ca, network, nonce)
    }
}

/// The bringing up of a machine.
pub enum Provisioning {
    /// The tasks are being carried out. With an identity, the path of the
    /// file of known hosts and the version of the image are held for the
    /// last step.
    Running(Script, Option<(String, String)>),
    /// The line that pins the machine's authority is being added to the
    /// file at the path.
    Pinning(String, String),
    /// The machine is up.
    Done,
    /// A step has failed.
    Halted,
}

/// A [`Provisioning`] as the contracts see it.
pub enum ProvisioningView {
    Running(ScriptView, Option<(Seq<char>, Seq<char>)>),
    Pinning(Seq<char>, Seq<char>),
    Done,
    Halted,
}

impl View for Provisioning {
    type V = ProvisioningView;

    open spec fn view(&self) -> ProvisioningView {
        match self {
            Provisioning::Running(s, pin) => ProvisioningView::Running(s@, pin.deep_view()),
            Provisioning::Pinning(path, line) => ProvisioningView::Pinning(path@, line@),
            Provisioning::Done => ProvisioningView::Done,
            Provisioning::Halted => ProvisioningView::Halted,
        }
    }
}

/// The text that was kept last, or none.
pub open spec fn last_text(texts: Seq<Seq<char>>) -> Seq<char> {
    if texts.len() == 0 {
        Seq::empty()
    } else {
        texts.last()
    }
}

impl ProvisioningView {
    /// What is said at rest.
    pub open spec fn current(self) -> StepView {
        match self {
            ProvisioningView::Running(s, _) => current(s),
            ProvisioningView::Pinning(path, line) => StepView::Ask(RequestView::Append(path, line)),
            ProvisioningView::Done => StepView::Finished,
            ProvisioningView::Halted => StepView::Failed(
                ErrorView::IoError("no request is outstanding"@),
            ),
        }
    }

    /// The state after `reply` has come in for the request that was due, and
    /// what is said then. When the tasks are finished and an identity was
    /// asked for, the key that was read last is pinned; a key of another
    /// kind is an error.
    pub open spec fn resume(self, reply: ReplyView) -> (ProvisioningView, StepView) {
        match self {
            ProvisioningView::Running(s, pin) => {
                let (next, step) = resume(s, reply);
                match step {
                    StepView::Finished => match pin {
                        None => (ProvisioningView::Done, StepView::Finished),
                        Some((path, version)) => match pin_line(last_text(next.texts), version) {
                            Ok(line) => (
                                ProvisioningView::Pinning(path, line),
                                StepView::Ask(RequestView::Append(path, line)),
                            ),
                            Err(e) => (ProvisioningView::Halted, StepView::Failed(e)),
                        },
                    },
                    StepView::Failed(e) => (ProvisioningView::Halted, StepView::Failed(e)),
                    StepView::Ask(r) => (ProvisioningView::Running(next, pin), StepView::Ask(r)),
                }
            },
            ProvisioningView::Pinning(_, _) => match reply {
                ReplyView::Done => (ProvisioningView::Done, StepView::Finished),
                _ => (
                    ProvisioningView::Halted,
                    StepView::Failed(ErrorView::IoError(cause_of(reply))),
                ),
            },
            _ => (self, self.current()),
        }
    }
}

impl Provisioning {
    /// What is said as things stand.
    pub fn begin(&self) -> (r: Step)
        ensures
            r@ == self@.current(),
    {
        match self {
            Provisioning::Running(s, _) => s.begin(),
            Provisioning::Pinning(path, line) => Step::Ask(
                Request::Append(path.clone(), line.clone()),
            ),
            Provisioning::Done => Step::Finished,
            Provisioning::Halted => Step::Failed(
                Error::IoError(text("no request is outstanding")),
            ),
        }
    }

    /// Takes the reply to the request that was due; gives the state after
    /// that, and how to go on.
    pub fn resume(self, reply: Reply) -> (r: (Provisioning, Step))
        ensures
            r.0@ == self@.resume(reply@).0,
            r.1@ == self@.resume(reply@).1,
    {
        match self {
            Provisioning::Running(s, pin) => {
                let (next, step) = s.resume(reply);
                match step {
                    Step::Finished => match pin {
                        None => (Provisioning::Done, Step::Finished),
                        Some((path, version)) => {
                            let texts = next.texts();
                            let key = if texts.len() == 0 {
                                String::new()
                            } else {
                                texts[texts.len() - 1].clone()
                            };
                            assert(key@ == last_text(next@.texts));
                            if !starts_with(key.as_str(), "ssh-ed25519 ") {
                                let e = Error::IoError(join("Invalid key: ", key.as_str()));
                                (Provisioning::Halted, Step::Failed(e))
                            } else {
                                let bare = trim(key.as_str());
                                let mut line = join3("@cert-authority * ", bare.as_str(), "-");
                                line.append(version.as_str());
                                line.append("\n");
                                let ask = Step::Ask(Request::Append(path.clone(), line.clone()));
                                (Provisioning::Pinning(path, line), ask)
                            }
                        },
                    },
                    Step::Failed(e) => (Provisioning::Halted, Step::Failed(e)),
                    Step::Ask(r) => (Provisioning::Running(next, pin), Step::Ask(r)),
                }
            },
            Provisioning::Pinning(path, line) => match reply {
                Reply::Done => (Provisioning::Done, Step::Finished),
                Reply::Failed(c) => (Provisioning::Halted, Step::Failed(Error::IoError(c))),
                _ => (
                    Provisioning::Halted,
                    Step::Failed(Error::IoError(text("unexpected reply"))),
                ),
            },
            Provisioning::Done => (Provisioning::Done, Step::Finished),
            Provisioning::Halted => (
                Provisioning::Halted,
                Step::Failed(Error::IoError(text("no request is outstanding"))),
            ),
        }
    }
}

} // verus!
