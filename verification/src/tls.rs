//! Keys and certificates for transport security, made and signed by the
//! certificate tool.

use crate::effect::{Command, CommandView, InputView};
use crate::script::{Task, TaskView};
use crate::store::{joined, Data};
use crate::text::{decimal, decimal_of, join3, text};
use vstd::prelude::*;

verus! {

/// The certificate tool.
pub open spec fn certtool() -> Seq<char> {
    "/usr/bin/certtool"@
}

/// The template of the self-signed root certificate of `id`: an authority
/// that may sign certificates and revocation lists.
pub open spec fn root_template(id: Seq<char>) -> Seq<char> {
    "dn=cn="@ + id + "\nexpiration_days=1825\nca\ncert_signing_key\ncrl_signing_key"@
}

/// The template of the certificate of a machine `id`: an authority under the
/// root that may sign, and may serve and be served.
pub open spec fn machine_template(id: Seq<char>) -> Seq<char> {
    "dn=cn="@ + id
        + "\nexpiration_days=365\nca\ncert_signing_key\ncrl_signing_key\nsigning_key\ntls_www_client\ntls_www_server"@
}

/// The template of the certificate of a node `id`: no authority, it may sign,
/// serve and be served.
pub open spec fn leaf_template(id: Seq<char>) -> Seq<char> {
    "dn=cn="@ + id + "\nexpiration_days=365\nsigning_key\ntls_www_client\ntls_www_server\npath_len=2"@
}

/// The name of the template file that bears the number `nonce`.
pub open spec fn conf_name(nonce: nat) -> Seq<char> {
    "ca-"@ + decimal_of(nonce) + ".conf"@
}

/// The path of a template file in the store `dir`, told apart from others by
/// the number `nonce`.
pub fn conf_path(dir: &Data, nonce: u128) -> (r: String)
    ensures
        r@ == joined(dir@, conf_name(nonce as nat)),
{
    let n = decimal(nonce);
    let name = join3("ca-", n.as_str(), ".conf");
    dir.file(name.as_str())
}

/// The command that makes a private key protected by the password `pw`.
pub open spec fn root_key_command(pw: Seq<char>, key: Seq<char>) -> CommandView {
    CommandView {
        argv: seq![
            certtool(),
            "--generate-privkey"@,
            "--key-type"@,
            "ed25519"@,
            "--pkcs-cipher"@,
            "aes-256"@,
            "--password"@,
            pw,
            "--outfile"@,
            key,
        ],
        env: None,
        input: InputView::Inherit,
        output: None,
    }
}

/// The command that signs a certificate with its own key, which the password
/// `pw` opens.
pub open spec fn self_sign_command(
    pw: Seq<char>,
    conf: Seq<char>,
    key: Seq<char>,
    cert: Seq<char>,
) -> CommandView {
    CommandView {
        argv: seq![
            certtool(),
            "--generate-self-signed"@,
            "--template"@,
            conf,
            "--load-privkey"@,
            key,
            "--outfile"@,
            cert,
        ],
        env: Some(("GNUTLS_PIN"@, pw)),
        input: InputView::Inherit,
        output: None,
    }
}

/// The tasks that make the root authority of `id`: a private key in the file
/// `key`, protected by the password `pw`, and its self-signed certificate in
/// the file `cert`. The template lies in the file `conf` while the tool runs.
pub fn generate_root(id: &str, key: &str, cert: &str, conf: &str, pw: &str) -> (tasks: Vec<Task>)
    ensures
        tasks.deep_view() == seq![
            TaskView::Sign(root_key_command(pw@, key@)),
            TaskView::Certify(conf@, root_template(id@), self_sign_command(pw@, conf@, key@, cert@)),
        ],
{
    let make = Command::new("/usr/bin/certtool").arg("--generate-privkey").arg("--key-type").arg(
        "ed25519",
    ).arg("--pkcs-cipher").arg("aes-256").arg("--password").arg(pw).arg("--outfile").arg(key);
    assert(make@.argv =~= root_key_command(pw@, key@).argv);
    let sign = Command::new("/usr/bin/certtool").arg("--generate-self-signed").arg("--template").arg(
        conf,
    ).arg("--load-privkey").arg(key).arg("--outfile").arg(cert).env("GNUTLS_PIN", pw);
    assert(sign@.argv =~= self_sign_command(pw@, conf@, key@, cert@).argv);
    let template = join3(
        "dn=cn=",
        id,
        "\nexpiration_days=1825\nca\ncert_signing_key\ncrl_signing_key",
    );
    let mut tasks: Vec<Task> = Vec::new();
    tasks.push(Task::Sign(make));
    tasks.push(Task::Certify(text(conf), template, sign));
    assert(tasks.deep_view() =~= seq![
        TaskView::Sign(root_key_command(pw@, key@)),
        TaskView::Certify(conf@, root_template(id@), self_sign_command(pw@, conf@, key@, cert@)),
    ]);
    tasks
}

/// The command that makes a private key without a password.
pub open spec fn key_command(key: Seq<char>) -> CommandView {
    CommandView {
        argv: seq![
            certtool(),
            "--generate-privkey"@,
            "--key-type"@,
            "ed25519"@,
            "--no-text"@,
            "--outfile"@,
            key,
        ],
        env: None,
        input: InputView::Inherit,
        output: None,
    }
}

/// The task that makes a private key in the file `key`.
pub fn generate(key: &str) -> (t: Task)
    ensures
        t@ == TaskView::Sign(key_command(key@)),
{
    let c = Command::new("/usr/bin/certtool").arg("--generate-privkey").arg("--key-type").arg(
        "ed25519",
    ).arg("--no-text").arg("--outfile").arg(key);
    assert(c@.argv =~= key_command(key@).argv);
    Task::Sign(c)
}

/// The command that signs the certificate of the private key `key` under the
/// authority, asking for the password of the authority's key.
pub open spec fn sign_ca_command(
    conf: Seq<char>,
    cacert: Seq<char>,
    cakey: Seq<char>,
    key: Seq<char>,
    cert: Seq<char>,
) -> CommandView {
    CommandView {
        argv: seq![
            certtool(),
            "--generate-certificate"@,
            "--template"@,
            conf,
            "--ask-pass"@,
            "--load-privkey"@,
            key,
            "--load-ca-certificate"@,
            cacert,
            "--load-ca-privkey"@,
            cakey,
            "--outfile"@,
            cert,
        ],
        env: None,
        input: InputView::Inherit,
        output: None,
    }
}

/// The task that issues the certificate of the machine `id`, an authority of
/// its own, for the private key in the file `key` and under the authority of
/// `cacert` and `cakey`; it comes to lie in the file `cert`. The tool asks
/// whoever sits at the terminal for the password of the authority's key.
pub fn sign_ca(id: &str, cacert: &str, cakey: &str, key: &str, cert: &str, conf: &str) -> (t: Task)
    ensures
        t@ == TaskView::Certify(
            conf@,
            machine_template(id@),
            sign_ca_command(conf@, cacert@, cakey@, key@, cert@),
        ),
{
    let c = Command::new("/usr/bin/certtool").arg("--generate-certificate").arg("--template").arg(
        conf,
    ).arg("--ask-pass").arg("--load-privkey").arg(key).arg("--load-ca-certificate").arg(cacert).arg(
        "--load-ca-privkey",
    ).arg(cakey).arg("--outfile").arg(cert);
    assert(c@.argv =~= sign_ca_command(conf@, cacert@, cakey@, key@, cert@).argv);
    let template = join3(
        "dn=cn=",
        id,
        "\nexpiration_days=365\nca\ncert_signing_key\ncrl_signing_key\nsigning_key\ntls_www_client\ntls_www_server",
    );
    Task::Certify(text(conf), template, c)
}

/// The command that signs the certificate asked for in the request `csr`
/// under the authority.
pub open spec fn sign_command(
    conf: Seq<char>,
    cacert: Seq<char>,
    cakey: Seq<char>,
    csr: Seq<char>,
    cert: Seq<char>,
) -> CommandView {
    CommandView {
        argv: seq![
            certtool(),
            "--generate-certificate"@,
            "--template"@,
            conf,
            "--load-request"@,
            csr,
            "--load-ca-certificate"@,
            cacert,
            "--load-ca-privkey"@,
            cakey,
            "--outfile"@,
            cert,
        ],
        env: None,
        input: InputView::Inherit,
        output: None,
    }
}

/// The task that issues the certificate of the node `id` from the request in
/// the file `csr`, under the authority of `cacert` and `cakey`; it comes to
/// lie in the file `cert`.
pub fn sign(id: &str, cacert: &str, cakey: &str, csr: &str, cert: &str, conf: &str) -> (t: Task)
    ensures
        t@ == TaskView::Certify(
            conf@,
            leaf_template(id@),
            sign_command(conf@, cacert@, cakey@, csr@, cert@),
        ),
{
    let c = Command::new("/usr/bin/certtool").arg("--generate-certificate").arg("--template").arg(
        conf,
    ).arg("--load-request").arg(csr).arg("--load-ca-certificate").arg(cacert).arg(
        "--load-ca-privkey",
    ).arg(cakey).arg("--outfile").arg(cert);
    assert(c@.argv =~= sign_command(conf@, cacert@, cakey@, csr@, cert@).argv);
    let template = join3(
        "dn=cn=",
        id,
        "\nexpiration_days=365\nsigning_key\ntls_www_client\ntls_www_server\npath_len=2",
    );
    Task::Certify(text(conf), template, c)
}

} // verus!
