//! Fields: the domains under which machines are given their identity, each
//! with a root authority of its own.

use crate::script::{extend, Task, TaskView};
use crate::store::{joined, Data};
use crate::text::{hex_of, text};
use crate::tls::{conf_name, root_key_command, root_template, self_sign_command};
use vstd::prelude::*;

verus! {

/// Where everything lies below the operator's home directory.
#[derive(Debug, Clone, PartialEq, Eq)]
pub struct Layout {
    home: Data,
}

impl View for Layout {
    type V = Seq<char>;

    /// The path of the home directory.
    closed spec fn view(&self) -> Seq<char> {
        self.home@
    }
}

/// The directory of the operator's keys and known hosts.
pub open spec fn ssh_home(home: Seq<char>) -> Seq<char> {
    joined(home, ".ssh"@)
}

/// The directory of everything that this library keeps.
pub open spec fn barley_home(home: Seq<char>) -> Seq<char> {
    joined(home, ".barley"@)
}

/// The store of the fields.
pub open spec fn fields_home(home: Seq<char>) -> Seq<char> {
    joined(barley_home(home), "fields"@)
}

/// The store of the images.
pub open spec fn images_home(home: Seq<char>) -> Seq<char> {
    joined(barley_home(home), "images"@)
}

impl Layout {
    /// The layout below the home directory `home`.
    pub fn new(home: &str) -> (l: Layout)
        ensures
            l@ == home@,
    {
        Layout { home: Data::new(home) }
    }

    /// A second handle on this layout.
    pub fn copy(&self) -> (l: Layout)
        ensures
            l@ == self@,
    {
        Layout { home: self.home.copy() }
    }

    /// The directory of the operator's keys and known hosts.
    pub fn home_ssh(&self) -> (d: Data)
        ensures
            d@ == ssh_home(self@),
    {
        Data::new(self.home.file(".ssh").as_str())
    }

    /// The directory of everything that this library keeps.
    pub fn home_barley(&self) -> (d: Data)
        ensures
            d@ == barley_home(self@),
    {
        Data::new(self.home.file(".barley").as_str())
    }

    /// The store of the fields.
    pub fn fields_home(&self) -> (d: Data)
        ensures
            d@ == fields_home(self@),
    {
        Data::new(self.home_barley().file("fields").as_str())
    }

    /// The store of the images.
    pub fn images_home(&self) -> (d: Data)
        ensures
            d@ == images_home(self@),
    {
        Data::new(self.home_barley().file("images").as_str())
    }

    /// The path of the public key that is the administrator's unless another
    /// is named.
    pub fn default_key(&self) -> (r: String)
        ensures
            r@ == joined(ssh_home(self@), "id_ed25519.pub"@),
    {
        self.home_ssh().file("id_ed25519.pub")
    }

    /// The tasks that validate the three stores, the outermost first.
    pub fn setup(&self) -> (tasks: Vec<Task>)
        ensures
            tasks.deep_view() == seq![
                TaskView::Ensure(barley_home(self@)),
                TaskView::Ensure(fields_home(self@)),
                TaskView::Ensure(images_home(self@)),
            ],
    {
        let mut tasks: Vec<Task> = Vec::new();
        tasks.push(self.home_barley().ensure());
        tasks.push(self.fields_home().ensure());
        tasks.push(self.images_home().ensure());
        assert(tasks.deep_view() =~= seq![
            TaskView::Ensure(barley_home(self@)),
            TaskView::Ensure(fields_home(self@)),
            TaskView::Ensure(images_home(self@)),
        ]);
        tasks
    }
}

/// A field: its name, and when its directory was last changed, counted from
/// some fixed moment on.
#[derive(Debug, Clone, PartialEq, Eq)]
pub struct Field {
    pub name: String,
    pub modified: u128,
}

/// A [`Field`] with its name as a sequence of characters.
pub struct FieldView {
    pub name: Seq<char>,
    pub modified: u128,
}

impl View for Field {
    type V = FieldView;

    open spec fn view(&self) -> FieldView {
        FieldView { name: self.name@, modified: self.modified }
    }
}

impl DeepView for Field {
    type V = FieldView;

    open spec fn deep_view(&self) -> FieldView {
        self@
    }
}

/// Whether the field at position `p` is the one changed last: none was
/// changed later, and none behind it at the same time.
pub open spec fn is_latest(fields: Seq<FieldView>, p: int) -> bool {
    &&& 0 <= p < fields.len()
    &&& forall|j: int| 0 <= j < fields.len() ==> fields[j].modified <= fields[p].modified
    &&& forall|j: int| p < j < fields.len() ==> fields[j].modified < fields[p].modified
}

/// The position of the field that was changed last, where there is a field.
pub open spec fn latest_position(fields: Seq<FieldView>) -> int {
    choose|p: int| is_latest(fields, p)
}

/// Only one position can hold the field that was changed last.
pub proof fn lemma_latest_unique(fields: Seq<FieldView>, p: int, q: int)
    requires
        is_latest(fields, p),
        is_latest(fields, q),
    ensures
        p == q,
{
    if p < q {
        assert(fields[q].modified < fields[p].modified);
        assert(fields[p].modified <= fields[q].modified);
    } else if q < p {
        assert(fields[p].modified < fields[q].modified);
        assert(fields[q].modified <= fields[p].modified);
    }
}

/// The tasks that make the field `name` in the store `home`: its directory,
/// which may not exist yet, the administrator's key copied from `key`, and
/// the root authority with the password `pw`.
pub open spec fn create_tasks(
    home: Seq<char>,
    name: Seq<char>,
    key: Seq<char>,
    pw: Seq<char>,
    nonce: nat,
) -> Seq<TaskView> {
    let dir = joined(home, name);
    seq![
        TaskView::Create(dir),
        TaskView::Copy(key, joined(dir, "admin.pub"@)),
        TaskView::Sign(root_key_command(pw, joined(dir, "root.key"@))),
        TaskView::Certify(
            joined(dir, conf_name(nonce)),
            root_template(name),
            self_sign_command(
                pw,
                joined(dir, conf_name(nonce)),
                joined(dir, "root.key"@),
                joined(dir, "root.crt"@),
            ),
        ),
    ]
}

impl Field {
    /// The field `name`, last changed at `modified`.
    pub fn new(name: &str, modified: u128) -> (f: Field)
        ensures
            f@ == (FieldView { name: name@, modified }),
    {
        Field { name: text(name), modified }
    }

    /// The field that an entry of the store of fields stands for: a
    /// directory is a field, anything else is none.
    pub fn from_dir(is_dir: bool, name: &str, modified: u128) -> (r: Option<Field>)
        ensures
            r.deep_view() == if is_dir {
                Some(FieldView { name: name@, modified })
            } else {
                None
            },
    {
        if is_dir {
            Some(Field::new(name, modified))
        } else {
            None
        }
    }

    /// A copy of this field.
    pub fn copy(&self) -> (r: Field)
        ensures
            r@ == self@,
    {
        Field { name: self.name.clone(), modified: self.modified }
    }

    /// The field that was changed last, and of several changed at the same
    /// time the last in the list; nothing where there is no field.
    pub fn latest(fields: &Vec<Field>) -> (r: Option<Field>)
        ensures
            r is None <==> fields@.len() == 0,
            r is Some ==> is_latest(fields.deep_view(), latest_position(fields.deep_view()))
                && r->0@ == fields.deep_view()[latest_position(fields.deep_view())],
    {
        if fields.len() == 0 {
            return None;
        }
        let ghost all = fields.deep_view();
        let mut best: usize = 0;
        let mut i: usize = 1;
        assert(all[0] == fields@[0]@);
        while i < fields.len()
            invariant
                1 <= i <= fields@.len(),
                best < i,
                all == fields.deep_view(),
                forall|j: int| 0 <= j < i ==> all[j].modified <= all[best as int].modified,
                forall|j: int| best < j < i ==> all[j].modified < all[best as int].modified,
            decreases fields@.len() - i,
        {
            assert(all[i as int] == fields@[i as int]@);
            assert(all[best as int] == fields@[best as int]@);
            if fields[i].modified >= fields[best].modified {
                best = i;
            }
            i = i + 1;
        }
        assert(all[best as int] == fields@[best as int]@);
        assert(is_latest(all, best as int));
        proof {
            lemma_latest_unique(all, best as int, latest_position(all));
        }
        Some(fields[best].copy())
    }

    /// The path of the field's directory in the store `home`.
    pub fn path(&self, home: &Data) -> (r: String)
        ensures
            r@ == joined(home@, self.name@),
    {
        home.file(self.name.as_str())
    }

    /// The path of the entry `name` of the field.
    pub fn file(&self, home: &Data, name: &str) -> (r: String)
        ensures
            r@ == joined(joined(home@, self.name@), name@),
    {
        Data::new(self.path(home).as_str()).file(name)
    }

    /// The path of the administrator's public key.
    pub fn admin(&self, home: &Data) -> (r: String)
        ensures
            r@ == joined(joined(home@, self.name@), "admin.pub"@),
    {
        self.file(home, "admin.pub")
    }

    /// The path of the certificate of the root authority.
    pub fn cacert(&self, home: &Data) -> (r: String)
        ensures
            r@ == joined(joined(home@, self.name@), "root.crt"@),
    {
        self.file(home, "root.crt")
    }

    /// The path of the private key of the root authority.
    pub fn cakey(&self, home: &Data) -> (r: String)
        ensures
            r@ == joined(joined(home@, self.name@), "root.key"@),
    {
        self.file(home, "root.key")
    }

    /// The tasks that make this field in the store `home`: its directory,
    /// which may not exist yet, the administrator's key copied from the file
    /// `key`, and the root authority, whose key the password `pw` protects.
    /// The number `nonce` tells the template file apart from others.
    pub fn create_with(&self, home: &Data, key: &str, pw: &str, nonce: u128) -> (tasks: Vec<Task>)
        ensures
            tasks.deep_view() == create_tasks(home@, self.name@, key@, pw@, nonce as nat),
    {
        let dir = Data::new(self.path(home).as_str());
        let mut tasks: Vec<Task> = Vec::new();
        tasks.push(Task::Create(self.path(home)));
        tasks.push(Task::Copy(text(key), self.admin(home)));
        assert(tasks.deep_view() =~= seq![
            TaskView::Create(joined(home@, self.name@)),
            TaskView::Copy(key@, joined(joined(home@, self.name@), "admin.pub"@)),
        ]);
        let conf = crate::tls::conf_path(&dir, nonce);
        let root = crate::tls::generate_root(
            self.name.as_str(),
            self.cakey(home).as_str(),
            self.cacert(home).as_str(),
            conf.as_str(),
            pw,
        );
        extend(&mut tasks, root);
        assert(tasks.deep_view() =~= create_tasks(home@, self.name@, key@, pw@, nonce as nat));
        tasks
    }

    /// The tasks that make this field in the store `home`, with the
    /// administrator's key copied from the file `key`, and the fresh
    /// password that protects the key of the root authority. The password
    /// is given here and nowhere else.
    pub fn create(&self, home: &Data, key: &str) -> (r: (String, Vec<Task>))
        ensures
            exists|n: u128| r.0@ == hex_of(n as nat),
            exists|nonce: u128|
                r.1.deep_view() == create_tasks(home@, self.name@, key@, r.0@, nonce as nat),
    {
        let pw = crate::seed::random_pw();
        let nonce = crate::seed::random_number();
        let tasks = self.create_with(home, key, pw.as_str(), nonce);
        let r = (pw, tasks);
        assert(r.1.deep_view() == create_tasks(home@, self.name@, key@, r.0@, nonce as nat));
        r
    }
}

} // verus!
