//! Images: named archives of a file system, each in one or more versions.

use crate::error::{Error, ErrorView};
use crate::script::{Task, TaskView};
use crate::store::{joined, Data};
use crate::number::{
    all_digits, digits_only, greater_number, lemma_decimal_round_trip, next_number,
};
use crate::text::{
    chars_of, decimal_of, decimal_value, ends_with, find, first_index, join, join3,
    lemma_first_index, same, slice, starts_with, text,
};
use vstd::prelude::*;
use vstd::string::StringExecFns;

verus! {

/// An image: its name and its version.
#[derive(Debug, Clone, PartialEq, Eq)]
pub struct Image {
    pub name: String,
    pub version: String,
}

/// An [`Image`] with its texts as sequences of characters.
pub struct ImageView {
    pub name: Seq<char>,
    pub version: Seq<char>,
}

impl View for Image {
    type V = ImageView;

    open spec fn view(&self) -> ImageView {
        ImageView { name: self.name@, version: self.version@ }
    }
}

impl DeepView for Image {
    type V = ImageView;

    open spec fn deep_view(&self) -> ImageView {
        self@
    }
}

/// What the name of an archive ends with.
pub open spec fn extension() -> Seq<char> {
    ".tar.zst"@
}

/// The file name of the archive of an image.
pub open spec fn archive_name(image: ImageView) -> Seq<char> {
    image.name + "_"@ + image.version + extension()
}

/// The image that a file name stands for: the name ends with the extension,
/// and what is before it is the image's name, up to the first `_`, and its
/// version, behind that `_`. A name without `_` gives an empty version.
pub open spec fn parsed(file_name: Seq<char>) -> Option<ImageView> {
    if extension().is_suffix_of(file_name) {
        let stem = file_name.take(file_name.len() - extension().len());
        let i = first_index(stem, '_');
        Some(
            ImageView {
                name: stem.take(i),
                version: if i < stem.len() {
                    stem.skip(i + 1)
                } else {
                    Seq::empty()
                },
            },
        )
    } else {
        None
    }
}

/// The answers that the comparison of two versions can give.
#[derive(Debug, Clone, Copy, PartialEq, Eq)]
pub enum Comparison {
    Eq,
    Ne,
    Lt,
    Le,
    Ge,
    Gt,
}

/// How one version stands to another.
#[derive(Debug, Clone, Copy, PartialEq, Eq)]
pub enum Order {
    Less,
    Equal,
    Greater,
}

/// What `version_compare::compare` makes of two versions: its answer, or
/// `None` where it takes one of them for no version at all.
pub uninterp spec fn version_comparison(a: Seq<char>, b: Seq<char>) -> Option<Comparison>;

/// Compares two versions with `version_compare::compare`. The claim is that
/// the answer depends on the two texts alone; it is handed on variant by
/// variant, and the error as `None`.
#[verifier::external_body]
fn compare_texts(a: &str, b: &str) -> (r: Option<Comparison>)
    ensures
        r == version_comparison(a@, b@),
{
    match version_compare::compare(a, b) {
        Ok(version_compare::Cmp::Eq) => Some(Comparison::Eq),
        Ok(version_compare::Cmp::Ne) => Some(Comparison::Ne),
        Ok(version_compare::Cmp::Lt) => Some(Comparison::Lt),
        Ok(version_compare::Cmp::Le) => Some(Comparison::Le),
        Ok(version_compare::Cmp::Ge) => Some(Comparison::Ge),
        Ok(version_compare::Cmp::Gt) => Some(Comparison::Gt),
        Err(()) => None,
    }
}

/// The day that it is where this program runs, as the year, the month and
/// the day of the month in digits (`chrono::Local::now`, formatted). Nothing
/// is claimed of the text: the clock and the time zone of the machine decide.
/// The call fails only on the state of the machine: where the clock stands
/// before 1970, or where the time zone on file yields no local time.
#[verifier::external_body]
fn local_date() -> String {
    chrono::Local::now().format("%Y%m%d").to_string()
}

/// Whether a version has an addition: a dot, and something behind it.
pub open spec fn has_suffix(version: Seq<char>) -> bool {
    first_index(version, '.') < version.len()
}

/// The order that an answer stands for, between a version that has an
/// addition or not and another: less and greater as they are answered; for
/// everything else, the version without an addition comes before the one
/// with an addition, and two of a kind are equal.
pub open spec fn order_of(c: Comparison, first_has: bool, second_has: bool) -> Order {
    match c {
        Comparison::Lt => Order::Less,
        Comparison::Gt => Order::Greater,
        _ => if !first_has && second_has {
            Order::Less
        } else if first_has && !second_has {
            Order::Greater
        } else {
            Order::Equal
        },
    }
}

/// How the version `a` stands to the version `b`, or `None` where one of
/// them is no version. Where the comparison of their parts finds no
/// difference, the version without an addition comes first.
pub open spec fn version_order(a: Seq<char>, b: Seq<char>) -> Option<Order> {
    match version_comparison(a, b) {
        Some(c) => Some(order_of(c, has_suffix(a), has_suffix(b))),
        None => None,
    }
}

/// Whether the version `version` has an addition.
pub fn suffixed(version: &str) -> (r: bool)
    ensures
        r == has_suffix(version@),
{
    let v = chars_of(version);
    find(&v, '.') < v.len()
}

/// The order that the answer `c` stands for between the versions `a` and
/// `b`, for any answer that the comparison may give.
pub fn order(c: Comparison, a: &str, b: &str) -> (r: Order)
    ensures
        r == order_of(c, has_suffix(a@), has_suffix(b@)),
{
    match c {
        Comparison::Lt => Order::Less,
        Comparison::Gt => Order::Greater,
        _ => {
            let first = suffixed(a);
            let second = suffixed(b);
            if !first && second {
                Order::Less
            } else if first && !second {
                Order::Greater
            } else {
                Order::Equal
            }
        },
    }
}

/// The number of a version on the day `today`: nought for the day itself,
/// and for the day with a dot and nothing but digits behind it the number
/// that the digits read as. Any other version has no number on that day.
pub open spec fn day_number(version: Seq<char>, today: Seq<char>) -> Option<nat> {
    if version == today {
        Some(0)
    } else if today.is_prefix_of(version) && version.len() > today.len() + 1 && version[today.len() as int]
        == '.' && all_digits(version.skip(today.len() + 1 as int)) {
        Some(decimal_value(version.skip(today.len() + 1 as int)))
    } else {
        None
    }
}

/// The greatest number of the day `today` among the first `n` of `images`
/// that bear `name`, or nothing where none of them has a number on that
/// day.
pub open spec fn greatest(images: Seq<ImageView>, name: Seq<char>, today: Seq<char>, n: nat) -> Option<
    nat,
>
    decreases n,
{
    if n == 0 {
        None
    } else {
        let prev = greatest(images, name, today, (n - 1) as nat);
        let cur = images[n - 1];
        if cur.name == name {
            match day_number(cur.version, today) {
                None => prev,
                Some(k) => match prev {
                    None => Some(k),
                    Some(p) => Some(
                        if k > p {
                            k
                        } else {
                            p
                        },
                    ),
                },
            }
        } else {
            prev
        }
    }
}

/// The version for a new archive of `name` on the day `today`: the day
/// itself, unless `images` hold a version of that day already; then the day
/// with a dot and the number that follows the greatest of that day.
pub open spec fn generated(images: Seq<ImageView>, name: Seq<char>, today: Seq<char>) -> Seq<char> {
    match greatest(images, name, today, images.len()) {
        None => today,
        Some(m) => today + "."@ + decimal_of(m + 1),
    }
}

/// No version of the day among the images looked at has a greater number
/// than the greatest.
pub proof fn lemma_greatest_covers(
    images: Seq<ImageView>,
    name: Seq<char>,
    today: Seq<char>,
    n: nat,
    k: int,
)
    requires
        0 <= k < n <= images.len(),
        images[k].name == name,
        day_number(images[k].version, today) is Some,
    ensures
        greatest(images, name, today, n) is Some,
        day_number(images[k].version, today)->0 <= greatest(images, name, today, n)->0,
    decreases n,
{
    if k < n - 1 {
        lemma_greatest_covers(images, name, today, (n - 1) as nat, k);
    }
}

/// The version that is generated is new: no image of that name bears it.
pub proof fn lemma_generated_is_new(
    images: Seq<ImageView>,
    name: Seq<char>,
    today: Seq<char>,
    k: int,
)
    requires
        0 <= k < images.len(),
        images[k].name == name,
    ensures
        images[k].version != generated(images, name, today),
{
    let v = images[k].version;
    let made = generated(images, name, today);
    if v == made {
        match greatest(images, name, today, images.len()) {
            None => {
                lemma_greatest_covers(images, name, today, images.len(), k);
            },
            Some(m) => {
                reveal_strlit(".");
                lemma_decimal_round_trip(m + 1);
                let n = today.len() as int;
                assert(v.len() == n + 1 + decimal_of(m + 1).len());
                assert(v.subrange(0, n) =~= today);
                assert(v[n] == '.');
                assert(v.skip(n + 1) =~= decimal_of(m + 1));
                assert(day_number(v, today) == Some(m + 1));
                lemma_greatest_covers(images, name, today, images.len(), k);
            },
        }
    }
}

/// The digits of the number of the version `version` on the day `today`,
/// none for nought; nothing where the version has no number on that day.
pub fn day_digits(version: &str, today: &str) -> (r: Option<String>)
    ensures
        r is Some <==> day_number(version@, today@) is Some,
        r is Some ==> all_digits(r->0@) && decimal_value(r->0@) == day_number(version@, today@)->0,
{
    if same(version, today) {
        return Some(String::new());
    }
    if !starts_with(version, today) {
        return None;
    }
    let v = chars_of(version);
    let n = chars_of(today).len();
    if v.len() - n <= 1 || v[n] != '.' {
        return None;
    }
    let digits = slice(version, n + 1, v.len());
    assert(digits@ =~= version@.skip(n + 1));
    if digits_only(digits.as_str()) {
        Some(digits)
    } else {
        None
    }
}

/// Where the first `n` of `images` leave the search for the latest version
/// of `name`.
pub enum Latest {
    /// None of them bears the name.
    Nothing,
    /// The one at this position is the latest so far.
    At(int),
    /// Two of their versions could not be compared.
    Incomparable,
}

/// The latest among the first `n` of `images` that bear `name`: each in
/// turn takes the place of the one held so far unless that one is greater.
pub open spec fn latest_of(images: Seq<ImageView>, name: Seq<char>, n: nat) -> Latest
    decreases n,
{
    if n == 0 {
        Latest::Nothing
    } else {
        let cur = images[n - 1];
        match latest_of(images, name, (n - 1) as nat) {
            Latest::Incomparable => Latest::Incomparable,
            Latest::Nothing => if cur.name == name {
                Latest::At(n - 1)
            } else {
                Latest::Nothing
            },
            Latest::At(p) => if cur.name != name {
                Latest::At(p)
            } else {
                match version_order(images[p].version, cur.version) {
                    None => Latest::Incomparable,
                    Some(Order::Greater) => Latest::At(p),
                    Some(_) => Latest::At(n - 1),
                }
            },
        }
    }
}

/// What [`latest_of`] finds lies among the images it looked at and bears the
/// name.
pub proof fn lemma_latest_in_range(images: Seq<ImageView>, name: Seq<char>, n: nat)
    requires
        n <= images.len(),
    ensures
        latest_of(images, name, n) matches Latest::At(p) ==> 0 <= p < n && images[p].name == name,
        latest_of(images, name, n) is Nothing <==> forall|i: int|
            0 <= i < n ==> images[i].name != name,
    decreases n,
{
    if n > 0 {
        lemma_latest_in_range(images, name, (n - 1) as nat);
        if latest_of(images, name, n) is Nothing {
            assert forall|i: int| 0 <= i < n implies images[i].name != name by {}
        }
    }
}

/// Once two versions could not be compared, looking at more images does not
/// mend it.
pub proof fn lemma_incomparable_stays(images: Seq<ImageView>, name: Seq<char>, n: nat, m: nat)
    requires
        n <= m,
        latest_of(images, name, n) is Incomparable,
    ensures
        latest_of(images, name, m) is Incomparable,
    decreases m,
{
    if n < m {
        lemma_incomparable_stays(images, name, n, (m - 1) as nat);
    }
}

/// What becomes of a file that is to be imported.
pub enum Import {
    /// The file is no archive of an image.
    Invalid,
    /// The image is in the store already, in this version.
    Exists(Seq<char>),
    /// The image goes into the store as this file.
    Store(ImageView, Seq<char>),
}

/// What becomes of the file `file_name` on the day `today`, with `images` in
/// the store at `home`.
pub open spec fn import_plan(
    is_file: bool,
    file_name: Seq<char>,
    today: Seq<char>,
    images: Seq<ImageView>,
    home: Seq<char>,
) -> Import {
    if !is_file || parsed(file_name) is None {
        Import::Invalid
    } else {
        let found = parsed(file_name)->0;
        let version = if found.version.len() == 0 {
            generated(images, found.name, today)
        } else {
            found.version
        };
        let image = ImageView { name: found.name, version };
        if images.contains(image) {
            Import::Exists(version)
        } else {
            Import::Store(image, joined(home, archive_name(image)))
        }
    }
}

/// Two images whose names hold no `_` and whose archives bear the same file
/// name are the same image.
pub proof fn lemma_archive_names_differ(a: ImageView, b: ImageView)
    requires
        !a.name.contains('_'),
        !b.name.contains('_'),
        archive_name(a) == archive_name(b),
    ensures
        a == b,
{
    reveal_strlit("_");
    reveal_strlit(".tar.zst");
    let x = archive_name(a);
    let y = archive_name(b);
    assert(x[a.name.len() as int] == '_');
    assert(y[b.name.len() as int] == '_');
    assert forall|j: int| 0 <= j < a.name.len() implies x[j] != '_' by {
        assert(x[j] == a.name[j]);
        assert(a.name.contains(a.name[j]));
    }
    assert forall|j: int| 0 <= j < b.name.len() implies y[j] != '_' by {
        assert(y[j] == b.name[j]);
        assert(b.name.contains(b.name[j]));
    }
    if a.name.len() < b.name.len() {
        assert(y[a.name.len() as int] != '_');
    } else if b.name.len() < a.name.len() {
        assert(x[b.name.len() as int] != '_');
    }
    assert(a.name =~= x.take(a.name.len() as int));
    assert(b.name =~= y.take(b.name.len() as int));
    assert(x.len() == a.name.len() + 1 + a.version.len() + 8);
    assert(y.len() == b.name.len() + 1 + b.version.len() + 8);
    assert(a.version =~= x.subrange(a.name.len() + 1 as int, a.name.len() + 1 + a.version.len() as int));
    assert(b.version =~= y.subrange(b.name.len() + 1 as int, b.name.len() + 1 + b.version.len() as int));
}

/// An import never takes the place of an archive: the image that goes into
/// the store is none that the store holds, and where no name in the store
/// holds a `_`, as no name read from a file name does, its file name is that
/// of no archive in the store.
pub proof fn lemma_import_replaces_nothing(
    is_file: bool,
    file_name: Seq<char>,
    today: Seq<char>,
    images: Seq<ImageView>,
    home: Seq<char>,
    k: int,
)
    requires
        import_plan(is_file, file_name, today, images, home) is Store,
        0 <= k < images.len(),
    ensures
        import_plan(is_file, file_name, today, images, home)->Store_0 != images[k],
        !images[k].name.contains('_') ==> archive_name(
            import_plan(is_file, file_name, today, images, home)->Store_0,
        ) != archive_name(images[k]),
{
    let image = import_plan(is_file, file_name, today, images, home)->Store_0;
    assert(images.contains(images[k]));
    let stem = file_name.take(file_name.len() - extension().len());
    lemma_first_index(stem, '_');
    assert(image.name == stem.take(first_index(stem, '_')));
    assert(!image.name.contains('_')) by {
        if image.name.contains('_') {
            let j = choose|j: int| 0 <= j < image.name.len() && image.name[j] == '_';
            assert(stem[j] == '_');
        }
    }
    if !images[k].name.contains('_') && archive_name(image) == archive_name(images[k]) {
        lemma_archive_names_differ(image, images[k]);
    }
}

/// An archive whose file name gives no version can always be imported:
/// the version that is generated for it is free.
pub proof fn lemma_import_finds_a_version(
    file_name: Seq<char>,
    today: Seq<char>,
    images: Seq<ImageView>,
    home: Seq<char>,
)
    requires
        parsed(file_name) is Some,
        parsed(file_name)->0.version.len() == 0,
    ensures
        import_plan(true, file_name, today, images, home) is Store,
{
    let name = parsed(file_name)->0.name;
    let image = ImageView { name, version: generated(images, name, today) };
    if images.contains(image) {
        let k = choose|k: int| 0 <= k < images.len() && images[k] == image;
        lemma_generated_is_new(images, name, today, k);
    }
}

/// Whether `r` is what the plan `plan` for the file at `path` comes to: a
/// refusal that says why, or the image and the task that brings the file
/// into the store.
pub open spec fn imported(plan: Import, path: Seq<char>, r: Result<(Image, Task), Error>) -> bool {
    match plan {
        Import::Invalid => r is Err && r->Err_0@ == ErrorView::DataError(
            path + " is not a valid image file"@,
        ),
        Import::Exists(version) => r is Err && r->Err_0@ == ErrorView::DataError(
            "Image version "@ + version + " already exists"@,
        ),
        Import::Store(image, target) => r is Ok && r->Ok_0.0@ == image && r->Ok_0.1@
            == TaskView::Link(path, target),
    }
}

impl Image {
    /// The image `name` in the version `version`.
    pub fn new(name: &str, version: &str) -> (i: Image)
        ensures
            i@ == (ImageView { name: name@, version: version@ }),
    {
        Image { name: text(name), version: text(version) }
    }

    /// The image that the file `file_name` holds, where `is_file` says
    /// whether it is a regular file at all.
    pub fn from_metadata(is_file: bool, file_name: &str) -> (r: Option<Image>)
        ensures
            r.deep_view() == if is_file {
                parsed(file_name@)
            } else {
                None
            },
    {
        proof {
            reveal_strlit(".tar.zst");
        }
        if !is_file || !ends_with(file_name, ".tar.zst") {
            return None;
        }
        let all = chars_of(file_name);
        let stem = slice(file_name, 0, all.len() - 8);
        assert(stem@ =~= file_name@.take(file_name@.len() - 8));
        let v = chars_of(stem.as_str());
        let i = find(&v, '_');
        proof {
            lemma_first_index(stem@, '_');
        }
        let name = slice(stem.as_str(), 0, i);
        assert(name@ =~= stem@.take(i as int));
        let version = if i < v.len() {
            let s = slice(stem.as_str(), i + 1, v.len());
            assert(s@ =~= stem@.skip(i + 1));
            s
        } else {
            String::new()
        };
        Some(Image { name, version })
    }

    /// The file name of the image's archive.
    pub fn file_name(&self) -> (r: String)
        ensures
            r@ == archive_name(self@),
    {
        let mut s = join3(self.name.as_str(), "_", self.version.as_str());
        s.append(".tar.zst");
        s
    }

    /// The path of the image's archive in the store `home`.
    pub fn path(&self, home: &Data) -> (r: String)
        ensures
            r@ == joined(home@, archive_name(self@)),
    {
        let name = self.file_name();
        home.file(name.as_str())
    }

    /// How the version `a` stands to the version `b`; `None` where one of
    /// them is no version. A version without an addition comes before the
    /// same version with one.
    pub fn compare_versions(a: &str, b: &str) -> (r: Option<Order>)
        ensures
            r == version_order(a@, b@),
    {
        match compare_texts(a, b) {
            Some(c) => Some(order(c, a, b)),
            None => None,
        }
    }

    /// The latest version of the image `name` among `images`, or nothing
    /// where none bears the name. Fails where two versions that had to be
    /// compared could not be.
    pub fn latest(images: &Vec<Image>, name: &str) -> (r: Result<Option<Image>, Error>)
        ensures
            match latest_of(images.deep_view(), name@, images@.len()) {
                Latest::Nothing => r == Ok::<Option<Image>, Error>(None),
                Latest::At(p) => r is Ok && r->Ok_0 is Some && r->Ok_0->0@ == images@[p]@,
                Latest::Incomparable => r is Err && r->Err_0@ == ErrorView::DataError(
                    "Versions of "@ + name@ + " cannot be compared"@,
                ),
            },
    {
        let ghost all = images.deep_view();
        let mut best: Option<usize> = None;
        let mut i: usize = 0;
        while i < images.len()
            invariant
                i <= images@.len(),
                all == images.deep_view(),
                match latest_of(all, name@, i as nat) {
                    Latest::Nothing => best is None,
                    Latest::At(p) => best == Some(p as usize) && 0 <= p < i,
                    Latest::Incomparable => false,
                },
            decreases images@.len() - i,
        {
            proof {
                lemma_latest_in_range(all, name@, i as nat);
            }
            assert(all[i as int] == images@[i as int]@);
            if same(images[i].name.as_str(), name) {
                match best {
                    None => {
                        best = Some(i);
                    },
                    Some(p) => {
                        assert(all[p as int] == images@[p as int]@);
                        match Self::compare_versions(
                            images[p].version.as_str(),
                            images[i].version.as_str(),
                        ) {
                            None => {
                                proof {
                                    assert(latest_of(all, name@, (i + 1) as nat) is Incomparable);
                                    lemma_incomparable_stays(
                                        all,
                                        name@,
                                        (i + 1) as nat,
                                        images@.len(),
                                    );
                                }
                                return Err(
                                    Error::DataError(
                                        join3("Versions of ", name, " cannot be compared"),
                                    ),
                                );
                            },
                            Some(Order::Greater) => {},
                            Some(_) => {
                                best = Some(i);
                            },
                        }
                    },
                }
            }
            i = i + 1;
        }
        match best {
            None => Ok(None),
            Some(p) => Ok(Some(images[p].copy())),
        }
    }

    /// A copy of this image.
    pub fn copy(&self) -> (r: Image)
        ensures
            r@ == self@,
    {
        Image { name: self.name.clone(), version: self.version.clone() }
    }

    /// The version for a new archive of the image `name` on the day `today`,
    /// given the `images` that the store holds: the day itself, or the day
    /// with the next free number behind a dot where the store holds a version
    /// of that day already. No image of that name in the store bears it.
    pub fn generate_version_on(name: &str, today: &str, images: &Vec<Image>) -> (r: String)
        ensures
            r@ == generated(images.deep_view(), name@, today@),
            forall|k: int|
                0 <= k < images@.len() && (#[trigger] images.deep_view()[k]).name == name@
                    ==> images.deep_view()[k].version != r@,
    {
        let ghost all = images.deep_view();
        let mut best: Option<String> = None;
        let mut i: usize = 0;
        while i < images.len()
            invariant
                i <= images@.len(),
                all == images.deep_view(),
                match greatest(all, name@, today@, i as nat) {
                    None => best is None,
                    Some(m) => best is Some && all_digits(best->0@) && decimal_value(best->0@) == m,
                },
            decreases images@.len() - i,
        {
            assert(all[i as int] == images@[i as int]@);
            if same(images[i].name.as_str(), name) {
                match day_digits(images[i].version.as_str(), today) {
                    Some(digits) => {
                        let greater = match &best {
                            None => true,
                            Some(held) => greater_number(digits.as_str(), held.as_str()),
                        };
                        if greater {
                            best = Some(digits);
                        }
                    },
                    None => {},
                }
            }
            i = i + 1;
        }
        let r = match best {
            None => text(today),
            Some(held) => {
                let next = next_number(held.as_str());
                join3(today, ".", next.as_str())
            },
        };
        proof {
            assert forall|k: int|
                0 <= k < images@.len() && (#[trigger] all[k]).name == name@ implies all[k].version
                != r@ by {
                lemma_generated_is_new(all, name@, today@, k);
            }
        }
        r
    }

    /// The version for a new archive of the image `name` today, given the
    /// `images` that the store holds.
    pub fn generate_version(name: &str, images: &Vec<Image>) -> (r: String)
        ensures
            exists|today: Seq<char>| r@ == generated(images.deep_view(), name@, today),
            forall|k: int|
                0 <= k < images@.len() && (#[trigger] images.deep_view()[k]).name == name@
                    ==> images.deep_view()[k].version != r@,
    {
        let today = local_date();
        Self::generate_version_on(name, today.as_str(), images)
    }

    /// Whether `images` hold the image `name` in the version `version`.
    pub fn known(images: &Vec<Image>, name: &str, version: &str) -> (r: bool)
        ensures
            r == images.deep_view().contains(ImageView { name: name@, version: version@ }),
    {
        let ghost all = images.deep_view();
        let ghost wanted = ImageView { name: name@, version: version@ };
        let mut i: usize = 0;
        while i < images.len()
            invariant
                i <= images@.len(),
                all == images.deep_view(),
                wanted == (ImageView { name: name@, version: version@ }),
                forall|j: int| 0 <= j < i ==> all[j] != wanted,
            decreases images@.len() - i,
        {
            assert(all[i as int] == images@[i as int]@);
            let same_name = same(images[i].name.as_str(), name);
            let same_version = same(images[i].version.as_str(), version);
            if same_name && same_version {
                return true;
            }
            i = i + 1;
        }
        false
    }

    /// Decides on the import of the file at `path`, whose last part is
    /// `file_name`, on the day `today` into the store at `home` that holds
    /// `images`. A file that is no archive of an image, and an image that the
    /// store holds already in that version, are refused, and nothing is to be
    /// done to the store then. Else the image and the task that brings the
    /// file into the store are given.
    pub fn import_on(
        path: &str,
        is_file: bool,
        file_name: &str,
        today: &str,
        images: &Vec<Image>,
        home: &Data,
    ) -> (r: Result<(Image, Task), Error>)
        ensures
            imported(
                import_plan(is_file, file_name@, today@, images.deep_view(), home@),
                path@,
                r,
            ),
    {
        let found = match Self::from_metadata(is_file, file_name) {
            Some(image) => image,
            None => {
                return Err(Error::DataError(join(path, " is not a valid image file")));
            },
        };
        let version = if chars_of(found.version.as_str()).len() == 0 {
            Self::generate_version_on(found.name.as_str(), today, images)
        } else {
            found.version.clone()
        };
        if Self::known(images, found.name.as_str(), version.as_str()) {
            return Err(
                Error::DataError(join3("Image version ", version.as_str(), " already exists")),
            );
        }
        let image = Image { name: found.name, version };
        let target = image.path(home);
        Ok((image, Task::Link(text(path), target)))
    }

    /// Decides on the import of the file at `path` today; see
    /// [`Image::import_on`].
    pub fn import(
        path: &str,
        is_file: bool,
        file_name: &str,
        images: &Vec<Image>,
        home: &Data,
    ) -> (r: Result<(Image, Task), Error>)
        ensures
            exists|today: Seq<char>|
                imported(
                    #[trigger] import_plan(is_file, file_name@, today, images.deep_view(), home@),
                    path@,
                    r,
                ),
    {
        let today = local_date();
        Self::import_on(path, is_file, file_name, today.as_str(), images, home)
    }
}

} // verus!
