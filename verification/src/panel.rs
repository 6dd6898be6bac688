//! The rows of a directory listing and what selecting one of them does.

use crate::algebra::{components_of, is_canonical, name_of, parent_of};
use crate::error::VfsError;
use crate::order::{ordering_of, to_ordering};
use crate::path::AbsolutePath;
use crate::stat::{Kind, Stat};
use crate::text::{decimal, decimal_of, order_texts, same_text, text_order};
use crate::vfs::{Vfs, VfsResult};
use std::cmp::Ordering;
use vstd::prelude::*;

verus! {

/// A column of the listing.
#[derive(Copy, Clone, Debug, PartialEq, Eq, Hash, Structural)]
pub enum Data {
    Name,
    Kind,
    Len,
}

impl Data {
    /// The heading of the column.
    pub fn label(&self) -> (text: &'static str)
        ensures
            self is Name ==> text@ == "Name"@,
            self is Kind ==> text@ == "Kind"@,
            self is Len ==> text@ == "Len"@,
    {
        match self {
            Data::Name => "Name",
            Data::Kind => "Kind",
            Data::Len => "Len",
        }
    }
}

impl AsRef<str> for Data {
    fn as_ref(&self) -> (text: &str) {
        self.label()
    }
}

/// What a row shows.
pub struct FileView {
    pub name: Seq<char>,
    pub path: Seq<char>,
    pub kind: Kind,
    pub len: u64,
}

/// A row of the listing: an entry of the directory, or the row `..` that
/// leads to the parent.
pub struct File {
    name: String,
    full_path: AbsolutePath,
    kind: Kind,
    len: u64,
}

impl View for File {
    type V = FileView;

    closed spec fn view(&self) -> FileView {
        FileView { name: self.name@, path: self.full_path@, kind: self.kind, len: self.len }
    }
}

/// The text `..`.
pub open spec fn up() -> Seq<char> {
    seq!['.', '.']
}

/// The row that leads out of the directory `dir`. It carries the path of
/// `dir` itself.
pub open spec fn parent_row(dir: Seq<char>) -> FileView {
    FileView { name: up(), path: dir, kind: Kind::Folder, len: 0 }
}

/// The row of the entry at `path`, given what is known of it: its kind and
/// size where they could be had, `Unknown` and no size where they could
/// not.
pub open spec fn entry_row(path: Seq<char>, stat: Option<Stat>) -> FileView {
    match stat {
        Some(s) => FileView { name: name_of(path), path, kind: s.kind, len: s.size },
        None => FileView { name: name_of(path), path, kind: Kind::Unknown, len: 0 },
    }
}

/// The views of a sequence of rows.
pub open spec fn views(rows: Seq<File>) -> Seq<FileView> {
    Seq::new(rows.len(), |i: int| rows[i]@)
}

/// Where two rows stand to one another by `column`: by the order of a
/// dictionary for names, by `File < Folder < Link < Unknown` for kinds, by
/// size for lengths. Negative, zero or positive.
pub open spec fn row_order(a: FileView, b: FileView, column: Data) -> int {
    match column {
        Data::Name => text_order(a.name, b.name),
        Data::Kind => a.kind.rank_of() - b.kind.rank_of(),
        Data::Len => a.len - b.len,
    }
}

/// The index of the first row named `name`, if there is one.
pub open spec fn first_named(rows: Seq<FileView>, name: Seq<char>) -> Option<int> {
    if exists|i: int| 0 <= i < rows.len() && rows[i].name == name {
        Some(
            choose|i: int|
                0 <= i < rows.len() && rows[i].name == name && forall|j: int|
                    0 <= j < i ==> rows[j].name != name,
        )
    } else {
        None
    }
}

/// Where selecting a folder row leads: to the parent of the path it carries
/// if it is the row `..`, to its own path otherwise.
pub open spec fn destination_of(file: FileView) -> Seq<char> {
    if file.name == up() {
        parent_of(file.path)
    } else {
        file.path
    }
}

/// The row that the cursor is put on after `file` was selected and `rows`
/// are shown: coming up out of a directory, the first row named like that
/// directory, if there is one; no row otherwise.
pub open spec fn selection_of(file: FileView, rows: Seq<FileView>) -> Option<int> {
    if file.name == up() && components_of(file.path).len() > 0 {
        first_named(rows, name_of(file.path))
    } else {
        None
    }
}

/// What holds of every listing of the directory `dir`, whatever the
/// provider answered: outside the root the row `..` comes first and carries
/// `dir`, and every other row is named after the path it carries.
pub open spec fn well_listed(dir: Seq<char>, rows: Seq<FileView>) -> bool {
    &&& dir != seq!['/'] ==> rows.len() >= 1 && rows[0] == parent_row(dir)
    &&& named_after_paths(
        rows,
        if dir == seq!['/'] {
            0
        } else {
            1
        },
    )
}

impl File {
    pub fn new(name: String, full_path: AbsolutePath, kind: Kind, len: u64) -> (file: File)
        ensures
            file@ == (FileView { name: name@, path: full_path@, kind, len }),
    {
        File { name, full_path, kind, len }
    }

    pub fn name(&self) -> (text: &str)
        ensures
            text@ == self@.name,
    {
        self.name.as_str()
    }

    pub fn full_path(&self) -> (path: &AbsolutePath)
        ensures
            path@ == self@.path,
            is_canonical(self@.path),
    {
        let _ = self.full_path.as_str();
        &self.full_path
    }

    pub fn kind(&self) -> (kind: Kind)
        ensures
            kind == self@.kind,
    {
        self.kind
    }

    pub fn len(&self) -> (len: u64)
        ensures
            len == self@.len,
    {
        self.len
    }

    /// The row that leads out of the directory at `dir`.
    pub fn parent_of(dir: &AbsolutePath) -> (file: File)
        ensures
            file@ == parent_row(dir@),
    {
        let mut name = String::new();
        name.push('.');
        name.push('.');
        proof {
            assert(name@ =~= up());
        }
        File { name, full_path: dir.clone(), kind: Kind::Folder, len: 0 }
    }

    /// The row of the entry at `path`, given its kind and size where they
    /// could be had. An entry of which nothing is known is listed all the
    /// same, as `Unknown` and without a size.
    pub fn of_entry(path: AbsolutePath, stat: Option<Stat>) -> (file: File)
        ensures
            file@ == entry_row(path@, stat),
    {
        let name = path.name().to_owned();
        match stat {
            Some(s) => File { name, full_path: path, kind: s.kind, len: s.size },
            None => File { name, full_path: path, kind: Kind::Unknown, len: 0 },
        }
    }

    /// What the row shows in `column`: the name as it is, the kind by its
    /// lower-case name, the length in decimal.
    pub fn to_column(&self, column: Data) -> (text: String)
        ensures
            column is Name ==> text@ == self@.name,
            column is Kind ==> (self@.kind is File ==> text@ == "file"@) && (self@.kind is Folder
                ==> text@ == "folder"@) && (self@.kind is Link ==> text@ == "link"@) && (
            self@.kind is Unknown ==> text@ == "unknown"@),
            column is Len ==> text@ == decimal_of(self@.len as nat),
    {
        match column {
            Data::Name => self.name.clone(),
            Data::Kind => self.kind.as_str().to_owned(),
            Data::Len => decimal(self.len),
        }
    }

    /// Where this row stands to `other` by `column`, as a sign.
    pub fn order(&self, other: &File, column: Data) -> (sign: i8)
        ensures
            -1 <= sign <= 1,
            sign < 0 <==> row_order(self@, other@, column) < 0,
            sign == 0 <==> row_order(self@, other@, column) == 0,
    {
        match column {
            Data::Name => order_texts(self.name.as_str(), other.name.as_str()),
            Data::Kind => {
                let a = self.kind.rank();
                let b = other.kind.rank();
                if a < b {
                    -1
                } else if a == b {
                    0
                } else {
                    1
                }
            },
            Data::Len => {
                if self.len < other.len {
                    -1
                } else if self.len == other.len {
                    0
                } else {
                    1
                }
            },
        }
    }

    /// Where this row stands to `other` by `column`.
    pub fn compare(&self, other: &File, column: Data) -> (order: Ordering)
        ensures
            order == ordering_of(row_order(self@, other@, column)),
    {
        to_ordering(self.order(other, column))
    }

    /// Where selecting this row leads: nowhere unless it is a folder; to
    /// the parent of the path it carries if it is the row `..`; to its own
    /// path otherwise.
    pub fn destination(&self) -> (target: Option<AbsolutePath>)
        ensures
            !(self@.kind is Folder) ==> target is None,
            self@.kind is Folder ==> target is Some && target->0@ == destination_of(self@),
    {
        match self.kind {
            Kind::Folder => {
                if self.is_up() {
                    Some(self.full_path.parent())
                } else {
                    Some(self.full_path.clone())
                }
            },
            _ => None,
        }
    }

    /// Whether this is a row named `..`.
    pub fn is_up(&self) -> (answer: bool)
        ensures
            answer == (self@.name == up()),
    {
        let text = self.name.as_str();
        let len = text.unicode_len();
        if len != 2 {
            return false;
        }
        let answer = text.get_char(0) == '.' && text.get_char(1) == '.';
        proof {
            if answer {
                assert(self@.name =~= up());
            }
        }
        answer
    }
}

impl Clone for File {
    fn clone(&self) -> (copy: Self)
        ensures
            copy@ == self@,
    {
        File {
            name: self.name.clone(),
            full_path: self.full_path.clone(),
            kind: self.kind,
            len: self.len,
        }
    }
}

/// The rows for a directory: the row `..` first unless the directory is the
/// root, then the given rows as they come.
pub open spec fn listing_of(dir: Seq<char>, rows: Seq<FileView>) -> Seq<FileView> {
    if dir == seq!['/'] {
        rows
    } else {
        seq![parent_row(dir)] + rows
    }
}

/// Puts the row `..` before `rows` unless `dir` is the root.
pub fn with_parent(dir: &AbsolutePath, rows: Vec<File>) -> (files: Vec<File>)
    ensures
        views(files@) == listing_of(dir@, views(rows@)),
{
    if dir.is_root() {
        rows
    } else {
        let mut files = rows;
        let ghost before = views(files@);
        files.insert(0, File::parent_of(dir));
        proof {
            assert(views(files@) =~= seq![parent_row(dir@)] + before);
        }
        files
    }
}

/// Every row of `rows` from `from` on is named after the path it carries,
/// and that path is canonical.
pub open spec fn named_after_paths(rows: Seq<FileView>, from: int) -> bool {
    forall|i: int|
        from <= i < rows.len() ==> (#[trigger] rows[i]).name == name_of(rows[i].path)
            && is_canonical(rows[i].path)
}

/// The rows of the given entries, each with what is known of it.
pub open spec fn entry_rows(entries: Seq<(AbsolutePath, Option<Stat>)>) -> Seq<FileView> {
    Seq::new(entries.len(), |i: int| entry_row(entries[i].0@, entries[i].1))
}

/// The listing of the directory `dir` whose entries are `entries`, each
/// with its kind and size where they could be had: the row `..` first
/// unless `dir` is the root, then one row for each entry, in order.
pub fn assemble(dir: &AbsolutePath, entries: &Vec<(AbsolutePath, Option<Stat>)>) -> (files: Vec<
    File,
>)
    ensures
        views(files@) == listing_of(dir@, entry_rows(entries@)),
        well_listed(dir@, views(files@)),
{
    let mut rows: Vec<File> = Vec::new();
    let mut k: usize = 0;
    proof {
        assert(views(rows@) =~= entry_rows(entries@).take(0));
    }
    while k < entries.len()
        invariant
            k <= entries.len(),
            views(rows@) == entry_rows(entries@).take(k as int),
            named_after_paths(views(rows@), 0),
        decreases entries.len() - k,
    {
        let path = entries[k].0.clone();
        let ghost earlier = views(rows@);
        let _ = path.as_str();
        let row = File::of_entry(path, entries[k].1);
        rows.push(row);
        proof {
            assert(views(rows@) =~= earlier.push(row@));
            assert(entry_rows(entries@).take(k + 1) =~= entry_rows(entries@).take(k as int).push(
                row@,
            ));
        }
        k = k + 1;
    }
    let ghost listed = views(rows@);
    proof {
        assert(entry_rows(entries@).take(entries.len() as int) =~= entry_rows(entries@));
    }
    let files = with_parent(dir, rows);
    proof {
        if dir@ != seq!['/'] {
            assert(views(files@) == seq![parent_row(dir@)] + listed);
            assert(views(files@)[0] == parent_row(dir@));
            assert forall|i: int| 1 <= i < views(files@).len() implies (#[trigger] views(
                files@,
            )[i]).name == name_of(views(files@)[i].path) && is_canonical(views(files@)[i].path) by {
                assert(views(files@)[i] == listed[i - 1]);
            }
        }
    }
    files
}

/// Asks `provider` for the kind and size of each of `children`. A child
/// of which the provider tells nothing is kept, without a description.
pub fn describe(provider: &dyn Vfs, children: Vec<AbsolutePath>) -> (entries: Vec<
    (AbsolutePath, Option<Stat>),
>)
    ensures
        entries@.len() == children@.len(),
        forall|i: int| 0 <= i < children@.len() ==> (#[trigger] entries@[i]).0@ == children@[i]@,
{
    let mut entries: Vec<(AbsolutePath, Option<Stat>)> = Vec::new();
    let mut k: usize = 0;
    while k < children.len()
        invariant
            k <= children.len(),
            entries@.len() == k,
            forall|i: int| 0 <= i < k ==> (#[trigger] entries@[i]).0@ == children@[i]@,
        decreases children.len() - k,
    {
        let child = children[k].clone();
        let stat = match provider.stat(&child) {
            Ok(stat) => Some(stat),
            Err(_) => None,
        };
        entries.push((child, stat));
        k = k + 1;
    }
    entries
}

/// Lists the directory at `path`: asks `provider` for its entries and for
/// the kind and size of each, and puts the row `..` first unless the
/// directory is the root. Fails only where listing the directory does; an
/// entry whose kind and size cannot be had is listed as `Unknown`.
///
/// What the rows hold depends on the provider; [`assemble`] says what they
/// are for each answer. Whatever the answer, the row `..` is first outside
/// the root and carries `path`, and every other row is named after its
/// path.
pub fn list_files(provider: &dyn Vfs, path: &AbsolutePath) -> (listing: VfsResult<Vec<File>>)
    ensures
        listing matches Ok(files) ==> well_listed(path@, views(files@)),
{
    match provider.read_dir(path) {
        Err(e) => Err(e),
        Ok(children) => {
            let entries = describe(provider, children);
            Ok(assemble(path, &entries))
        },
    }
}

/// What the listing shows after a row was selected.
pub struct Navigation {
    /// The rows to show.
    pub items: Vec<File>,
    /// The row to put the cursor on, if any.
    pub selected: Option<usize>,
    /// Why the directory could not be listed, if it could not.
    pub failure: Option<VfsError>,
}

/// What to show after the folder row `file` was selected and the directory
/// it leads to was listed with the result `listing`. A directory that
/// cannot be listed shows the row `..` alone, which carries the path of
/// `file`, and the failure is reported. Coming up out of a directory puts
/// the cursor on the row of that directory, where there is one.
pub fn arrive(file: &File, listing: VfsResult<Vec<File>>) -> (shown: Navigation)
    ensures
        match listing {
            Ok(files) => shown.items == files && shown.failure is None,
            Err(e) => views(shown.items@) == seq![parent_row(file@.path)] && shown.failure
                == Some(e),
        },
        shown.selected matches Some(index) ==> index < shown.items@.len(),
        match shown.selected {
            Some(index) => selection_of(file@, views(shown.items@)) == Some(index as int),
            None => selection_of(file@, views(shown.items@)) is None,
        },
{
    let (items, failure) = match listing {
        Ok(files) => (files, None),
        Err(e) => {
            let mut alone: Vec<File> = Vec::new();
            alone.push(File::parent_of(file.full_path()));
            proof {
                assert(views(alone@) =~= seq![parent_row(file@.path)]);
            }
            (alone, Some(e))
        },
    };
    let selected = if file.is_up() && !file.full_path().is_root() {
        find_named(&items, file.full_path().name())
    } else {
        None
    };
    Navigation { items, selected, failure }
}

/// The index of the first row named `name`.
pub fn find_named(rows: &Vec<File>, name: &str) -> (found: Option<usize>)
    ensures
        match found {
            Some(index) => index < rows@.len() && first_named(views(rows@), name@) == Some(
                index as int,
            ),
            None => first_named(views(rows@), name@) is None,
        },
{
    let mut k: usize = 0;
    while k < rows.len()
        invariant
            k <= rows.len(),
            forall|j: int| 0 <= j < k ==> (#[trigger] views(rows@)[j]).name != name@,
        decreases rows.len() - k,
    {
        if same_text(rows[k].name(), name) {
            proof {
                let all = views(rows@);
                assert(all[k as int].name == name@);
                let pick = choose|i: int|
                    0 <= i < all.len() && all[i].name == name@ && forall|j: int|
                        0 <= j < i ==> all[j].name != name@;
                if pick < k {
                    assert(all[pick].name != name@);
                }
                if k < pick {
                    assert(all[k as int].name != name@);
                }
            }
            return Some(k);
        }
        k = k + 1;
    }
    None
}

/// Selects the row `file` in a listing of `provider`: lists the directory
/// that the row leads to and says what to show. Nothing happens for a row
/// that is no folder.
///
/// What the rows hold depends on the provider. Whatever it answers: where
/// the directory was listed, the rows are a listing of the directory that
/// the row leads to; where it was not, the row `..` is shown alone and
/// carries the path of `file`; and the cursor is where [`selection_of`]
/// says.
pub fn enter(provider: &dyn Vfs, file: &File) -> (shown: Option<Navigation>)
    ensures
        shown is Some <==> file@.kind is Folder,
        shown matches Some(navigation) ==> {
            &&& match navigation.failure {
                None => well_listed(destination_of(file@), views(navigation.items@)),
                Some(_) => views(navigation.items@) == seq![parent_row(file@.path)],
            }
            &&& navigation.selected matches Some(index) ==> index < navigation.items@.len()
            &&& match navigation.selected {
                Some(index) => selection_of(file@, views(navigation.items@)) == Some(
                    index as int,
                ),
                None => selection_of(file@, views(navigation.items@)) is None,
            }
        },
{
    match file.destination() {
        None => None,
        Some(target) => Some(arrive(file, list_files(provider, &target))),
    }
}

} // verus!
