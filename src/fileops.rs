//! File operations, planned as [`FileOp`] values that the caller carries out
//! against the filesystem, and what a rename shows once the directory is
//! listed again.

use vstd::prelude::*;
use crate::error::FsError;
use crate::listing::{
    EntryView, RawEntry, children, entry_of, filtered, is_child, lemma_arrange_keeps_entries, listing_of, name_matches,
};
use crate::path::{FsPath, PathView, child_of, is_component};
use crate::text::{chars_of, string_from};

verus! {

/// A filesystem action for the caller to carry out.
#[derive(Debug)]
pub enum FileOp {
    /// Hand the path to the operating system's default application.
    Open(FsPath),
    /// Move `from` to `to`, failing if `to` exists.
    Rename { from: FsPath, to: FsPath },
    /// Copy the file `from` to `to`, failing if `to` exists.
    Copy { from: FsPath, to: FsPath },
    /// Move the path to the trash.
    Trash(FsPath),
    /// Create an empty file, failing if the path exists.
    CreateFile(FsPath),
    /// Create an empty directory, failing if the path exists.
    CreateDir(FsPath),
}

pub enum OpView {
    Open(PathView),
    Rename { from: PathView, to: PathView },
    Copy { from: PathView, to: PathView },
    Trash(PathView),
    CreateFile(PathView),
    CreateDir(PathView),
}

impl View for FileOp {
    type V = OpView;

    open spec fn view(&self) -> OpView {
        match self {
            FileOp::Open(p) => OpView::Open(p@),
            FileOp::Rename { from, to } => OpView::Rename { from: from@, to: to@ },
            FileOp::Copy { from, to } => OpView::Copy { from: from@, to: to@ },
            FileOp::Trash(p) => OpView::Trash(p@),
            FileOp::CreateFile(p) => OpView::CreateFile(p@),
            FileOp::CreateDir(p) => OpView::CreateDir(p@),
        }
    }
}

pub open spec fn op_result_view(r: Result<FileOp, FsError>) -> Result<OpView, FsError> {
    match r {
        Ok(op) => Ok(op@),
        Err(e) => Err(e),
    }
}

/// The sibling of `p` named `new_name`: only the last name changes.
pub open spec fn renamed_path(new_name: Seq<char>, p: PathView) -> PathView {
    PathView { names: p.names.drop_last().push(new_name), ..p }
}

/// What renaming `p` to `new_name` asks for.
pub open spec fn rename_plan(new_name: Seq<char>, p: PathView) -> Result<OpView, FsError> {
    if p.names.len() == 0 || !is_component(new_name, p.sep) {
        Err(FsError::InvalidOperation)
    } else {
        Ok(OpView::Rename { from: p, to: renamed_path(new_name, p) })
    }
}

/// `a` is `b` or lies below it.
pub open spec fn is_within(a: PathView, b: PathView) -> bool {
    a.root == b.root && b.names.len() <= a.names.len() && a.names.take(b.names.len() as int) == b.names
}

/// What copying `from` into the directory `to_dir` asks for.
pub open spec fn copy_plan(from: PathView, to_dir: PathView) -> Result<OpView, FsError> {
    if from.names.len() == 0 {
        Err(FsError::InvalidOperation)
    } else {
        Ok(OpView::Copy { from, to: child_of(to_dir, from.names.last()) })
    }
}

/// What moving `from` into the directory `to_dir` asks for; a directory cannot
/// move into itself or below itself.
pub open spec fn cut_plan(from: PathView, to_dir: PathView) -> Result<OpView, FsError> {
    if from.names.len() == 0 || is_within(to_dir, from) {
        Err(FsError::InvalidOperation)
    } else {
        Ok(OpView::Rename { from, to: child_of(to_dir, from.names.last()) })
    }
}

/// What moving `p` to the trash asks for; a root cannot be deleted.
pub open spec fn delete_plan(p: PathView) -> Result<OpView, FsError> {
    if p.names.len() == 0 {
        Err(FsError::InvalidOperation)
    } else {
        Ok(OpView::Trash(p))
    }
}

/// What creating an empty file at `p` asks for; a root always exists.
pub open spec fn create_file_plan(p: PathView) -> Result<OpView, FsError> {
    if p.names.len() == 0 {
        Err(FsError::AlreadyExists)
    } else {
        Ok(OpView::CreateFile(p))
    }
}

/// What creating an empty directory at `p` asks for; a root always exists.
pub open spec fn create_dir_plan(p: PathView) -> Result<OpView, FsError> {
    if p.names.len() == 0 {
        Err(FsError::AlreadyExists)
    } else {
        Ok(OpView::CreateDir(p))
    }
}

/// Plans opening `path` with its default application.
pub fn open(path: &FsPath) -> (r: FileOp)
    ensures
        r@ == OpView::Open(path@),
{
    FileOp::Open(path.clone())
}

/// Plans renaming `file` to `new_name` inside the same directory. Fails with
/// `InvalidOperation` at a root or when `new_name` is not a single name.
pub fn rename(new_name: &str, file: &FsPath) -> (r: Result<FileOp, FsError>)
    ensures
        op_result_view(r) == rename_plan(new_name@, file@),
{
    let name = chars_of(new_name);
    if file.names.len() == 0 || !crate::path::check_component(&name, file.sep) {
        return Err(FsError::InvalidOperation);
    }
    let up = file.parent();
    match up {
        Some(dir) => {
            let target = dir.join(&string_from(&name));
            Ok(FileOp::Rename { from: file.clone(), to: target })
        },
        None => Err(FsError::InvalidOperation),
    }
}

/// Plans moving `file` to the trash. A root cannot be deleted.
pub fn delete(file: &FsPath) -> (r: Result<FileOp, FsError>)
    ensures
        op_result_view(r) == delete_plan(file@),
{
    if file.names.len() == 0 {
        Err(FsError::InvalidOperation)
    } else {
        Ok(FileOp::Trash(file.clone()))
    }
}

/// Plans copying the file `from` into the directory `to`, under its own name.
pub fn copy(from: &FsPath, to: &FsPath) -> (r: Result<FileOp, FsError>)
    ensures
        op_result_view(r) == copy_plan(from@, to@),
{
    match from.file_name() {
        Some(name) => Ok(FileOp::Copy { from: from.clone(), to: to.join(&name) }),
        None => Err(FsError::InvalidOperation),
    }
}

/// Plans moving `from` into the directory `to`, under its own name.
pub fn cut(from: &FsPath, to: &FsPath) -> (r: Result<FileOp, FsError>)
    ensures
        op_result_view(r) == cut_plan(from@, to@),
{
    if crate::path::within(to, from) {
        return Err(FsError::InvalidOperation);
    }
    match from.file_name() {
        Some(name) => Ok(FileOp::Rename { from: from.clone(), to: to.join(&name) }),
        None => Err(FsError::InvalidOperation),
    }
}

/// Plans creating an empty file at `path`. A root cannot be created.
pub fn create_file(path: &FsPath) -> (r: Result<FileOp, FsError>)
    ensures
        op_result_view(r) == create_file_plan(path@),
{
    if path.names.len() == 0 {
        Err(FsError::AlreadyExists)
    } else {
        Ok(FileOp::CreateFile(path.clone()))
    }
}

/// Plans creating an empty directory at `path`. A root cannot be created.
pub fn create_dir(path: &FsPath) -> (r: Result<FileOp, FsError>)
    ensures
        op_result_view(r) == create_dir_plan(path@),
{
    if path.names.len() == 0 {
        Err(FsError::AlreadyExists)
    } else {
        Ok(FileOp::CreateDir(path.clone()))
    }
}

/// `after` is the enumeration `before` once the children named `old_name`
/// are named `new_name`, everything else as it was.
pub open spec fn renamed_enumeration(
    before: Seq<RawEntry>,
    after: Seq<RawEntry>,
    old_name: Seq<char>,
    new_name: Seq<char>,
) -> bool {
    &&& after.len() == before.len()
    &&& forall|i: int|
        0 <= i < before.len() ==> {
            &&& #[trigger] after[i].depth == before[i].depth
            &&& after[i].readable == before[i].readable
            &&& after[i].is_dir == before[i].is_dir
            &&& after[i].name@ == if before[i].depth == 1 && before[i].name@ == old_name {
                new_name
            } else {
                before[i].name@
            }
        }
}

/// Renaming `p` to `new_name` and listing its directory again shows an entry
/// named `new_name`, at the path the rename planned, and none with the old
/// name, when no child of the directory had the new name before.
pub proof fn lemma_rename_round_trip(
    new_name: Seq<char>,
    p: PathView,
    before: Seq<RawEntry>,
    after: Seq<RawEntry>,
    filter: Option<Seq<char>>,
)
    requires
        rename_plan(new_name, p) is Ok,
        exists|i: int| 0 <= i < before.len() && is_child(before[i]) && #[trigger] before[i].name@ == p.names.last(),
        forall|i: int| 0 <= i < before.len() && before[i].depth == 1 ==> #[trigger] before[i].name@ != new_name,
        renamed_enumeration(before, after, p.names.last(), new_name),
        filter matches Some(f) ==> name_matches(new_name, f),
    ensures
        rename_plan(new_name, p) == Ok::<OpView, FsError>(
            OpView::Rename { from: p, to: child_of(PathView { names: p.names.drop_last(), ..p }, new_name) },
        ),
        exists|j: int| 0 <= j < listing_of(after, filter).len() && #[trigger] listing_of(after, filter)[j].name == new_name,
        forall|j: int| 0 <= j < listing_of(after, filter).len() ==> #[trigger] listing_of(after, filter)[j].name != p.names.last(),
{
    broadcast use vstd::seq_lib::group_to_multiset_ensures;
    broadcast use vstd::seq_lib::group_filter_ensures;

    let old_name = p.names.last();
    let pc = |r: RawEntry| is_child(r);
    let i0 = choose|i: int| 0 <= i < before.len() && is_child(before[i]) && #[trigger] before[i].name@ == old_name;
    assert(old_name != new_name);
    let kept = after.filter(pc);
    let c = children(after);
    let fl = filtered(c, filter);
    let l = listing_of(after, filter);
    lemma_arrange_keeps_entries(fl);

    // The renamed child is listed.
    assert(pc(after[i0]));
    assert(kept.contains(after[i0]));
    let k = choose|k: int| 0 <= k < kept.len() && kept[k] == after[i0];
    assert(c[k] == entry_of(after[i0]));
    let e = entry_of(after[i0]);
    assert(c.contains(e));
    match filter {
        None => {},
        Some(f) => {
            assert(c.filter(|x: EntryView| name_matches(x.name, f)).contains(c[k]));
        },
    }
    assert(fl.contains(e));
    assert(fl.to_multiset().count(e) > 0);
    assert(l.contains(e));
    assert(e.name == new_name);

    // Nothing listed has the old name.
    assert forall|j: int| 0 <= j < l.len() implies #[trigger] l[j].name != old_name by {
        let x = l[j];
        assert(l.contains(x));
        assert(l.to_multiset().count(x) > 0);
        assert(fl.to_multiset().count(x) > 0);
        assert(fl.contains(x));
        match filter {
            None => {},
            Some(f) => {
                c.lemma_filter_contains_rev(|y: EntryView| name_matches(y.name, f), x);
            },
        }
        assert(c.contains(x));
        let m = choose|m: int| 0 <= m < c.len() && c[m] == x;
        assert(kept.contains(kept[m]));
        after.lemma_filter_contains_rev(pc, kept[m]);
        let n = choose|n: int| 0 <= n < after.len() && after[n] == kept[m];
        assert(pc(kept[m]));
        assert(after[n].depth == before[n].depth);
    }
}

} // verus!
