//! Absolute paths held as plain values: a root (`/`, `C:\`) and the names of
//! the directories and file below it.

use vstd::prelude::*;
use crate::text::{chars_of, string_from};

verus! {

/// An absolute path: `root`, then `names` joined by `sep`.
#[derive(Debug)]
pub struct FsPath {
    pub root: String,
    pub sep: char,
    pub names: Vec<String>,
}

/// What a path is, as mathematical values.
pub struct PathView {
    pub root: Seq<char>,
    pub sep: char,
    pub names: Seq<Seq<char>>,
}

/// The characters of each string.
pub open spec fn views_of(v: Seq<String>) -> Seq<Seq<char>> {
    v.map_values(|s: String| s@)
}

impl View for FsPath {
    type V = PathView;

    open spec fn view(&self) -> PathView {
        PathView { root: self.root@, sep: self.sep, names: views_of(self.names@) }
    }
}

/// `names` written one after another with `sep` between two neighbours.
pub open spec fn joined(names: Seq<Seq<char>>, sep: char) -> Seq<char>
    decreases names.len(),
{
    if names.len() == 0 {
        Seq::empty()
    } else if names.len() == 1 {
        names[0]
    } else {
        joined(names.drop_last(), sep).push(sep) + names.last()
    }
}

/// The text of a path.
pub open spec fn display_of(p: PathView) -> Seq<char> {
    p.root + joined(p.names, p.sep)
}

/// The name a path is shown by: its last name, or at a root the root's text.
pub open spec fn label_of(p: PathView) -> Seq<char> {
    if p.names.len() > 0 {
        p.names.last()
    } else {
        display_of(p)
    }
}

/// The path one level up, if there is one.
pub open spec fn parent_of(p: PathView) -> Option<PathView> {
    if p.names.len() == 0 {
        None
    } else {
        Some(PathView { names: p.names.drop_last(), ..p })
    }
}

/// The path of the entry `name` inside the directory `p`.
pub open spec fn child_of(p: PathView, name: Seq<char>) -> PathView {
    PathView { names: p.names.push(name), ..p }
}

/// `name` can stand as one name in a path with separator `sep`: it is not
/// empty, holds no separator and is neither `.` nor `..`.
pub open spec fn is_component(name: Seq<char>, sep: char) -> bool {
    &&& name.len() > 0
    &&& !name.contains(sep)
    &&& !name.contains('/')
    &&& name != seq!['.']
    &&& name != seq!['.', '.']
}

/// Copies of the first `n` strings of `v`.
fn copy_names(v: &Vec<String>, n: usize) -> (r: Vec<String>)
    requires
        n <= v.len(),
    ensures
        views_of(r@) == views_of(v@.take(n as int)),
{
    let mut r: Vec<String> = Vec::new();
    for i in 0..n
        invariant
            n <= v.len(),
            views_of(r@) == views_of(v@.take(i as int)),
    {
        let ghost prev = r@;
        r.push(v[i].clone());
        assert(v@.take(i + 1) == v@.take(i as int).push(v@[i as int]));
        assert(views_of(prev.push(r@.last())) =~= views_of(prev).push(r@.last()@));
        assert(views_of(v@.take(i as int).push(v@[i as int])) =~= views_of(v@.take(i as int)).push(v@[i as int]@));
        assert(views_of(r@) =~= views_of(v@.take(i + 1)));
    }
    r
}

/// Whether `name` can stand as one name of a path with separator `sep`.
pub fn check_component(name: &Vec<char>, sep: char) -> (r: bool)
    ensures
        r == is_component(name@, sep),
{
    if name.len() == 0 {
        return false;
    }
    if name.len() == 1 && name[0] == '.' {
        assert(name@ == seq!['.']);
        return false;
    }
    if name.len() == 2 && name[0] == '.' && name[1] == '.' {
        assert(name@ == seq!['.', '.']);
        return false;
    }
    assert(name@ != seq!['.']);
    assert(name@ != seq!['.', '.']);
    let mut i: usize = 0;
    while i < name.len()
        invariant
            i <= name.len(),
            forall|k: int| 0 <= k < i ==> name@[k] != sep && name@[k] != '/',
        decreases name.len() - i,
    {
        if name[i] == sep || name[i] == '/' {
            assert(name@.contains(name@[i as int]));
            return false;
        }
        i = i + 1;
    }
    true
}

/// Whether `a` is `b` or lies below it.
pub fn within(a: &FsPath, b: &FsPath) -> (r: bool)
    ensures
        r == (a@.root == b@.root && b@.names.len() <= a@.names.len() && a@.names.take(b@.names.len() as int) == b@.names),
{
    let ra = chars_of(a.root.as_str());
    let rb = chars_of(b.root.as_str());
    if ra.len() != rb.len() {
        assert(ra@.len() != rb@.len());
        return false;
    }
    let mut k: usize = 0;
    while k < ra.len()
        invariant
            ra@ == a@.root,
            rb@ == b@.root,
            ra.len() == rb.len(),
            k <= ra.len(),
            forall|j: int| 0 <= j < k ==> ra@[j] == rb@[j],
        decreases ra.len() - k,
    {
        if ra[k] != rb[k] {
            assert(ra@[k as int] != rb@[k as int]);
            return false;
        }
        k = k + 1;
    }
    assert(ra@ == rb@);
    if b.names.len() > a.names.len() {
        return false;
    }
    let ghost an = views_of(a.names@);
    let ghost bn = views_of(b.names@);
    let mut i: usize = 0;
    while i < b.names.len()
        invariant
            an == views_of(a.names@),
            bn == views_of(b.names@),
            b.names.len() <= a.names.len(),
            i <= b.names.len(),
            forall|j: int| 0 <= j < i ==> an[j] == bn[j],
        decreases b.names.len() - i,
    {
        if !same_text(&a.names[i], &b.names[i]) {
            assert(an.take(bn.len() as int)[i as int] != bn[i as int]);
            return false;
        }
        i = i + 1;
    }
    assert(an.take(bn.len() as int) =~= bn);
    true
}

/// Whether two strings hold the same characters.
pub fn same_text(a: &String, b: &String) -> (r: bool)
    ensures
        r == (a@ == b@),
{
    let x = chars_of(a.as_str());
    let y = chars_of(b.as_str());
    if x.len() != y.len() {
        assert(x@.len() != y@.len());
        return false;
    }
    let mut k: usize = 0;
    while k < x.len()
        invariant
            x@ == a@,
            y@ == b@,
            x.len() == y.len(),
            k <= x.len(),
            forall|j: int| 0 <= j < k ==> x@[j] == y@[j],
        decreases x.len() - k,
    {
        if x[k] != y[k] {
            assert(x@[k as int] != y@[k as int]);
            return false;
        }
        k = k + 1;
    }
    assert(x@ =~= y@);
    true
}

impl Clone for FsPath {
    fn clone(&self) -> (r: FsPath)
        ensures
            r@ == self@,
    {
        let names = copy_names(&self.names, self.names.len());
        assert(self.names@.take(self.names.len() as int) == self.names@);
        FsPath { root: self.root.clone(), sep: self.sep, names }
    }
}

impl FsPath {
    /// The root itself, with nothing below it.
    pub fn new(root: String, sep: char) -> (r: FsPath)
        ensures
            r@ == (PathView { root: root@, sep, names: Seq::empty() }),
    {
        let r = FsPath { root, sep, names: Vec::new() };
        assert(views_of(r.names@) =~= Seq::empty());
        r
    }

    /// The path one level up; `None` at the root.
    pub fn parent(&self) -> (r: Option<FsPath>)
        ensures
            r matches Some(q) ==> parent_of(self@) == Some(q@),
            r is None <==> parent_of(self@) is None,
    {
        if self.names.len() == 0 {
            None
        } else {
            let names = copy_names(&self.names, self.names.len() - 1);
            assert(views_of(self.names@.take(self.names.len() - 1)) =~= views_of(self.names@).drop_last());
            Some(FsPath { root: self.root.clone(), sep: self.sep, names })
        }
    }

    /// The last name of the path; `None` at the root.
    pub fn file_name(&self) -> (r: Option<String>)
        ensures
            r matches Some(n) ==> self@.names.len() > 0 && n@ == self@.names.last(),
            r is None <==> self@.names.len() == 0,
    {
        if self.names.len() == 0 {
            None
        } else {
            Some(self.names[self.names.len() - 1].clone())
        }
    }

    /// The path of the entry `name` inside this directory.
    pub fn join(&self, name: &String) -> (r: FsPath)
        ensures
            r@ == child_of(self@, name@),
    {
        let mut r = self.clone();
        r.names.push(name.clone());
        assert(views_of(r.names@) =~= views_of(self.names@).push(name@));
        r
    }

    /// The text of the path: the root, then the names joined by the separator.
    pub fn display(&self) -> (r: String)
        ensures
            r@ == display_of(self@),
    {
        let mut text = chars_of(self.root.as_str());
        let ghost names = views_of(self.names@);
        for i in 0..self.names.len()
            invariant
                names == views_of(self.names@),
                text@ == self.root@ + joined(names.take(i as int), self.sep),
        {
            if i > 0 {
                text.push(self.sep);
            }
            let name = chars_of(self.names[i].as_str());
            let mut k: usize = 0;
            let ghost before = text@;
            while k < name.len()
                invariant
                    k <= name.len(),
                    text@ == before + name@.take(k as int),
                decreases name.len() - k,
            {
                text.push(name[k]);
                k = k + 1;
                assert(text@ =~= before + name@.take(k as int));
            }
            assert(name@.take(name.len() as int) == name@);
            assert(names.take(i + 1).drop_last() == names.take(i as int));
            assert(text@ =~= self.root@ + joined(names.take(i + 1), self.sep));
        }
        assert(names.take(self.names.len() as int) == names);
        string_from(&text)
    }
}

} // verus!
