//! The navigation state of one browsing session: the current directory, its
//! listing, and the history of visited directories with a cursor.

use vstd::prelude::*;
use crate::error::FsError;
use crate::listing::{Entry, EntryView, RawEntry, entries_view, list, listing_of};
use crate::path::{FsPath, PathView, display_of, label_of};

verus! {

/// The navigation state as mathematical values.
pub struct NavView {
    pub current: PathView,
    pub files: Seq<EntryView>,
    pub history: Seq<PathView>,
    pub cursor: nat,
}

/// The cursor points at the current directory in the history, unless nothing
/// has been visited yet.
pub open spec fn nav_wf(s: NavView) -> bool {
    if s.history.len() == 0 {
        s.cursor == 0
    } else {
        s.cursor < s.history.len() && s.history[s.cursor as int] == s.current
    }
}

/// A session bound to `root`, showing `files`, that has visited nothing.
pub open spec fn fresh(root: PathView, files: Seq<EntryView>) -> NavView {
    NavView { current: root, files, history: Seq::empty(), cursor: 0 }
}

/// What a new session shows for the enumeration `scan` of its root: the
/// whole listing, or nothing when the root could not be enumerated.
pub open spec fn initial_listing(scan: Result<Vec<RawEntry>, FsError>) -> Seq<EntryView> {
    match scan {
        Ok(raw) => listing_of(raw@, None),
        Err(_) => Seq::empty(),
    }
}

/// After a successful change of directory to `p` with listing `files`: the
/// history forward of the cursor is dropped, `p` is appended and becomes the
/// cursor's place.
pub open spec fn visited(s: NavView, p: PathView, files: Seq<EntryView>) -> NavView {
    let kept = if s.history.len() == 0 {
        Seq::empty()
    } else {
        s.history.take(s.cursor + 1int)
    };
    NavView { current: p, files, history: kept.push(p), cursor: kept.len() }
}

/// One step back in the history, listing the directory found there; at the
/// start of the history nothing changes.
pub open spec fn back(s: NavView, files: Seq<EntryView>) -> NavView {
    if s.cursor > 0 {
        NavView { current: s.history[s.cursor - 1], files, cursor: (s.cursor - 1) as nat, ..s }
    } else {
        s
    }
}

/// One step forward in the history; at its end nothing changes.
pub open spec fn forward(s: NavView, files: Seq<EntryView>) -> NavView {
    if s.cursor + 1 < s.history.len() {
        NavView { current: s.history[s.cursor + 1int], files, cursor: s.cursor + 1, ..s }
    } else {
        s
    }
}

/// The same place with a new listing.
pub open spec fn relisted(s: NavView, files: Seq<EntryView>) -> NavView {
    NavView { files, ..s }
}

/// Where a step back would lead.
pub open spec fn back_target_of(s: NavView) -> Option<PathView> {
    if s.cursor > 0 { Some(s.history[s.cursor - 1]) } else { None }
}

/// Where a step forward would lead.
pub open spec fn forward_target_of(s: NavView) -> Option<PathView> {
    if s.cursor + 1 < s.history.len() { Some(s.history[s.cursor + 1int]) } else { None }
}

/// Successful visits of `paths` in order, the `i`-th one listed as
/// `listings[i]`.
pub open spec fn visit_all(s: NavView, paths: Seq<PathView>, listings: Seq<Seq<EntryView>>) -> NavView
    decreases paths.len(),
{
    if paths.len() == 0 {
        s
    } else {
        visited(visit_all(s, paths.drop_last(), listings), paths.last(), listings[paths.len() - 1])
    }
}

/// Steps back once for each listing in `ls`, in order.
pub open spec fn backs(s: NavView, ls: Seq<Seq<EntryView>>) -> NavView
    decreases ls.len(),
{
    if ls.len() == 0 {
        s
    } else {
        back(backs(s, ls.drop_last()), ls.last())
    }
}

/// Steps forward once for each listing in `ls`, in order.
pub open spec fn forwards(s: NavView, ls: Seq<Seq<EntryView>>) -> NavView
    decreases ls.len(),
{
    if ls.len() == 0 {
        s
    } else {
        forward(forwards(s, ls.drop_last()), ls.last())
    }
}

proof fn lemma_visits(root: PathView, start: Seq<EntryView>, paths: Seq<PathView>, listings: Seq<Seq<EntryView>>)
    requires
        paths.len() <= listings.len(),
    ensures
        ({
            let t = visit_all(fresh(root, start), paths, listings);
            &&& nav_wf(t)
            &&& t.history == paths
            &&& paths.len() > 0 ==> t.cursor == paths.len() - 1
        }),
    decreases paths.len(),
{
    if paths.len() > 0 {
        let prefix = paths.drop_last();
        lemma_visits(root, start, prefix, listings);
        let t0 = visit_all(fresh(root, start), prefix, listings);
        if prefix.len() > 0 {
            assert(t0.history.take(t0.cursor + 1int) == prefix);
        }
        assert(prefix.push(paths.last()) == paths);
    }
}

/// After `N` successful changes of directory from a fresh session, the
/// history is exactly the `N` visited paths, the cursor is at its end, and
/// the last of them is the current directory.
pub proof fn lemma_history_records_visits(root: PathView, start: Seq<EntryView>, paths: Seq<PathView>, listings: Seq<Seq<EntryView>>)
    requires
        listings.len() == paths.len(),
    ensures
        ({
            let t = visit_all(fresh(root, start), paths, listings);
            &&& nav_wf(t)
            &&& t.history == paths
            &&& t.history.len() == paths.len()
            &&& paths.len() > 0 ==> t.cursor == paths.len() - 1 && t.history[t.history.len() - 1] == t.current
        }),
{
    lemma_visits(root, start, paths, listings);
}

proof fn lemma_backs(s: NavView, ls: Seq<Seq<EntryView>>)
    requires
        nav_wf(s),
        ls.len() <= s.cursor,
    ensures
        ({
            let t = backs(s, ls);
            &&& nav_wf(t)
            &&& t.history == s.history
            &&& t.cursor == s.cursor - ls.len()
            &&& ls.len() > 0 ==> t.files == ls.last()
        }),
    decreases ls.len(),
{
    if ls.len() > 0 {
        lemma_backs(s, ls.drop_last());
    }
}

proof fn lemma_forwards(s: NavView, ls: Seq<Seq<EntryView>>)
    requires
        nav_wf(s),
        ls.len() == 0 || s.cursor + ls.len() < s.history.len(),
    ensures
        ({
            let t = forwards(s, ls);
            &&& nav_wf(t)
            &&& t.history == s.history
            &&& t.cursor == s.cursor + ls.len()
            &&& ls.len() > 0 ==> t.files == ls.last()
        }),
    decreases ls.len(),
{
    if ls.len() > 0 {
        lemma_forwards(s, ls.drop_last());
    }
}

/// Stepping back `k` times (`k` at most the cursor) and then forward `k`
/// times returns to the directory of before the rewind, with the history and
/// cursor as they were, and with the listing of the last step.
pub proof fn lemma_rewind_and_return(s: NavView, back_listings: Seq<Seq<EntryView>>, forward_listings: Seq<Seq<EntryView>>)
    requires
        nav_wf(s),
        back_listings.len() == forward_listings.len(),
        back_listings.len() <= s.cursor,
    ensures
        ({
            let t = forwards(backs(s, back_listings), forward_listings);
            &&& nav_wf(t)
            &&& t.current == s.current
            &&& t.history == s.history
            &&& t.cursor == s.cursor
            &&& forward_listings.len() > 0 ==> t.files == forward_listings.last()
        }),
{
    lemma_backs(s, back_listings);
    lemma_forwards(backs(s, back_listings), forward_listings);
}

/// Listing the current directory twice from the same enumeration gives the
/// same state, and so the same listing, as listing it once.
pub proof fn lemma_refresh_idempotent(s: NavView, raw: Seq<RawEntry>, filter: Option<Seq<char>>)
    ensures
        relisted(relisted(s, listing_of(raw, filter)), listing_of(raw, filter)) == relisted(s, listing_of(raw, filter)),
        relisted(s, listing_of(raw, filter)).files == listing_of(raw, filter),
{
}

/// With at most one visited directory, a step back changes nothing.
pub proof fn lemma_back_at_start(s: NavView, files: Seq<EntryView>)
    requires
        nav_wf(s),
        s.history.len() <= 1,
    ensures
        back(s, files) == s,
        back_target_of(s) is None,
{
}

pub open spec fn paths_view(v: Seq<FsPath>) -> Seq<PathView> {
    v.map_values(|p: FsPath| p@)
}

/// The visited directories and the place of the current one among them.
struct History {
    paths: Vec<FsPath>,
    cursor: usize,
}

impl History {
    #[verifier::type_invariant]
    spec fn inv(self) -> bool {
        if self.paths.len() == 0 {
            self.cursor == 0
        } else {
            self.cursor < self.paths.len()
        }
    }

    closed spec fn paths_v(self) -> Seq<PathView> {
        paths_view(self.paths@)
    }

    closed spec fn cursor_v(self) -> nat {
        self.cursor as nat
    }

    fn empty() -> (r: History)
        ensures
            r.paths_v() == Seq::<PathView>::empty(),
            r.cursor_v() == 0,
    {
        let r = History { paths: Vec::new(), cursor: 0 };
        assert(paths_view(r.paths@) =~= Seq::empty());
        r
    }

    fn len(&self) -> (r: usize)
        ensures
            r == self.paths_v().len(),
            r == 0 ==> self.cursor_v() == 0,
            r > 0 ==> self.cursor_v() < r,
    {
        proof {
            use_type_invariant(self);
        }
        self.paths.len()
    }

    fn cursor(&self) -> (r: usize)
        ensures
            r == self.cursor_v(),
    {
        self.cursor
    }

    fn at(&self, i: usize) -> (r: &FsPath)
        requires
            i < self.paths_v().len(),
        ensures
            r@ == self.paths_v()[i as int],
    {
        &self.paths[i]
    }

    /// The history after visiting `p`: the part forward of the cursor is
    /// dropped and `p` is appended.
    fn visit(self, p: FsPath) -> (r: History)
        ensures
            ({
                let kept = if self.paths_v().len() == 0 {
                    Seq::empty()
                } else {
                    self.paths_v().take(self.cursor_v() + 1int)
                };
                &&& r.paths_v() == kept.push(p@)
                &&& r.cursor_v() == kept.len()
            }),
    {
        proof {
            use_type_invariant(&self);
        }
        let ghost hist = self.paths_v();
        let ghost cur = self.cursor_v();
        let History { mut paths, cursor } = self;
        if paths.len() > 0 {
            paths.truncate(cursor + 1);
            assert(paths_view(paths@) =~= hist.take(cur + 1int));
        }
        let ghost kept = paths_view(paths@);
        let place = paths.len();
        paths.push(p);
        assert(paths_view(paths@) =~= kept.push(p@));
        History { paths, cursor: place }
    }

    /// Moves the cursor to `i`.
    fn move_to(&mut self, i: usize)
        requires
            i < old(self).paths_v().len(),
        ensures
            final(self).paths_v() == old(self).paths_v(),
            final(self).cursor_v() == i,
    {
        self.cursor = i;
    }
}

/// The navigation state. Directory contents come from the caller as the
/// result of enumerating a directory (`Ok` with the items, or the error that
/// the enumeration met); a failed enumeration leaves the state unchanged.
/// Before the first visit the current directory is the root the state was
/// made with; after it, the history entry under the cursor. A visit made
/// after stepping back drops the directories forward of the cursor, as a web
/// browser does.
pub struct Ex {
    files: Vec<Entry>,
    root: FsPath,
    hist: History,
}

impl View for Ex {
    type V = NavView;

    closed spec fn view(&self) -> NavView {
        NavView {
            current: if self.hist.paths_v().len() == 0 {
                self.root@
            } else {
                self.hist.paths_v()[self.hist.cursor_v() as int]
            },
            files: entries_view(self.files@),
            history: self.hist.paths_v(),
            cursor: self.hist.cursor_v(),
        }
    }
}

impl Ex {
    /// A session bound to `root`, whose enumeration is `scan`: it lists the
    /// root without a filter (nothing when the enumeration failed) and its
    /// history is empty, so the root is not counted as a visit.
    pub fn new(root: FsPath, scan: Result<Vec<RawEntry>, FsError>) -> (r: Ex)
        ensures
            r@ == fresh(root@, initial_listing(scan)),
            nav_wf(r@),
    {
        let files = match scan {
            Ok(raw) => list(&raw, None),
            Err(_) => Vec::new(),
        };
        let r = Ex { files, root, hist: History::empty() };
        assert(entries_view(r.files@) =~= initial_listing(scan));
        r
    }

    /// Changes to the directory `path`, whose enumeration is `scan`, listing it
    /// under the search filter `search`. On an enumeration error nothing
    /// changes and the error is returned.
    pub fn set_directory(&mut self, path: FsPath, scan: Result<Vec<RawEntry>, FsError>, search: &str) -> (r: Result<(), FsError>)
        ensures
            nav_wf(final(self)@),
            match scan {
                Ok(raw) => r is Ok && final(self)@ == visited(old(self)@, path@, listing_of(raw@, Some(search@))),
                Err(e) => r == Err::<(), FsError>(e) && final(self)@ == old(self)@,
            },
    {
        proof {
            use_type_invariant(&self.hist);
        }
        match scan {
            Err(e) => Err(e),
            Ok(raw) => {
                let files = list(&raw, Some(search));
                let mut old_hist = History::empty();
                std::mem::swap(&mut self.hist, &mut old_hist);
                let hist = old_hist.visit(path);
                self.hist = hist;
                proof {
                    use_type_invariant(&self.hist);
                }
                self.files = files;
                assert(self@.history =~= visited(old(self)@, path@, listing_of(raw@, Some(search@))).history);
                Ok(())
            },
        }
    }

    /// Lists the current directory again from a new enumeration `scan`; the
    /// place and the history stay. On an enumeration error nothing changes.
    pub fn refresh(&mut self, scan: Result<Vec<RawEntry>, FsError>, search: &str) -> (r: Result<(), FsError>)
        ensures
            nav_wf(final(self)@),
            match scan {
                Ok(raw) => r is Ok && final(self)@ == relisted(old(self)@, listing_of(raw@, Some(search@))),
                Err(e) => r == Err::<(), FsError>(e) && final(self)@ == old(self)@,
            },
    {
        proof {
            use_type_invariant(&self.hist);
        }
        match scan {
            Err(e) => Err(e),
            Ok(raw) => {
                self.files = list(&raw, Some(search));
                Ok(())
            },
        }
    }

    /// The directory one step back in the history, if any.
    pub fn back_target(&self) -> (r: Option<FsPath>)
        ensures
            r matches Some(p) ==> back_target_of(self@) == Some(p@),
            r is None <==> back_target_of(self@) is None,
    {
        proof {
            use_type_invariant(&self.hist);
        }
        let c = self.hist.cursor();
        if c > 0 {
            Some(self.hist.at(c - 1).clone())
        } else {
            None
        }
    }

    /// The directory one step forward in the history, if any.
    pub fn forward_target(&self) -> (r: Option<FsPath>)
        ensures
            r matches Some(p) ==> forward_target_of(self@) == Some(p@),
            r is None <==> forward_target_of(self@) is None,
    {
        proof {
            use_type_invariant(&self.hist);
        }
        let c = self.hist.cursor();
        if self.hist.len() > 0 && c < self.hist.len() - 1 {
            Some(self.hist.at(c + 1).clone())
        } else {
            None
        }
    }

    /// Steps back in the history to the directory that `back_target` names,
    /// whose enumeration is `scan`. At the start of the history, or on an
    /// enumeration error, nothing changes.
    pub fn previous(&mut self, scan: Result<Vec<RawEntry>, FsError>, search: &str) -> (r: Result<(), FsError>)
        ensures
            nav_wf(final(self)@),
            back_target_of(old(self)@) is None ==> r is Ok && final(self)@ == old(self)@,
            back_target_of(old(self)@) is Some ==> match scan {
                Ok(raw) => r is Ok && final(self)@ == back(old(self)@, listing_of(raw@, Some(search@))),
                Err(e) => r == Err::<(), FsError>(e) && final(self)@ == old(self)@,
            },
    {
        proof {
            use_type_invariant(&self.hist);
        }
        let c = self.hist.cursor();
        if c == 0 {
            return Ok(());
        }
        match scan {
            Err(e) => Err(e),
            Ok(raw) => {
                self.files = list(&raw, Some(search));
                self.hist.move_to(c - 1);
                Ok(())
            },
        }
    }

    /// Steps forward in the history to the directory that `forward_target`
    /// names, whose enumeration is `scan`. At the end of the history, or on an
    /// enumeration error, nothing changes.
    pub fn next(&mut self, scan: Result<Vec<RawEntry>, FsError>, search: &str) -> (r: Result<(), FsError>)
        ensures
            nav_wf(final(self)@),
            forward_target_of(old(self)@) is None ==> r is Ok && final(self)@ == old(self)@,
            forward_target_of(old(self)@) is Some ==> match scan {
                Ok(raw) => r is Ok && final(self)@ == forward(old(self)@, listing_of(raw@, Some(search@))),
                Err(e) => r == Err::<(), FsError>(e) && final(self)@ == old(self)@,
            },
    {
        proof {
            use_type_invariant(&self.hist);
        }
        let c = self.hist.cursor();
        if self.hist.len() == 0 || c >= self.hist.len() - 1 {
            return Ok(());
        }
        match scan {
            Err(e) => Err(e),
            Ok(raw) => {
                self.files = list(&raw, Some(search));
                self.hist.move_to(c + 1);
                Ok(())
            },
        }
    }

    /// Changes to the parent of the current directory, whose enumeration is
    /// `scan`; this is a new visit and is appended to the history. At a root
    /// nothing changes.
    pub fn previous_dir(&mut self, scan: Result<Vec<RawEntry>, FsError>, search: &str) -> (r: Result<(), FsError>)
        ensures
            nav_wf(final(self)@),
            old(self)@.current.names.len() == 0 ==> r is Ok && final(self)@ == old(self)@,
            old(self)@.current.names.len() > 0 ==> match scan {
                Ok(raw) => r is Ok && final(self)@ == visited(
                    old(self)@,
                    PathView { names: old(self)@.current.names.drop_last(), ..old(self)@.current },
                    listing_of(raw@, Some(search@)),
                ),
                Err(e) => r == Err::<(), FsError>(e) && final(self)@ == old(self)@,
            },
    {
        proof {
            use_type_invariant(&self.hist);
        }
        match self.current_path().parent() {
            None => Ok(()),
            Some(up) => self.set_directory(up, scan, search),
        }
    }

    /// The current directory.
    pub fn current_path(&self) -> (r: &FsPath)
        ensures
            r@ == self@.current,
    {
        proof {
            use_type_invariant(&self.hist);
        }
        if self.hist.len() == 0 {
            &self.root
        } else {
            self.hist.at(self.hist.cursor())
        }
    }

    /// The text of the current directory's path.
    pub fn current_path_string(&self) -> (r: String)
        ensures
            r@ == display_of(self@.current),
    {
        self.current_path().display()
    }

    /// The name of the current directory; at a root, the root's text.
    pub fn current_file(&self) -> (r: String)
        ensures
            r@ == label_of(self@.current),
    {
        let here = self.current_path();
        match here.file_name() {
            Some(name) => name,
            None => here.display(),
        }
    }

    /// The listing of the current directory.
    pub fn get_files(&self) -> (r: &Vec<Entry>)
        ensures
            entries_view(r@) == self@.files,
    {
        &self.files
    }

    /// The number of visited directories in the history.
    pub fn history_len(&self) -> (r: usize)
        ensures
            r == self@.history.len(),
    {
        self.hist.len()
    }

    /// The `i`-th visited directory, oldest first.
    pub fn history_at(&self, i: usize) -> (r: &FsPath)
        requires
            i < self@.history.len(),
        ensures
            r@ == self@.history[i as int],
    {
        self.hist.at(i)
    }

    /// The place of the current directory in the history.
    pub fn cursor(&self) -> (r: usize)
        ensures
            r == self@.cursor,
    {
        self.hist.cursor()
    }

    /// The path of the `i`-th entry of the listing.
    pub fn entry_path(&self, i: usize) -> (r: FsPath)
        requires
            i < self@.files.len(),
        ensures
            r@ == crate::path::child_of(self@.current, self@.files[i as int].name),
    {
        self.current_path().join(&self.files[i].name)
    }

    /// Empties the listing; the place and the history stay.
    pub fn reset(&mut self)
        ensures
            nav_wf(final(self)@),
            final(self)@ == relisted(old(self)@, Seq::empty()),
    {
        proof {
            use_type_invariant(&self.hist);
        }
        self.files = Vec::new();
        assert(entries_view(self.files@) =~= Seq::empty());
    }
}

} // verus!
