//! Browsing sessions: a navigation state with its search text, at most one
//! pending name edit or delete request, and at most one clipboard entry; and
//! the tabs that hold several independent sessions.

use vstd::prelude::*;
use crate::error::FsError;
use crate::fileops::{
    FileOp, OpView, copy, create_file, create_file_plan, copy_plan, cut, cut_plan, delete, delete_plan, rename,
    rename_plan,
};
use crate::listing::RawEntry;
use crate::nav::{Ex, NavView, fresh, initial_listing, nav_wf, visited};
use crate::path::{FsPath, PathView, child_of, check_component, is_component, label_of};
use crate::text::{chars_of, string_from};

verus! {

/// A request that waits for the user: a name being typed for a new file in a
/// directory or for renaming a path, or a delete waiting for confirmation.
pub enum Event {
    NewFile(String, FsPath),
    Rename(String, FsPath),
    Delete(FsPath),
}

/// The clipboard: a path to be copied or moved by the next paste.
pub enum Buffer {
    Copy(FsPath),
    Cut(FsPath),
}

pub enum EventView {
    NewFile(Seq<char>, PathView),
    Rename(Seq<char>, PathView),
    Delete(PathView),
}

pub enum BufferView {
    Copy(PathView),
    Cut(PathView),
}

impl View for Event {
    type V = EventView;

    open spec fn view(&self) -> EventView {
        match self {
            Event::NewFile(n, p) => EventView::NewFile(n@, p@),
            Event::Rename(n, p) => EventView::Rename(n@, p@),
            Event::Delete(p) => EventView::Delete(p@),
        }
    }
}

impl View for Buffer {
    type V = BufferView;

    open spec fn view(&self) -> BufferView {
        match self {
            Buffer::Copy(p) => BufferView::Copy(p@),
            Buffer::Cut(p) => BufferView::Cut(p@),
        }
    }
}

pub struct BrowserView {
    pub nav: NavView,
    pub search: Seq<char>,
    pub event: Option<EventView>,
    pub buffer: Option<BufferView>,
}

/// What creating the file `name` in the directory `dir` asks for.
pub open spec fn new_file_plan(name: Seq<char>, dir: PathView) -> Result<OpView, FsError> {
    if is_component(name, dir.sep) {
        create_file_plan(child_of(dir, name))
    } else {
        Err(FsError::InvalidOperation)
    }
}

/// What committing the pending request asks for, if one is pending.
pub open spec fn commit_plan(event: Option<EventView>) -> Option<Result<OpView, FsError>> {
    match event {
        None => None,
        Some(EventView::NewFile(name, dir)) => Some(new_file_plan(name, dir)),
        Some(EventView::Rename(name, p)) => Some(rename_plan(name, p)),
        Some(EventView::Delete(p)) => Some(delete_plan(p)),
    }
}

/// What pasting the clipboard into the directory `dir` asks for.
pub open spec fn paste_plan(buffer: Option<BufferView>, dir: PathView) -> Option<Result<OpView, FsError>> {
    match buffer {
        None => None,
        Some(BufferView::Copy(p)) => Some(copy_plan(p, dir)),
        Some(BufferView::Cut(p)) => Some(cut_plan(p, dir)),
    }
}

pub open spec fn planned_view(r: Option<Result<FileOp, FsError>>) -> Option<Result<OpView, FsError>> {
    match r {
        None => None,
        Some(Ok(op)) => Some(Ok(op@)),
        Some(Err(e)) => Some(Err(e)),
    }
}

/// `s` with every `:\` written as `:`.
pub open spec fn drop_root_slash(s: Seq<char>) -> Seq<char>
    decreases s.len(),
{
    if s.len() == 0 {
        s
    } else if s.len() >= 2 && s[0] == ':' && s[1] == '\\' {
        seq![':'] + drop_root_slash(s.skip(2))
    } else {
        seq![s[0]] + drop_root_slash(s.skip(1))
    }
}

/// A session's title: a name holding `:` is a drive and shows as
/// `Drive (C:)`; any other name shows as it is.
pub open spec fn title_of(name: Seq<char>) -> Seq<char> {
    if name.contains(':') {
        seq!['D', 'r', 'i', 'v', 'e', ' ', '('] + drop_root_slash(name) + seq![')']
    } else {
        name
    }
}

/// One browsing session.
pub struct Browser {
    pub ex: Ex,
    pub search: String,
    event: Option<Event>,
    buffer: Option<Buffer>,
}

impl View for Browser {
    type V = BrowserView;

    closed spec fn view(&self) -> BrowserView {
        BrowserView {
            nav: self.ex@,
            search: self.search@,
            event: match self.event {
                Some(e) => Some(e@),
                None => None,
            },
            buffer: match self.buffer {
                Some(b) => Some(b@),
                None => None,
            },
        }
    }
}

impl Browser {
    /// A session bound to `root`, whose enumeration is `scan` (see
    /// [`Ex::new`]), with no search text, nothing pending and an empty
    /// clipboard.
    pub fn new(root: FsPath, scan: Result<Vec<RawEntry>, FsError>) -> (r: Browser)
        ensures
            r@ == fresh_browser(root@, scan),
            nav_wf(r@.nav),
    {
        Browser { ex: Ex::new(root, scan), search: String::new(), event: None, buffer: None }
    }

    /// The session after changing to `path`, whose enumeration is `scan`;
    /// unchanged when the enumeration failed.
    pub fn set_path(self, path: FsPath, scan: Result<Vec<RawEntry>, FsError>) -> (r: Browser)
        ensures
            nav_wf(r@.nav),
            r@ == (BrowserView {
                nav: match scan {
                    Ok(raw) => visited(self@.nav, path@, crate::listing::listing_of(raw@, Some(self@.search))),
                    Err(_) => self@.nav,
                },
                ..self@
            }),
    {
        let mut b = self;
        let _ = b.ex.set_directory(path, scan, b.search.as_str());
        b
    }

    /// Starts renaming `path`: the name being typed begins as its current
    /// name. Whatever was pending before is dropped.
    pub fn begin_rename(&mut self, path: FsPath)
        ensures
            final(self)@ == (BrowserView {
                event: Some(EventView::Rename(
                    if path@.names.len() > 0 { path@.names.last() } else { Seq::empty() },
                    path@,
                )),
                ..old(self)@
            }),
    {
        let name = match path.file_name() {
            Some(n) => n,
            None => String::new(),
        };
        self.event = Some(Event::Rename(name, path));
    }

    /// Starts naming a new file in the current directory. Whatever was
    /// pending before is dropped.
    pub fn begin_new_file(&mut self)
        ensures
            final(self)@ == (BrowserView {
                event: Some(EventView::NewFile(Seq::empty(), old(self)@.nav.current)),
                ..old(self)@
            }),
    {
        let dir = self.ex.current_path().clone();
        self.event = Some(Event::NewFile(String::new(), dir));
    }

    /// Asks for confirmation to delete `path`. Whatever was pending before is
    /// dropped.
    pub fn request_delete(&mut self, path: FsPath)
        ensures
            final(self)@ == (BrowserView { event: Some(EventView::Delete(path@)), ..old(self)@ }),
    {
        self.event = Some(Event::Delete(path));
    }

    /// Replaces the name being typed, if a name is being typed.
    pub fn set_edit_name(&mut self, name: String)
        ensures
            final(self)@ == (BrowserView {
                event: match old(self)@.event {
                    Some(EventView::NewFile(_, p)) => Some(EventView::NewFile(name@, p)),
                    Some(EventView::Rename(_, p)) => Some(EventView::Rename(name@, p)),
                    other => other,
                },
                ..old(self)@
            }),
    {
        let pending = self.event.take();
        self.event = match pending {
            Some(Event::NewFile(_, p)) => Some(Event::NewFile(name, p)),
            Some(Event::Rename(_, p)) => Some(Event::Rename(name, p)),
            other => other,
        };
    }

    /// The pending request, if any.
    pub fn pending(&self) -> (r: &Option<Event>)
        ensures
            match r {
                Some(e) => self@.event == Some(e@),
                None => self@.event is None,
            },
    {
        &self.event
    }

    /// Drops the pending request.
    pub fn cancel(&mut self)
        ensures
            final(self)@ == (BrowserView { event: None, ..old(self)@ }),
    {
        self.event = None;
    }

    /// Ends the pending request and plans what it asks for: creating the
    /// typed file in its directory, renaming to the typed name, or deleting.
    /// `None` when nothing was pending. The caller carries out the operation
    /// and then refreshes the listing.
    pub fn commit(&mut self) -> (r: Option<Result<FileOp, FsError>>)
        ensures
            planned_view(r) == commit_plan(old(self)@.event),
            final(self)@ == (BrowserView { event: None, ..old(self)@ }),
    {
        let pending = self.event.take();
        match pending {
            None => None,
            Some(Event::NewFile(name, dir)) => {
                let chars = chars_of(name.as_str());
                if check_component(&chars, dir.sep) {
                    Some(create_file(&dir.join(&name)))
                } else {
                    Some(Err(FsError::InvalidOperation))
                }
            },
            Some(Event::Rename(name, p)) => Some(rename(name.as_str(), &p)),
            Some(Event::Delete(p)) => Some(delete(&p)),
        }
    }

    /// Puts `path` on the clipboard to be copied.
    pub fn copy(&mut self, path: FsPath)
        ensures
            final(self)@ == (BrowserView { buffer: Some(BufferView::Copy(path@)), ..old(self)@ }),
    {
        self.buffer = Some(Buffer::Copy(path));
    }

    /// Puts `path` on the clipboard to be moved.
    pub fn cut(&mut self, path: FsPath)
        ensures
            final(self)@ == (BrowserView { buffer: Some(BufferView::Cut(path@)), ..old(self)@ }),
    {
        self.buffer = Some(Buffer::Cut(path));
    }

    /// The clipboard, if it holds a path.
    pub fn clipboard(&self) -> (r: &Option<Buffer>)
        ensures
            match r {
                Some(b) => self@.buffer == Some(b@),
                None => self@.buffer is None,
            },
    {
        &self.buffer
    }

    /// Empties the clipboard and plans copying or moving what it held into the
    /// current directory; `None` when it was empty.
    pub fn paste(&mut self) -> (r: Option<Result<FileOp, FsError>>)
        ensures
            planned_view(r) == paste_plan(old(self)@.buffer, old(self)@.nav.current),
            final(self)@ == (BrowserView { buffer: None, ..old(self)@ }),
    {
        let held = self.buffer.take();
        match held {
            None => None,
            Some(Buffer::Copy(from)) => Some(copy(&from, self.ex.current_path())),
            Some(Buffer::Cut(from)) => Some(cut(&from, self.ex.current_path())),
        }
    }

    /// The title of the session's tab.
    pub fn title(&self) -> (r: String)
        ensures
            r@ == title_of(label_of(self@.nav.current)),
    {
        let name = chars_of(self.ex.current_file().as_str());
        let mut has_colon = false;
        let mut i: usize = 0;
        while i < name.len()
            invariant
                i <= name.len(),
                has_colon <==> exists|k: int| 0 <= k < i && name@[k] == ':',
            decreases name.len() - i,
        {
            if name[i] == ':' {
                has_colon = true;
            }
            i = i + 1;
        }
        if !has_colon {
            return string_from(&name);
        }
        assert(name@.contains(':'));
        let mut out: Vec<char> = Vec::new();
        out.push('D');
        out.push('r');
        out.push('i');
        out.push('v');
        out.push('e');
        out.push(' ');
        out.push('(');
        let ghost head = out@;
        assert(head == seq!['D', 'r', 'i', 'v', 'e', ' ', '(']);
        assert(out@.skip(head.len() as int) =~= Seq::<char>::empty());
        assert(name@.skip(0) =~= name@);
        let mut j: usize = 0;
        while j < name.len()
            invariant
                j <= name.len(),
                head == seq!['D', 'r', 'i', 'v', 'e', ' ', '('],
                out@.len() >= head.len(),
                out@.take(head.len() as int) == head,
                out@.skip(head.len() as int) + drop_root_slash(name@.skip(j as int)) == drop_root_slash(name@),
            decreases name.len() - j,
        {
            let ghost rest = name@.skip(j as int);
            let ghost before = out@;
            if j + 1 < name.len() && name[j] == ':' && name[j + 1] == '\\' {
                out.push(':');
                assert(rest.skip(2) == name@.skip(j + 2));
                j = j + 2;
            } else {
                out.push(name[j]);
                assert(rest.skip(1) == name@.skip(j + 1));
                j = j + 1;
            }
            assert(out@.take(head.len() as int) == head);
            assert(out@.skip(head.len() as int) == before.skip(head.len() as int).push(out@.last()));
        }
        out.push(')');
        assert(name@.skip(name.len() as int) == Seq::<char>::empty());
        assert(out@ =~= head + drop_root_slash(name@) + seq![')']);
        string_from(&out)
    }

    /// Changes to `path`, whose enumeration is `scan`, under the session's
    /// search text.
    pub fn set_directory(&mut self, path: FsPath, scan: Result<Vec<RawEntry>, FsError>) -> (r: Result<(), FsError>)
        ensures
            nav_wf(final(self)@.nav),
            match scan {
                Ok(raw) => r is Ok && final(self)@ == (BrowserView {
                    nav: visited(old(self)@.nav, path@, crate::listing::listing_of(raw@, Some(old(self)@.search))),
                    ..old(self)@
                }),
                Err(e) => r == Err::<(), FsError>(e) && final(self)@ == old(self)@,
            },
    {
        self.ex.set_directory(path, scan, self.search.as_str())
    }

    /// Steps back in the history (see [`Ex::previous`]) under the session's
    /// search text.
    pub fn previous(&mut self, scan: Result<Vec<RawEntry>, FsError>) -> (r: Result<(), FsError>)
        ensures
            nav_wf(final(self)@.nav),
            crate::nav::back_target_of(old(self)@.nav) is None ==> r is Ok && final(self)@ == old(self)@,
            crate::nav::back_target_of(old(self)@.nav) is Some ==> match scan {
                Ok(raw) => r is Ok && final(self)@ == (BrowserView {
                    nav: crate::nav::back(old(self)@.nav, crate::listing::listing_of(raw@, Some(old(self)@.search))),
                    ..old(self)@
                }),
                Err(e) => r == Err::<(), FsError>(e) && final(self)@ == old(self)@,
            },
    {
        self.ex.previous(scan, self.search.as_str())
    }

    /// Steps forward in the history (see [`Ex::next`]) under the session's
    /// search text.
    pub fn next(&mut self, scan: Result<Vec<RawEntry>, FsError>) -> (r: Result<(), FsError>)
        ensures
            nav_wf(final(self)@.nav),
            crate::nav::forward_target_of(old(self)@.nav) is None ==> r is Ok && final(self)@ == old(self)@,
            crate::nav::forward_target_of(old(self)@.nav) is Some ==> match scan {
                Ok(raw) => r is Ok && final(self)@ == (BrowserView {
                    nav: crate::nav::forward(old(self)@.nav, crate::listing::listing_of(raw@, Some(old(self)@.search))),
                    ..old(self)@
                }),
                Err(e) => r == Err::<(), FsError>(e) && final(self)@ == old(self)@,
            },
    {
        self.ex.next(scan, self.search.as_str())
    }

    /// Changes to the parent of the current directory (see
    /// [`Ex::previous_dir`]), whose enumeration is `scan`, under the session's
    /// search text.
    pub fn previous_dir(&mut self, scan: Result<Vec<RawEntry>, FsError>) -> (r: Result<(), FsError>)
        ensures
            nav_wf(final(self)@.nav),
            old(self)@.nav.current.names.len() == 0 ==> r is Ok && final(self)@ == old(self)@,
            old(self)@.nav.current.names.len() > 0 ==> match scan {
                Ok(raw) => r is Ok && final(self)@ == (BrowserView {
                    nav: visited(
                        old(self)@.nav,
                        PathView { names: old(self)@.nav.current.names.drop_last(), ..old(self)@.nav.current },
                        crate::listing::listing_of(raw@, Some(old(self)@.search)),
                    ),
                    ..old(self)@
                }),
                Err(e) => r == Err::<(), FsError>(e) && final(self)@ == old(self)@,
            },
    {
        self.ex.previous_dir(scan, self.search.as_str())
    }

    /// Lists the current directory again under the session's search text.
    pub fn refresh(&mut self, scan: Result<Vec<RawEntry>, FsError>) -> (r: Result<(), FsError>)
        ensures
            nav_wf(final(self)@.nav),
            match scan {
                Ok(raw) => r is Ok && final(self)@ == (BrowserView {
                    nav: crate::nav::relisted(old(self)@.nav, crate::listing::listing_of(raw@, Some(old(self)@.search))),
                    ..old(self)@
                }),
                Err(e) => r == Err::<(), FsError>(e) && final(self)@ == old(self)@,
            },
    {
        self.ex.refresh(scan, self.search.as_str())
    }
}

pub open spec fn browsers_view(v: Seq<Browser>) -> Seq<BrowserView> {
    v.map_values(|b: Browser| b@)
}

pub struct TabsView {
    pub browsers: Seq<BrowserView>,
    pub index: nat,
    pub home: PathView,
}

/// There is always a session, and the selected one exists.
pub open spec fn tabs_wf(t: TabsView) -> bool {
    t.browsers.len() > 0 && t.index < t.browsers.len()
}

/// A new session bound to `root`, whose enumeration is `scan`.
pub open spec fn fresh_browser(root: PathView, scan: Result<Vec<RawEntry>, FsError>) -> BrowserView {
    BrowserView { nav: fresh(root, initial_listing(scan)), search: Seq::empty(), event: None, buffer: None }
}

/// Independent browsing sessions, one of them selected. New sessions start
/// bound to `home`.
pub struct Tabs {
    browsers: Vec<Browser>,
    index: usize,
    home: FsPath,
}

impl View for Tabs {
    type V = TabsView;

    closed spec fn view(&self) -> TabsView {
        TabsView { browsers: browsers_view(self.browsers@), index: self.index as nat, home: self.home@ }
    }
}

impl Tabs {
    /// One new session bound to `home`, whose enumeration is `scan`,
    /// selected.
    pub fn new(home: FsPath, scan: Result<Vec<RawEntry>, FsError>) -> (r: Tabs)
        ensures
            tabs_wf(r@),
            r@ == (TabsView { browsers: seq![fresh_browser(home@, scan)], index: 0, home: home@ }),
    {
        let ghost first = fresh_browser(home@, scan);
        let mut browsers: Vec<Browser> = Vec::new();
        browsers.push(Browser::new(home.clone(), scan));
        let r = Tabs { browsers, index: 0, home };
        assert(browsers_view(r.browsers@) =~= seq![first]);
        r
    }

    /// Opens a new session bound to `path`, whose enumeration is `scan`, and
    /// selects it.
    pub fn add(&mut self, path: FsPath, scan: Result<Vec<RawEntry>, FsError>)
        requires
            tabs_wf(old(self)@),
        ensures
            tabs_wf(final(self)@),
            final(self)@ == (TabsView {
                browsers: old(self)@.browsers.push(fresh_browser(path@, scan)),
                index: old(self)@.browsers.len(),
                ..old(self)@
            }),
    {
        let ghost nb = fresh_browser(path@, scan);
        let b = Browser::new(path, scan);
        let ghost prev = self.browsers@;
        self.index = self.browsers.len();
        self.browsers.push(b);
        assert(browsers_view(self.browsers@) =~= browsers_view(prev).push(nb));
    }

    /// Opens a new session bound to the home directory, whose enumeration is
    /// `scan`, and selects it.
    pub fn add_new(&mut self, scan: Result<Vec<RawEntry>, FsError>)
        requires
            tabs_wf(old(self)@),
        ensures
            tabs_wf(final(self)@),
            final(self)@ == (TabsView {
                browsers: old(self)@.browsers.push(fresh_browser(old(self)@.home, scan)),
                index: old(self)@.browsers.len(),
                ..old(self)@
            }),
    {
        let ghost nb = fresh_browser(self.home@, scan);
        let b = Browser::new(self.home.clone(), scan);
        let ghost prev = self.browsers@;
        self.index = self.browsers.len();
        self.browsers.push(b);
        assert(browsers_view(self.browsers@) =~= browsers_view(prev).push(nb));
    }

    /// The directory new sessions are bound to.
    pub fn home(&self) -> (r: &FsPath)
        ensures
            r@ == self@.home,
    {
        &self.home
    }

    /// Closes the `i`-th session, unless it is the only one; the selection
    /// moves one place towards the first session.
    pub fn remove(&mut self, i: usize)
        requires
            tabs_wf(old(self)@),
            i < old(self)@.browsers.len(),
        ensures
            tabs_wf(final(self)@),
            old(self)@.browsers.len() == 1 ==> final(self)@ == old(self)@,
            old(self)@.browsers.len() > 1 ==> final(self)@ == (TabsView {
                browsers: old(self)@.browsers.remove(i as int),
                index: if old(self)@.index > 0 { (old(self)@.index - 1) as nat } else { 0 },
                ..old(self)@
            }),
    {
        if self.browsers.len() != 1 {
            let ghost prev = self.browsers@;
            let _ = self.browsers.remove(i);
            assert(browsers_view(self.browsers@) =~= browsers_view(prev).remove(i as int));
            self.index = if self.index > 0 { self.index - 1 } else { 0 };
        }
    }

    /// Selects the `i`-th session.
    pub fn select(&mut self, i: usize)
        requires
            tabs_wf(old(self)@),
            i < old(self)@.browsers.len(),
        ensures
            tabs_wf(final(self)@),
            final(self)@ == (TabsView { index: i as nat, ..old(self)@ }),
    {
        self.index = i;
    }

    /// The number of sessions.
    pub fn len(&self) -> (r: usize)
        ensures
            r == self@.browsers.len(),
    {
        self.browsers.len()
    }

    /// The place of the selected session.
    pub fn index(&self) -> (r: usize)
        ensures
            r == self@.index,
    {
        self.index
    }

    /// The `i`-th session.
    pub fn get(&self, i: usize) -> (r: &Browser)
        requires
            i < self@.browsers.len(),
        ensures
            r@ == self@.browsers[i as int],
    {
        &self.browsers[i]
    }

    /// The selected session, to act on.
    pub fn selected_mut(&mut self) -> (r: &mut Browser)
        requires
            tabs_wf(old(self)@),
        ensures
            r@ == old(self)@.browsers[old(self)@.index as int],
            final(self)@ == (TabsView {
                browsers: old(self)@.browsers.update(old(self)@.index as int, final(r)@),
                ..old(self)@
            }),
    {
        let i = self.index;
        let ghost prev = self.browsers@;
        let r = &mut self.browsers[i];
        assert(browsers_view(prev.update(i as int, *final(r))) =~= browsers_view(prev).update(i as int, final(r)@));
        r
    }

    /// Changes the selected session to `path`, whose enumeration is `scan`.
    pub fn set_directory(&mut self, path: FsPath, scan: Result<Vec<RawEntry>, FsError>) -> (r: Result<(), FsError>)
        requires
            tabs_wf(old(self)@),
        ensures
            tabs_wf(final(self)@),
            ({
                let b = old(self)@.browsers[old(self)@.index as int];
                match scan {
                    Ok(raw) => r is Ok && final(self)@ == (TabsView {
                        browsers: old(self)@.browsers.update(
                            old(self)@.index as int,
                            BrowserView {
                                nav: visited(b.nav, path@, crate::listing::listing_of(raw@, Some(b.search))),
                                ..b
                            },
                        ),
                        ..old(self)@
                    }),
                    Err(e) => r == Err::<(), FsError>(e) && final(self)@ == old(self)@,
                }
            }),
    {
        let ghost before = self@;
        let b = self.selected_mut();
        let r = b.set_directory(path, scan);
        assert(before.browsers.update(before.index as int, before.browsers[before.index as int]) =~= before.browsers);
        r
    }
}

} // verus!
