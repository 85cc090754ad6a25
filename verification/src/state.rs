use vstd::prelude::*;

use crate::error::FeditError;
use crate::model::{
    active_after_close, active_tab, after_close, after_close_request, after_new_tab, after_open,
    after_save, after_set_dirty, after_switch, any_dirty, as_index, has_id, has_path, index_of_id,
    index_of_path, is_first_where, lemma_first_where_none, lemma_first_where_unique, opt_view,
    save_destination, AppModel, SaveRefusal, TabView,
};
use crate::recent::{kept_beside, paths_equal, pushed_recent, MAX_RECENT};

verus! {

/// One open document. `path: None` is an untitled buffer that has not been
/// saved yet; `dirty` is the editor's unsaved-changes flag.
#[derive(Debug, PartialEq, Eq)]
pub struct Tab {
    pub id: u64,
    pub path: Option<String>,
    pub dirty: bool,
}

impl View for Tab {
    type V = TabView;

    open spec fn view(&self) -> TabView {
        TabView { id: self.id, path: opt_view(self.path), dirty: self.dirty }
    }
}

impl Clone for Tab {
    fn clone(&self) -> (r: Self)
        ensures
            r@ == self@,
    {
        let path = match &self.path {
            Some(p) => Some(p.clone()),
            None => None,
        };
        Tab { id: self.id, path, dirty: self.dirty }
    }
}

/// What opening a file gives back: the tab, the file's contents, and whether
/// the file was already open (so that the frontend may keep its buffer).
pub struct OpenedTab {
    pub tab: Tab,
    pub contents: String,
    pub already_open: bool,
}

/// The editor state behind the commands; its view is an `AppModel`, and
/// every operation that needs the model's invariant keeps it.
pub struct AppState {
    tabs: Vec<Tab>,
    active: Option<usize>,
    next_id: u64,
    recent: Vec<String>,
    force_close: bool,
}

impl View for AppState {
    type V = AppModel;

    closed spec fn view(&self) -> AppModel {
        AppModel {
            tabs: self.tabs@.map_values(|t: Tab| t@),
            active: self.active,
            next_id: self.next_id,
            recent: self.recent@.map_values(|s: String| s@),
            force_close: self.force_close,
        }
    }
}

impl AppState {
    /// A fresh editor: no tabs, nothing recent, no id handed out yet.
    pub fn new() -> (s: AppState)
        ensures
            s@.wf(),
            s@.tabs.len() == 0,
            s@.active is None,
            s@.next_id == 0,
            s@.recent.len() == 0,
            !s@.force_close,
    {
        let s = AppState {
            tabs: Vec::new(),
            active: None,
            next_id: 0,
            recent: Vec::new(),
            force_close: false,
        };
        assert(s@.tabs =~= Seq::<TabView>::empty());
        assert(s@.recent =~= Seq::<Seq<char>>::empty());
        s
    }

    /// Hands out the next tab id: one more than the last.
    pub fn bump_id(&mut self) -> (id: u64)
        requires
            old(self)@.next_id < u64::MAX,
        ensures
            id == old(self)@.next_id + 1,
            final(self)@ == (AppModel { next_id: id, ..old(self)@ }),
    {
        self.next_id = self.next_id + 1;
        self.next_id
    }

    /// Position of the first tab with this id.
    pub fn find_index(&self, id: u64) -> (r: Option<usize>)
        ensures
            index_of_id(self@.tabs, id) == as_index(r),
            r is None <==> forall|j: int| 0 <= j < self@.tabs.len() ==> self@.tabs[j].id != id,
    {
        let mut i: usize = 0;
        while i < self.tabs.len()
            invariant
                i <= self.tabs.len(),
                forall|j: int| 0 <= j < i ==> self@.tabs[j].id != id,
            decreases self.tabs.len() - i,
        {
            if self.tabs[i].id == id {
                proof {
                    assert(self@.tabs[i as int] == self.tabs@[i as int]@);
                    assert(is_first_where(self@.tabs, has_id(id), i as int));
                    lemma_first_where_unique(self@.tabs, has_id(id), i as int);
                }
                return Some(i);
            }
            assert(self@.tabs[i as int] == self.tabs@[i as int]@);
            i = i + 1;
        }
        proof {
            lemma_first_where_none(self@.tabs, has_id(id));
        }
        None
    }

    /// Records that `path` was used: it goes to the front of the recent
    /// list, any entry that is the same path leaves, and the list is cut to
    /// `MAX_RECENT` entries.
    pub fn push_recent(&mut self, path: String)
        ensures
            final(self)@ == (AppModel { recent: pushed_recent(old(self)@.recent, path@), ..old(self)@ }),
    {
        let ghost pred = kept_beside(path@);
        let mut kept: Vec<String> = Vec::new();
        kept.push(path.clone());
        let mut i: usize = 0;
        while i < self.recent.len()
            invariant
                i <= self.recent.len(),
                pred == kept_beside(path@),
                kept@.map_values(|s: String| s@) == seq![path@] + self@.recent.take(i as int).filter(pred),
            decreases self.recent.len() - i,
        {
            let same = paths_equal(self.recent[i].as_str(), path.as_str());
            let ghost before = kept@;
            let ghost q = self@.recent[i as int];
            proof {
                assert(q == self.recent@[i as int]@);
                assert(self@.recent.take(i + 1) =~= self@.recent.take(i as int).push(q));
                self@.recent.take(i as int).lemma_filter_push(q, pred);
                assert(self@.recent.take(i as int).push(q).filter(pred) == if pred(q) {
                    self@.recent.take(i as int).filter(pred).push(q)
                } else {
                    self@.recent.take(i as int).filter(pred)
                });
                assert(pred(q) == !same);
            }
            if !same {
                kept.push(self.recent[i].clone());
                assert(kept@.map_values(|s: String| s@) =~= before.map_values(|s: String| s@).push(q));
            }
            i = i + 1;
        }
        assert(self@.recent.take(self.recent.len() as int) =~= self@.recent);
        let ghost full = kept@;
        kept.truncate(MAX_RECENT);
        proof {
            if full.len() > MAX_RECENT {
                assert(kept@.map_values(|s: String| s@) =~= full.map_values(|s: String| s@).take(MAX_RECENT as int));
            }
        }
        self.recent = kept;
        assert(self@.recent =~= pushed_recent(old(self)@.recent, path@));
        assert(self@.tabs =~= old(self)@.tabs);
    }

    /// Position of the first tab open on exactly this path (the text is
    /// compared as it stands).
    pub fn find_path_index(&self, path: &str) -> (r: Option<usize>)
        ensures
            index_of_path(self@.tabs, path@) == as_index(r),
            r is None <==> forall|j: int|
                0 <= j < self@.tabs.len() ==> self@.tabs[j].path != Some(path@),
    {
        let target: String = path.to_owned();
        let mut i: usize = 0;
        while i < self.tabs.len()
            invariant
                i <= self.tabs.len(),
                target@ == path@,
                forall|j: int| 0 <= j < i ==> self@.tabs[j].path != Some(path@),
            decreases self.tabs.len() - i,
        {
            assert(self@.tabs[i as int] == self.tabs@[i as int]@);
            let found = match &self.tabs[i].path {
                Some(p) => *p == target,
                None => false,
            };
            if found {
                proof {
                    assert(is_first_where(self@.tabs, has_path(path@), i as int));
                    lemma_first_where_unique(self@.tabs, has_path(path@), i as int);
                }
                return Some(i);
            }
            i = i + 1;
        }
        proof {
            lemma_first_where_none(self@.tabs, has_path(path@));
        }
        None
    }

    /// The open tabs, in order.
    pub fn list_tabs(&self) -> (r: Vec<Tab>)
        ensures
            r@.map_values(|t: Tab| t@) == self@.tabs,
    {
        let r = self.tabs.clone();
        assert(r@.map_values(|t: Tab| t@) =~= self@.tabs);
        r
    }

    /// The recently used files, most recent first.
    pub fn recent_files(&self) -> (r: Vec<String>)
        ensures
            r@.map_values(|s: String| s@) == self@.recent,
    {
        let r = self.recent.clone();
        assert(r@.map_values(|s: String| s@) =~= self@.recent);
        r
    }

    /// The last id handed out.
    pub fn next_id(&self) -> (r: u64)
        ensures
            r == self@.next_id,
    {
        self.next_id
    }

    /// Creates a new untitled tab and makes it active; returns it.
    pub fn new_tab(&mut self) -> (tab: Tab)
        requires
            old(self)@.wf(),
            old(self)@.next_id < u64::MAX,
        ensures
            (final(self)@, tab@) == after_new_tab(old(self)@),
            final(self)@.wf(),
    {
        let id = self.bump_id();
        let tab = Tab { id, path: None, dirty: false };
        self.tabs.push(tab.clone());
        self.active = Some(self.tabs.len() - 1);
        assert(self@.tabs =~= old(self)@.tabs.push(tab@));
        tab
    }

    /// Opens `path`, whose contents were read as `contents`, in a new tab,
    /// or switches to the tab already open on it; records it as recently
    /// used.
    pub fn open_tab(&mut self, path: String, contents: String) -> (r: OpenedTab)
        requires
            old(self)@.wf(),
            index_of_path(old(self)@.tabs, path@) is Some || old(self)@.next_id < u64::MAX,
        ensures
            (final(self)@, r.tab@, r.already_open) == after_open(old(self)@, path@),
            r.contents == contents,
            final(self)@.wf(),
    {
        if let Some(idx) = self.find_path_index(path.as_str()) {
            self.active = Some(idx);
            assert(self@.tabs[idx as int] == self.tabs@[idx as int]@);
            let tab = self.tabs[idx].clone();
            self.push_recent(path);
            return OpenedTab { tab, contents, already_open: true };
        }
        let id = self.bump_id();
        let tab = Tab { id, path: Some(path.clone()), dirty: false };
        self.tabs.push(tab.clone());
        self.active = Some(self.tabs.len() - 1);
        assert(self@.tabs =~= old(self)@.tabs.push(tab@));
        self.push_recent(path);
        OpenedTab { tab, contents, already_open: false }
    }

    /// Closes the tab with `id`, if there is one, and keeps `active` on a
    /// valid tab (or clears it when none is left). Returns the tabs left.
    pub fn close_tab(&mut self, id: u64) -> (r: Vec<Tab>)
        requires
            old(self)@.wf(),
        ensures
            final(self)@ == after_close(old(self)@, id),
            final(self)@.wf(),
            r@.map_values(|t: Tab| t@) == final(self)@.tabs,
    {
        match self.find_index(id) {
            None => self.list_tabs(),
            Some(idx) => {
                let ghost old_tabs = self@.tabs;
                self.tabs.remove(idx);
                let len = self.tabs.len();
                self.active = match self.active {
                    None => None,
                    Some(a) => if len == 0 {
                        None
                    } else if a == idx {
                        Some(if a < len - 1 { a } else { len - 1 })
                    } else if a > idx {
                        Some(a - 1)
                    } else {
                        Some(a)
                    },
                };
                assert(self@.tabs =~= old_tabs.remove(idx as int));
                assert forall|i: int, j: int|
                    0 <= i < j < self@.tabs.len() implies #[trigger] self@.tabs[i].id
                        != #[trigger] self@.tabs[j].id by {
                    let oi = if i < idx { i } else { i + 1 };
                    let oj = if j < idx { j } else { j + 1 };
                    assert(self@.tabs[i] == old_tabs[oi]);
                    assert(self@.tabs[j] == old_tabs[oj]);
                    assert(old_tabs[oi].id != old_tabs[oj].id);
                }
                assert forall|i: int| 0 <= i < self@.tabs.len() implies #[trigger] self@.tabs[i].id
                    <= self@.next_id by {
                    let oi = if i < idx { i } else { i + 1 };
                    assert(self@.tabs[i] == old_tabs[oi]);
                }
                self.list_tabs()
            },
        }
    }

    /// Makes the tab with `id` active; `NoTab` if there is none.
    pub fn switch_tab(&mut self, id: u64) -> (r: Result<(), FeditError>)
        requires
            old(self)@.wf(),
        ensures
            final(self)@ == after_switch(old(self)@, id),
            final(self)@.wf(),
            r is Ok <==> index_of_id(old(self)@.tabs, id) is Some,
            r matches Err(e) ==> e is NoTab,
    {
        if let Some(idx) = self.find_index(id) {
            self.active = Some(idx);
            Ok(())
        } else {
            Err(FeditError::NoTab)
        }
    }

    /// The active tab, if any.
    pub fn active_tab(&self) -> (r: Option<Tab>)
        requires
            self@.wf(),
        ensures
            match r {
                Some(t) => active_tab(self@) == Some(t@),
                None => active_tab(self@) is None,
            },
    {
        match self.active {
            Some(i) => {
                assert(self@.tabs[i as int] == self.tabs@[i as int]@);
                Some(self.tabs[i].clone())
            },
            None => None,
        }
    }

    /// Sets the unsaved-changes flag of the tab with `id`; `NoTab` if there
    /// is none.
    pub fn set_tab_dirty(&mut self, id: u64, dirty: bool) -> (r: Result<(), FeditError>)
        requires
            old(self)@.wf(),
        ensures
            final(self)@ == after_set_dirty(old(self)@, id, dirty),
            final(self)@.wf(),
            r is Ok <==> index_of_id(old(self)@.tabs, id) is Some,
            r matches Err(e) ==> e is NoTab,
    {
        match self.find_index(id) {
            Some(i) => {
                let mut t = self.tabs[i].clone();
                t.dirty = dirty;
                let ghost tv = t@;
                self.tabs.set(i, t);
                assert(self@.tabs =~= old(self)@.tabs.update(i as int, tv));
                Ok(())
            },
            None => Err(FeditError::NoTab),
        }
    }

    /// Whether some tab has unsaved changes.
    pub fn any_dirty(&self) -> (r: bool)
        ensures
            r == any_dirty(self@),
    {
        let mut i: usize = 0;
        while i < self.tabs.len()
            invariant
                i <= self.tabs.len(),
                forall|j: int| 0 <= j < i ==> !self@.tabs[j].dirty,
            decreases self.tabs.len() - i,
        {
            assert(self@.tabs[i as int] == self.tabs@[i as int]@);
            if self.tabs[i].dirty {
                assert(self@.tabs[i as int].dirty);
                return true;
            }
            i = i + 1;
        }
        false
    }

    /// Where saving the tab with `id` goes: `new_path` if given, else the
    /// tab's own path. `NoTab` if there is no such tab, `NoPath` if it is
    /// untitled and no path is given.
    pub fn save_target(&self, id: u64, new_path: Option<String>) -> (r: Result<String, FeditError>)
        ensures
            match save_destination(self@, id, opt_view(new_path)) {
                Ok(p) => r matches Ok(s) && s@ == p,
                Err(SaveRefusal::NoTab) => r matches Err(FeditError::NoTab),
                Err(SaveRefusal::NoPath) => r matches Err(FeditError::NoPath),
            },
    {
        let idx = match self.find_index(id) {
            Some(i) => i,
            None => return Err(FeditError::NoTab),
        };
        assert(self@.tabs[idx as int] == self.tabs@[idx as int]@);
        match new_path {
            Some(p) => Ok(p),
            None => match &self.tabs[idx].path {
                Some(p) => Ok(p.clone()),
                None => Err(FeditError::NoPath),
            },
        }
    }

    /// Records that the tab with `id` was written to `path`: the tab is now
    /// on that path with no unsaved changes, and the path is recently used.
    /// `NoTab` if there is no such tab.
    pub fn complete_save(&mut self, id: u64, path: String) -> (r: Result<(), FeditError>)
        requires
            old(self)@.wf(),
        ensures
            final(self)@ == after_save(old(self)@, id, path@),
            final(self)@.wf(),
            r is Ok <==> index_of_id(old(self)@.tabs, id) is Some,
            r matches Err(e) ==> e is NoTab,
    {
        match self.find_index(id) {
            Some(i) => {
                let mut t = self.tabs[i].clone();
                t.path = Some(path.clone());
                t.dirty = false;
                let ghost tv = t@;
                self.tabs.set(i, t);
                assert(self@.tabs =~= old(self)@.tabs.update(i as int, tv));
                self.push_recent(path);
                Ok(())
            },
            None => Err(FeditError::NoTab),
        }
    }

    /// Lets the next window close through without the unsaved-changes guard.
    pub fn request_force_close(&mut self)
        ensures
            final(self)@ == (AppModel { force_close: true, ..old(self)@ }),
    {
        self.force_close = true;
    }

    /// A request to close the window. Returns `true` when it must be held
    /// back: no forced close is pending and some tab has unsaved changes. A
    /// pending forced close is used up.
    pub fn on_close_requested(&mut self) -> (blocked: bool)
        ensures
            (final(self)@, blocked) == after_close_request(old(self)@),
    {
        let force = self.force_close;
        if force {
            self.force_close = false;
        }
        let dirty = self.any_dirty();
        !force && dirty
    }

    /// Replaces the recent list with one loaded from storage.
    pub fn restore_recent(&mut self, recent: Vec<String>)
        ensures
            final(self)@ == (AppModel { recent: recent@.map_values(|s: String| s@), ..old(self)@ }),
    {
        self.recent = recent;
    }
}

} // verus!
