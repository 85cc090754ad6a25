use vstd::prelude::*;

use crate::recent::pushed_recent;

verus! {

/// What a tab is, with its path as a sequence of characters.
pub struct TabView {
    pub id: u64,
    pub path: Option<Seq<char>>,
    pub dirty: bool,
}

/// An optional text as an optional sequence of characters.
pub open spec fn opt_view(o: Option<String>) -> Option<Seq<char>> {
    match o {
        Some(s) => Some(s@),
        None => None,
    }
}

/// The whole editor state: the open tabs, the active one, the last id handed
/// out, the recently used files (most recent first) and the one-shot flag
/// that lets the next window close through without the unsaved-changes guard.
pub struct AppModel {
    pub tabs: Seq<TabView>,
    pub active: Option<usize>,
    pub next_id: u64,
    pub recent: Seq<Seq<char>>,
    pub force_close: bool,
}

impl AppModel {
    /// The state's invariant: `active` points at a tab exactly when there is
    /// one, ids are distinct, and no id exceeds the last one handed out (and
    /// the tabs fit in memory).
    pub open spec fn wf(self) -> bool {
        &&& self.tabs.len() <= usize::MAX
        &&& (self.active is None <==> self.tabs.len() == 0)
        &&& (self.active matches Some(a) ==> a < self.tabs.len())
        &&& forall|i: int, j: int|
            0 <= i < j < self.tabs.len() ==> #[trigger] self.tabs[i].id != #[trigger] self.tabs[j].id
        &&& forall|i: int| 0 <= i < self.tabs.len() ==> #[trigger] self.tabs[i].id <= self.next_id
    }
}

/// `i` is the first index of `tabs` whose tab satisfies `pred`.
pub open spec fn is_first_where(tabs: Seq<TabView>, pred: spec_fn(TabView) -> bool, i: int) -> bool {
    &&& 0 <= i < tabs.len()
    &&& pred(tabs[i])
    &&& forall|j: int| 0 <= j < i ==> !pred(#[trigger] tabs[j])
}

/// The first index of `tabs` whose tab satisfies `pred`, if any.
pub open spec fn first_where(tabs: Seq<TabView>, pred: spec_fn(TabView) -> bool) -> Option<int> {
    if exists|i: int| is_first_where(tabs, pred, i) {
        Some(choose|i: int| is_first_where(tabs, pred, i))
    } else {
        None
    }
}

pub open spec fn has_id(id: u64) -> spec_fn(TabView) -> bool {
    |t: TabView| t.id == id
}

pub open spec fn has_path(path: Seq<char>) -> spec_fn(TabView) -> bool {
    |t: TabView| t.path == Some(path)
}

/// An optional position as a mathematical integer.
pub open spec fn as_index(r: Option<usize>) -> Option<int> {
    match r {
        Some(i) => Some(i as int),
        None => None,
    }
}

/// The position of the first tab with this id.
pub open spec fn index_of_id(tabs: Seq<TabView>, id: u64) -> Option<int> {
    first_where(tabs, has_id(id))
}

/// The position of the first tab open on exactly this path.
pub open spec fn index_of_path(tabs: Seq<TabView>, path: Seq<char>) -> Option<int> {
    first_where(tabs, has_path(path))
}

/// A tab found by `first_where` is the only first match.
pub proof fn lemma_first_where_unique(tabs: Seq<TabView>, pred: spec_fn(TabView) -> bool, i: int)
    requires
        is_first_where(tabs, pred, i),
    ensures
        first_where(tabs, pred) == Some(i),
{
    let k = choose|k: int| is_first_where(tabs, pred, k);
    assert(is_first_where(tabs, pred, k));
    if k < i {
        assert(!pred(tabs[k]));
    } else if k > i {
        assert(!pred(tabs[i]));
    }
}

/// If some tab satisfies `pred`, there is a first one.
pub proof fn lemma_first_where_exists(tabs: Seq<TabView>, pred: spec_fn(TabView) -> bool, k: int)
    requires
        0 <= k < tabs.len(),
        pred(tabs[k]),
    ensures
        first_where(tabs, pred) is Some,
        first_where(tabs, pred) matches Some(i) ==> is_first_where(tabs, pred, i) && i <= k,
    decreases k,
{
    if forall|j: int| 0 <= j < k ==> !pred(#[trigger] tabs[j]) {
        assert(is_first_where(tabs, pred, k));
        lemma_first_where_unique(tabs, pred, k);
    } else {
        let j = choose|j: int| 0 <= j < k && pred(#[trigger] tabs[j]);
        lemma_first_where_exists(tabs, pred, j);
    }
}

/// When no tab satisfies `pred`, there is no first one.
pub proof fn lemma_first_where_none(tabs: Seq<TabView>, pred: spec_fn(TabView) -> bool)
    requires
        forall|j: int| 0 <= j < tabs.len() ==> !pred(#[trigger] tabs[j]),
    ensures
        first_where(tabs, pred) is None,
{
}


/// A new tab: the next id, the given path, no unsaved changes.
pub open spec fn fresh_tab(m: AppModel, path: Option<Seq<char>>) -> TabView {
    TabView { id: (m.next_id + 1) as u64, path, dirty: false }
}

/// `m` with `tab` appended, made active, and its id recorded as the last one
/// handed out.
pub open spec fn with_appended(m: AppModel, tab: TabView) -> AppModel {
    AppModel { tabs: m.tabs.push(tab), active: Some(m.tabs.len() as usize), next_id: tab.id, ..m }
}

/// A new untitled tab, appended and made active; the new tab is returned.
pub open spec fn after_new_tab(m: AppModel) -> (AppModel, TabView) {
    (with_appended(m, fresh_tab(m, None)), fresh_tab(m, None))
}

/// Opening `path`: if a tab is already open on exactly that text it becomes
/// active, else a new tab on it is appended and made active; either way the
/// path is recorded as recently used. Also returns the tab and whether it
/// was already open.
pub open spec fn after_open(m: AppModel, path: Seq<char>) -> (AppModel, TabView, bool) {
    match index_of_path(m.tabs, path) {
        Some(i) => (
            AppModel { active: Some(i as usize), recent: pushed_recent(m.recent, path), ..m },
            m.tabs[i],
            true,
        ),
        None => {
            let tab = fresh_tab(m, Some(path));
            (
                AppModel { recent: pushed_recent(m.recent, path), ..with_appended(m, tab) },
                tab,
                false,
            )
        },
    }
}

/// Where the active index goes when the tab at `idx` is closed and
/// `remaining` tabs are left: nowhere if none are left; if the closed tab was
/// the active one, to the same position or the new last one; one down if it
/// was after the closed one; unchanged otherwise.
pub open spec fn active_after_close(active: Option<usize>, idx: int, remaining: int) -> Option<usize> {
    match active {
        None => None,
        Some(a) => if remaining == 0 {
            None
        } else if a == idx {
            Some(if a < remaining - 1 { a } else { (remaining - 1) as usize })
        } else if a > idx {
            Some((a - 1) as usize)
        } else {
            Some(a)
        },
    }
}

/// Closing the tab with `id`: nothing changes if there is none.
pub open spec fn after_close(m: AppModel, id: u64) -> AppModel {
    match index_of_id(m.tabs, id) {
        None => m,
        Some(i) => AppModel {
            tabs: m.tabs.remove(i),
            active: active_after_close(m.active, i, m.tabs.len() - 1),
            ..m
        },
    }
}

/// Making the tab with `id` active, if there is one.
pub open spec fn after_switch(m: AppModel, id: u64) -> AppModel {
    match index_of_id(m.tabs, id) {
        None => m,
        Some(i) => AppModel { active: Some(i as usize), ..m },
    }
}

/// Setting the unsaved-changes flag of the tab with `id`, if there is one.
pub open spec fn after_set_dirty(m: AppModel, id: u64, dirty: bool) -> AppModel {
    match index_of_id(m.tabs, id) {
        None => m,
        Some(i) => AppModel { tabs: m.tabs.update(i, TabView { dirty, ..m.tabs[i] }), ..m },
    }
}

/// Some tab has unsaved changes.
pub open spec fn any_dirty(m: AppModel) -> bool {
    exists|i: int| 0 <= i < m.tabs.len() && #[trigger] m.tabs[i].dirty
}

/// The active tab, if any.
pub open spec fn active_tab(m: AppModel) -> Option<TabView> {
    match m.active {
        Some(a) => Some(m.tabs[a as int]),
        None => None,
    }
}

/// Why a save cannot go ahead.
pub enum SaveRefusal {
    NoTab,
    NoPath,
}

/// Where saving the tab with `id` writes: the new path if one is given,
/// else the tab's own path. Refused if there is no such tab, or it is
/// untitled and no path is given.
pub open spec fn save_destination(m: AppModel, id: u64, new_path: Option<Seq<char>>) -> Result<Seq<char>, SaveRefusal> {
    match index_of_id(m.tabs, id) {
        None => Err(SaveRefusal::NoTab),
        Some(i) => match new_path {
            Some(p) => Ok(p),
            None => match m.tabs[i].path {
                Some(p) => Ok(p),
                None => Err(SaveRefusal::NoPath),
            },
        },
    }
}

/// After the tab with `id` was written to `path`: it is on that path with no
/// unsaved changes, and the path is recorded as recently used.
pub open spec fn after_save(m: AppModel, id: u64, path: Seq<char>) -> AppModel {
    match index_of_id(m.tabs, id) {
        None => m,
        Some(i) => AppModel {
            tabs: m.tabs.update(i, TabView { path: Some(path), dirty: false, ..m.tabs[i] }),
            recent: pushed_recent(m.recent, path),
            ..m
        },
    }
}

/// A request to close the window: it is held back exactly when no forced
/// close was asked for and some tab has unsaved changes; a pending forced
/// close is used up. Returns the new state and whether the close is held
/// back.
pub open spec fn after_close_request(m: AppModel) -> (AppModel, bool) {
    (AppModel { force_close: false, ..m }, !m.force_close && any_dirty(m))
}

} // verus!
