use vstd::prelude::*;

use crate::model::{
    active_tab, after_close, after_close_request, after_new_tab, after_open, after_save,
    after_set_dirty, after_switch, any_dirty, first_where, has_id, has_path, index_of_id,
    index_of_path, is_first_where, lemma_first_where_exists, lemma_first_where_none,
    lemma_first_where_unique, save_destination, AppModel, TabView,
};
use crate::recent::{law_push_recent_idempotent, law_push_recent_shape};

verus! {

/// If no first tab satisfies `pred`, no tab does.
proof fn lemma_none_means_absent(tabs: Seq<TabView>, pred: spec_fn(TabView) -> bool)
    requires
        first_where(tabs, pred) is None,
    ensures
        forall|j: int| 0 <= j < tabs.len() ==> !pred(#[trigger] tabs[j]),
{
    assert forall|j: int| 0 <= j < tabs.len() implies !pred(#[trigger] tabs[j]) by {
        if pred(tabs[j]) {
            lemma_first_where_exists(tabs, pred, j);
        }
    }
}

/// A change to tabs that keeps every id in place keeps where each id is
/// found.
proof fn lemma_same_ids_same_index(a: Seq<TabView>, b: Seq<TabView>, id: u64)
    requires
        a.len() == b.len(),
        forall|k: int| 0 <= k < a.len() ==> #[trigger] a[k].id == b[k].id,
    ensures
        index_of_id(a, id) == index_of_id(b, id),
{
    match index_of_id(a, id) {
        Some(i) => {
            assert(is_first_where(a, has_id(id), i));
            assert(b[i].id == a[i].id);
            assert forall|j: int| 0 <= j < i implies !has_id(id)(#[trigger] b[j]) by {
                assert(a[j].id == b[j].id);
                assert(!has_id(id)(a[j]));
            }
            assert(is_first_where(b, has_id(id), i));
            lemma_first_where_unique(b, has_id(id), i);
        },
        None => {
            lemma_none_means_absent(a, has_id(id));
            assert forall|j: int| 0 <= j < b.len() implies !has_id(id)(#[trigger] b[j]) by {
                assert(a[j].id == b[j].id);
                assert(!has_id(id)(a[j]));
            }
            lemma_first_where_none(b, has_id(id));
        },
    }
}

/// Opening a file that was just opened changes nothing more: the second
/// open reports the file as already open, gives back the same tab, and
/// leaves the state as the first open left it.
pub proof fn law_open_twice(m: AppModel, path: Seq<char>)
    ensures
        ({
            let (m1, tab1, _) = after_open(m, path);
            after_open(m1, path) == (m1, tab1, true)
        }),
{
    let (m1, tab1, already) = after_open(m, path);
    law_push_recent_idempotent(m.recent, path);
    match index_of_path(m.tabs, path) {
        Some(i) => {
            assert(m1.tabs == m.tabs);
        },
        None => {
            lemma_none_means_absent(m.tabs, has_path(path));
            let n = m.tabs.len() as int;
            assert(m1.tabs[n] == tab1);
            assert forall|j: int| 0 <= j < n implies !has_path(path)(#[trigger] m1.tabs[j]) by {
                assert(m1.tabs[j] == m.tabs[j]);
                assert(!has_path(path)(m.tabs[j]));
            }
            assert(is_first_where(m1.tabs, has_path(path), n));
            lemma_first_where_unique(m1.tabs, has_path(path), n);
        },
    }
}

/// A new tab gets an id that no open tab has.
pub proof fn law_new_tab_id_is_fresh(m: AppModel)
    requires
        m.wf(),
        m.next_id < u64::MAX,
    ensures
        forall|i: int| 0 <= i < m.tabs.len() ==> #[trigger] m.tabs[i].id != after_new_tab(m).1.id,
{
}

/// Closing a tab that was just created gives back the tabs there were
/// before.
pub proof fn law_close_new_tab(m: AppModel)
    requires
        m.wf(),
        m.next_id < u64::MAX,
    ensures
        after_close(after_new_tab(m).0, after_new_tab(m).1.id).tabs == m.tabs,
{
    let (m1, tab) = after_new_tab(m);
    let n = m.tabs.len() as int;
    assert(m1.tabs[n] == tab);
    assert forall|j: int| 0 <= j < n implies !has_id(tab.id)(#[trigger] m1.tabs[j]) by {
        assert(m1.tabs[j] == m.tabs[j]);
    }
    assert(is_first_where(m1.tabs, has_id(tab.id), n));
    lemma_first_where_unique(m1.tabs, has_id(tab.id), n);
    assert(m1.tabs.remove(n) =~= m.tabs);
}

/// After a tab is closed no open tab has its id.
pub proof fn law_closed_tab_is_gone(m: AppModel, id: u64)
    requires
        m.wf(),
    ensures
        index_of_id(after_close(m, id).tabs, id) is None,
{
    let m1 = after_close(m, id);
    match index_of_id(m.tabs, id) {
        Some(i) => {
            assert(is_first_where(m.tabs, has_id(id), i));
            assert forall|j: int| 0 <= j < m1.tabs.len() implies !has_id(id)(#[trigger] m1.tabs[j]) by {
                let oj = if j < i { j } else { j + 1 };
                assert(m1.tabs[j] == m.tabs[oj]);
                if oj < i {
                    assert(m.tabs[oj].id != m.tabs[i].id);
                } else {
                    assert(m.tabs[i].id != m.tabs[oj].id);
                }
            }
            lemma_first_where_none(m1.tabs, has_id(id));
        },
        None => {
        },
    }
}

/// Switching to an open tab makes it the active one.
pub proof fn law_switch_makes_active(m: AppModel, id: u64)
    requires
        m.wf(),
        index_of_id(m.tabs, id) is Some,
    ensures
        active_tab(after_switch(m, id)) matches Some(t) && t.id == id,
{
    let i = index_of_id(m.tabs, id)->0;
    assert(is_first_where(m.tabs, has_id(id), i));
}

/// Marking an open tab as changed means some tab has unsaved changes.
pub proof fn law_marked_dirty_is_seen(m: AppModel, id: u64)
    requires
        index_of_id(m.tabs, id) is Some,
    ensures
        any_dirty(after_set_dirty(m, id, true)),
{
    let i = index_of_id(m.tabs, id)->0;
    assert(is_first_where(m.tabs, has_id(id), i));
    assert(after_set_dirty(m, id, true).tabs[i].dirty);
}

/// A saved tab has no unsaved changes, and saving it again without a new
/// path writes to the path it was saved to.
pub proof fn law_saved_tab_saves_in_place(m: AppModel, id: u64, path: Seq<char>)
    requires
        index_of_id(m.tabs, id) is Some,
    ensures
        save_destination(after_save(m, id, path), id, None) == Ok::<Seq<char>, crate::model::SaveRefusal>(path),
        ({
            let m1 = after_save(m, id, path);
            m1.tabs[index_of_id(m1.tabs, id)->0].dirty == false
        }),
{
    let i = index_of_id(m.tabs, id)->0;
    assert(is_first_where(m.tabs, has_id(id), i));
    let m1 = after_save(m, id, path);
    assert forall|k: int| 0 <= k < m.tabs.len() implies #[trigger] m.tabs[k].id == m1.tabs[k].id by {
        if k != i {
            assert(m1.tabs[k] == m.tabs[k]);
        }
    }
    lemma_same_ids_same_index(m.tabs, m1.tabs, id);
}

/// A forced close lets exactly one close through: the next request is not
/// held back and uses the permission up, and the one after that is held
/// back exactly when some tab has unsaved changes.
pub proof fn law_forced_close_is_one_shot(m: AppModel)
    ensures
        ({
            let forced = AppModel { force_close: true, ..m };
            let (m1, blocked1) = after_close_request(forced);
            let (_, blocked2) = after_close_request(m1);
            &&& !blocked1
            &&& !m1.force_close
            &&& blocked2 == any_dirty(m)
        }),
{
    let forced = AppModel { force_close: true, ..m };
    let (m1, _) = after_close_request(forced);
    assert(m1.tabs == m.tabs);
}

/// Closing the active tab while others remain activates the tab that
/// followed it, or the one before it when it was the last: the active
/// position stays where it was unless it falls off the end.
pub proof fn law_close_active_tab_activates_neighbour(m: AppModel, id: u64)
    requires
        m.wf(),
        m.tabs.len() >= 2,
        m.active matches Some(a) && m.tabs[a as int].id == id,
    ensures
        ({
            let a = m.active->0 as int;
            let m1 = after_close(m, id);
            &&& m1.tabs.len() == m.tabs.len() - 1
            &&& a + 1 < m.tabs.len() ==> m1.active == Some(a as usize) && active_tab(m1) == Some(
                m.tabs[a + 1],
            )
            &&& a + 1 == m.tabs.len() ==> m1.active == Some((a - 1) as usize) && active_tab(m1)
                == Some(m.tabs[a - 1])
        }),
{
    let a = m.active->0 as int;
    assert forall|j: int| 0 <= j < a implies !has_id(id)(#[trigger] m.tabs[j]) by {
        assert(m.tabs[j].id != m.tabs[a].id);
    }
    assert(is_first_where(m.tabs, has_id(id), a));
    lemma_first_where_unique(m.tabs, has_id(id), a);
    let m1 = after_close(m, id);
    assert(m1.tabs == m.tabs.remove(a));
    if a + 1 < m.tabs.len() {
        assert(m1.tabs[a] == m.tabs[a + 1]);
    } else {
        assert(m1.tabs[a - 1] == m.tabs[a - 1]);
    }
}

/// Closing a tab other than the active one leaves the same tab active.
pub proof fn law_close_other_tab_keeps_active(m: AppModel, id: u64)
    requires
        m.wf(),
        m.active matches Some(a) && m.tabs[a as int].id != id,
    ensures
        active_tab(after_close(m, id)) == active_tab(m),
{
    let a = m.active->0 as int;
    let m1 = after_close(m, id);
    match index_of_id(m.tabs, id) {
        Some(i) => {
            assert(is_first_where(m.tabs, has_id(id), i));
            assert(i != a);
            assert(m1.tabs == m.tabs.remove(i));
            if a < i {
                assert(m1.tabs[a] == m.tabs[a]);
            } else {
                assert(m1.tabs[a - 1] == m.tabs[a]);
            }
        },
        None => {},
    }
}

/// Opening a file, whether or not it was already open, makes a tab on
/// that path active and puts the path first among the recent files.
pub proof fn law_open_records_and_activates(m: AppModel, path: Seq<char>)
    requires
        m.wf(),
    ensures
        ({
            let (m1, tab, _) = after_open(m, path);
            &&& m1.recent.len() >= 1
            &&& m1.recent[0] == path
            &&& tab.path == Some(path)
            &&& active_tab(m1) == Some(tab)
        }),
{
    law_push_recent_shape(m.recent, path);
    match index_of_path(m.tabs, path) {
        Some(i) => {
            assert(is_first_where(m.tabs, has_path(path), i));
        },
        None => {},
    }
}

/// Setting the unsaved-changes flag touches only the tab with that id, and
/// of it only the flag; nothing else in the state changes.
pub proof fn law_set_dirty_touches_only_that_tab(m: AppModel, id: u64, dirty: bool)
    requires
        m.wf(),
    ensures
        ({
            let m1 = after_set_dirty(m, id, dirty);
            &&& m1.tabs.len() == m.tabs.len()
            &&& forall|j: int|
                0 <= j < m.tabs.len() && m.tabs[j].id != id ==> #[trigger] m1.tabs[j] == m.tabs[j]
            &&& forall|j: int|
                0 <= j < m.tabs.len() && m.tabs[j].id == id ==> #[trigger] m1.tabs[j] == (TabView {
                    dirty,
                    ..m.tabs[j]
                })
            &&& m1.active == m.active
            &&& m1.next_id == m.next_id
            &&& m1.recent == m.recent
            &&& m1.force_close == m.force_close
        }),
{
    let m1 = after_set_dirty(m, id, dirty);
    match index_of_id(m.tabs, id) {
        Some(i) => {
            assert(is_first_where(m.tabs, has_id(id), i));
            assert forall|j: int| 0 <= j < m.tabs.len() && m.tabs[j].id == id implies j == i by {
                if j != i {
                    if j < i {
                        assert(m.tabs[j].id != m.tabs[i].id);
                    } else {
                        assert(m.tabs[i].id != m.tabs[j].id);
                    }
                }
            }
        },
        None => {
            lemma_none_means_absent(m.tabs, has_id(id));
            assert forall|j: int| 0 <= j < m.tabs.len() implies m.tabs[j].id != id by {
                assert(!has_id(id)(m.tabs[j]));
            }
        },
    }
}

/// Saving a tab to `path` (its own path or a new one) puts the path first
/// among the recent files, leaves that tab on the path with no unsaved
/// changes, and leaves every other tab as it was.
pub proof fn law_save_records_and_cleans(m: AppModel, id: u64, path: Seq<char>)
    requires
        m.wf(),
        exists|k: int| 0 <= k < m.tabs.len() && m.tabs[k].id == id,
    ensures
        ({
            let m1 = after_save(m, id, path);
            &&& m1.recent.len() >= 1
            &&& m1.recent[0] == path
            &&& m1.tabs.len() == m.tabs.len()
            &&& forall|j: int|
                0 <= j < m.tabs.len() && m.tabs[j].id != id ==> #[trigger] m1.tabs[j] == m.tabs[j]
            &&& forall|j: int|
                0 <= j < m.tabs.len() && m.tabs[j].id == id ==> #[trigger] m1.tabs[j] == (TabView {
                    path: Some(path),
                    dirty: false,
                    ..m.tabs[j]
                })
            &&& m1.active == m.active
        }),
{
    let k = choose|k: int| 0 <= k < m.tabs.len() && m.tabs[k].id == id;
    assert(has_id(id)(m.tabs[k]));
    lemma_first_where_exists(m.tabs, has_id(id), k);
    let i = index_of_id(m.tabs, id)->0;
    assert(is_first_where(m.tabs, has_id(id), i));
    law_push_recent_shape(m.recent, path);
    assert forall|j: int| 0 <= j < m.tabs.len() && m.tabs[j].id == id implies j == i by {
        if j != i {
            if j < i {
                assert(m.tabs[j].id != m.tabs[i].id);
            } else {
                assert(m.tabs[i].id != m.tabs[j].id);
            }
        }
    }
}

/// A new tab is untitled, has no unsaved changes, goes after every open
/// tab, and becomes the active one; the tabs already open stay as they were.
pub proof fn law_new_tab_appends_untitled_active(m: AppModel)
    requires
        m.wf(),
        m.next_id < u64::MAX,
    ensures
        ({
            let (m1, tab) = after_new_tab(m);
            &&& tab.path is None
            &&& !tab.dirty
            &&& tab.id == m.next_id + 1
            &&& m1.tabs.len() == m.tabs.len() + 1
            &&& m1.tabs[m.tabs.len() as int] == tab
            &&& forall|j: int| 0 <= j < m.tabs.len() ==> #[trigger] m1.tabs[j] == m.tabs[j]
            &&& active_tab(m1) == Some(tab)
            &&& m1.recent == m.recent
        }),
{
}

/// Switching tabs changes only which tab is active.
pub proof fn law_switch_changes_only_active(m: AppModel, id: u64)
    ensures
        ({
            let m1 = after_switch(m, id);
            &&& m1.tabs == m.tabs
            &&& m1.recent == m.recent
            &&& m1.next_id == m.next_id
            &&& m1.force_close == m.force_close
        }),
{
}

/// Where a save goes: a given path always wins; without one, the tab's own
/// path, and an untitled tab cannot be saved; a tab that is not open cannot
/// be saved at all.
pub proof fn law_save_destination_choice(m: AppModel, id: u64, new_path: Option<Seq<char>>)
    requires
        m.wf(),
    ensures
        (forall|k: int| 0 <= k < m.tabs.len() ==> #[trigger] m.tabs[k].id != id) ==> save_destination(
            m,
            id,
            new_path,
        ) == Err::<Seq<char>, crate::model::SaveRefusal>(crate::model::SaveRefusal::NoTab),
        forall|k: int|
            0 <= k < m.tabs.len() && #[trigger] m.tabs[k].id == id ==> save_destination(m, id, new_path)
                == match new_path {
                Some(p) => Ok(p),
                None => match m.tabs[k].path {
                    Some(p) => Ok(p),
                    None => Err(crate::model::SaveRefusal::NoPath),
                },
            },
{
    match index_of_id(m.tabs, id) {
        Some(i) => {
            assert(is_first_where(m.tabs, has_id(id), i));
            assert forall|k: int| 0 <= k < m.tabs.len() && #[trigger] m.tabs[k].id == id implies k
                == i by {
                if k < i {
                    assert(m.tabs[k].id != m.tabs[i].id);
                } else if k > i {
                    assert(m.tabs[i].id != m.tabs[k].id);
                }
            }
        },
        None => {
            lemma_none_means_absent(m.tabs, has_id(id));
            assert forall|k: int| 0 <= k < m.tabs.len() implies #[trigger] m.tabs[k].id != id by {
                assert(!has_id(id)(m.tabs[k]));
            }
        },
    }
}

} // verus!
