use fedit::{AppState, FeditError, Tab};

fn ids(tabs: &[Tab]) -> Vec<u64> {
    tabs.iter().map(|t| t.id).collect()
}

fn active_id(s: &AppState) -> Option<u64> {
    s.active_tab().map(|t| t.id)
}

#[test]
fn fresh_state_is_empty() {
    let s = AppState::new();
    assert!(s.list_tabs().is_empty());
    assert!(s.active_tab().is_none());
    assert!(s.recent_files().is_empty());
    assert_eq!(s.next_id(), 0);
    assert!(!s.any_dirty());
}

#[test]
fn bump_id_counts_up_from_one() {
    let mut s = AppState::new();
    assert_eq!(s.bump_id(), 1);
    assert_eq!(s.bump_id(), 2);
    assert_eq!(s.next_id(), 2);
}

#[test]
fn new_tab_is_untitled_clean_and_active() {
    let mut s = AppState::new();
    let t1 = s.new_tab();
    assert_eq!(t1, Tab { id: 1, path: None, dirty: false });
    let t2 = s.new_tab();
    assert_eq!(t2.id, 2);
    assert_eq!(ids(&s.list_tabs()), vec![1, 2]);
    assert_eq!(active_id(&s), Some(2));
}

#[test]
fn new_tab_id_is_fresh() {
    let mut s = AppState::new();
    let a = s.new_tab();
    let b = s.new_tab();
    s.close_tab(b.id);
    let c = s.new_tab();
    assert_ne!(c.id, a.id);
    assert_ne!(c.id, b.id);
    assert_eq!(c.id, 3);
}

#[test]
fn open_tab_creates_tab_and_records_recent() {
    let mut s = AppState::new();
    let o = s.open_tab("/tmp/a.txt".to_string(), "hello".to_string());
    assert!(!o.already_open);
    assert_eq!(o.contents, "hello");
    assert_eq!(o.tab, Tab { id: 1, path: Some("/tmp/a.txt".to_string()), dirty: false });
    assert_eq!(active_id(&s), Some(1));
    assert_eq!(s.recent_files(), vec!["/tmp/a.txt".to_string()]);
}

#[test]
fn open_tab_twice_switches_to_existing() {
    let mut s = AppState::new();
    let first = s.open_tab("/x/one".to_string(), "1".to_string());
    s.new_tab();
    assert_eq!(active_id(&s), Some(2));
    let second = s.open_tab("/x/one".to_string(), "1 again".to_string());
    assert!(second.already_open);
    assert_eq!(second.tab, first.tab);
    assert_eq!(second.contents, "1 again");
    assert_eq!(s.list_tabs().len(), 2);
    assert_eq!(active_id(&s), Some(first.tab.id));
    assert_eq!(s.recent_files(), vec!["/x/one".to_string()]);
    assert_eq!(s.next_id(), 2);
}

#[test]
fn open_tab_compares_path_text_exactly() {
    let mut s = AppState::new();
    s.open_tab("a/b".to_string(), String::new());
    let o = s.open_tab("a//b".to_string(), String::new());
    assert!(!o.already_open);
    assert_eq!(s.list_tabs().len(), 2);
    // the recent list compares as paths, so only one entry is kept
    assert_eq!(s.recent_files(), vec!["a//b".to_string()]);
}

#[test]
fn find_index_and_find_path_index() {
    let mut s = AppState::new();
    s.new_tab();
    s.open_tab("p".to_string(), String::new());
    assert_eq!(s.find_index(1), Some(0));
    assert_eq!(s.find_index(2), Some(1));
    assert_eq!(s.find_index(9), None);
    assert_eq!(s.find_path_index("p"), Some(1));
    assert_eq!(s.find_path_index("q"), None);
    assert_eq!(s.find_path_index(""), None);
}

#[test]
fn close_last_active_moves_to_new_last() {
    let mut s = AppState::new();
    s.new_tab();
    s.new_tab();
    s.new_tab();
    let left = s.close_tab(3);
    assert_eq!(ids(&left), vec![1, 2]);
    assert_eq!(active_id(&s), Some(2));
}

#[test]
fn close_active_in_middle_keeps_position() {
    let mut s = AppState::new();
    s.new_tab();
    s.new_tab();
    s.new_tab();
    s.switch_tab(2).unwrap();
    let left = s.close_tab(2);
    assert_eq!(ids(&left), vec![1, 3]);
    assert_eq!(active_id(&s), Some(3));
}

#[test]
fn close_before_active_shifts_active_down() {
    let mut s = AppState::new();
    s.new_tab();
    s.new_tab();
    s.new_tab();
    s.close_tab(1);
    assert_eq!(active_id(&s), Some(3));
    assert_eq!(s.find_index(3), Some(1));
}

#[test]
fn close_after_active_leaves_active() {
    let mut s = AppState::new();
    s.new_tab();
    s.new_tab();
    s.new_tab();
    s.switch_tab(1).unwrap();
    s.close_tab(3);
    assert_eq!(active_id(&s), Some(1));
}

#[test]
fn close_every_tab_clears_active() {
    let mut s = AppState::new();
    s.new_tab();
    s.new_tab();
    s.close_tab(1);
    let left = s.close_tab(2);
    assert!(left.is_empty());
    assert!(s.active_tab().is_none());
}

#[test]
fn close_unknown_tab_changes_nothing() {
    let mut s = AppState::new();
    s.new_tab();
    s.new_tab();
    s.switch_tab(1).unwrap();
    let left = s.close_tab(42);
    assert_eq!(ids(&left), vec![1, 2]);
    assert_eq!(active_id(&s), Some(1));
}

#[test]
fn close_new_tab_restores_tabs() {
    let mut s = AppState::new();
    s.new_tab();
    s.open_tab("f".to_string(), String::new());
    let before = s.list_tabs();
    let t = s.new_tab();
    let after = s.close_tab(t.id);
    assert_eq!(after, before);
}

#[test]
fn closed_tab_is_gone() {
    let mut s = AppState::new();
    s.new_tab();
    s.new_tab();
    s.close_tab(1);
    assert_eq!(s.find_index(1), None);
    assert!(matches!(s.switch_tab(1), Err(FeditError::NoTab)));
}

#[test]
fn switch_tab_makes_active_or_fails() {
    let mut s = AppState::new();
    s.new_tab();
    s.new_tab();
    assert!(s.switch_tab(1).is_ok());
    assert_eq!(active_id(&s), Some(1));
    let e = s.switch_tab(5).unwrap_err();
    assert!(matches!(e, FeditError::NoTab));
    assert_eq!(active_id(&s), Some(1));
}

#[test]
fn set_tab_dirty_and_any_dirty() {
    let mut s = AppState::new();
    s.new_tab();
    s.new_tab();
    assert!(!s.any_dirty());
    s.set_tab_dirty(2, true).unwrap();
    assert!(s.any_dirty());
    assert!(s.list_tabs()[1].dirty);
    assert!(!s.list_tabs()[0].dirty);
    s.set_tab_dirty(2, false).unwrap();
    assert!(!s.any_dirty());
    assert!(matches!(s.set_tab_dirty(7, true), Err(FeditError::NoTab)));
    assert!(!s.any_dirty());
}

#[test]
fn save_target_errors_and_choices() {
    let mut s = AppState::new();
    let untitled = s.new_tab();
    let named = s.open_tab("/d/n.txt".to_string(), String::new()).tab;
    assert!(matches!(s.save_target(99, None), Err(FeditError::NoTab)));
    assert!(matches!(s.save_target(99, Some("x".to_string())), Err(FeditError::NoTab)));
    assert!(matches!(s.save_target(untitled.id, None), Err(FeditError::NoPath)));
    assert_eq!(s.save_target(untitled.id, Some("/d/new.txt".to_string())).unwrap(), "/d/new.txt");
    assert_eq!(s.save_target(named.id, None).unwrap(), "/d/n.txt");
    assert_eq!(s.save_target(named.id, Some("/d/other".to_string())).unwrap(), "/d/other");
}

#[test]
fn complete_save_names_and_cleans_tab() {
    let mut s = AppState::new();
    let t = s.new_tab();
    s.set_tab_dirty(t.id, true).unwrap();
    let path = s.save_target(t.id, Some("/d/s.txt".to_string())).unwrap();
    s.complete_save(t.id, path.clone()).unwrap();
    let now = s.active_tab().unwrap();
    assert_eq!(now, Tab { id: t.id, path: Some("/d/s.txt".to_string()), dirty: false });
    assert!(!s.any_dirty());
    assert_eq!(s.recent_files(), vec!["/d/s.txt".to_string()]);
    // saved in place next time
    assert_eq!(s.save_target(t.id, None).unwrap(), "/d/s.txt");
    assert!(matches!(s.complete_save(55, "z".to_string()), Err(FeditError::NoTab)));
}

#[test]
fn close_request_guard() {
    let mut s = AppState::new();
    assert!(!s.on_close_requested());
    let t = s.new_tab();
    assert!(!s.on_close_requested());
    s.set_tab_dirty(t.id, true).unwrap();
    assert!(s.on_close_requested());
    assert!(s.on_close_requested());
}

#[test]
fn forced_close_is_one_shot() {
    let mut s = AppState::new();
    let t = s.new_tab();
    s.set_tab_dirty(t.id, true).unwrap();
    s.request_force_close();
    assert!(!s.on_close_requested());
    assert!(s.on_close_requested());
}

#[test]
fn forced_close_used_up_even_when_clean() {
    let mut s = AppState::new();
    s.new_tab();
    s.request_force_close();
    assert!(!s.on_close_requested());
    let t = s.new_tab();
    s.set_tab_dirty(t.id, true).unwrap();
    assert!(s.on_close_requested());
}

#[test]
fn tab_clone_is_equal() {
    let t = Tab { id: 7, path: Some("q".to_string()), dirty: true };
    assert_eq!(t.clone(), t);
    let u = Tab { id: 8, path: None, dirty: false };
    assert_eq!(u.clone(), u);
}
