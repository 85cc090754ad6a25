use fedit::AppState;

fn strings(v: &[&str]) -> Vec<String> {
    v.iter().map(|s| s.to_string()).collect()
}

#[test]
fn push_recent_puts_path_first() {
    let mut s = AppState::new();
    s.push_recent("a".to_string());
    s.push_recent("b".to_string());
    s.push_recent("c".to_string());
    assert_eq!(s.recent_files(), strings(&["c", "b", "a"]));
}

#[test]
fn push_recent_moves_existing_to_front() {
    let mut s = AppState::new();
    s.push_recent("a".to_string());
    s.push_recent("b".to_string());
    s.push_recent("c".to_string());
    s.push_recent("a".to_string());
    assert_eq!(s.recent_files(), strings(&["a", "c", "b"]));
}

#[test]
fn push_recent_twice_is_once() {
    let mut s = AppState::new();
    s.push_recent("x".to_string());
    s.push_recent("y".to_string());
    let once = {
        let mut t = AppState::new();
        t.push_recent("x".to_string());
        t.push_recent("y".to_string());
        t.recent_files()
    };
    s.push_recent("y".to_string());
    assert_eq!(s.recent_files(), once);
}

#[test]
fn push_recent_keeps_ten() {
    let mut s = AppState::new();
    for i in 0..12 {
        s.push_recent(format!("f{i}"));
    }
    let r = s.recent_files();
    assert_eq!(r.len(), 10);
    assert_eq!(r[0], "f11");
    assert_eq!(r[9], "f2");
}

#[test]
fn push_recent_compares_as_paths() {
    let mut s = AppState::new();
    s.push_recent("dir/file".to_string());
    s.push_recent("dir//file/".to_string());
    assert_eq!(s.recent_files(), strings(&["dir//file/"]));
    s.push_recent("./dir/file".to_string());
    assert_eq!(s.recent_files(), strings(&["./dir/file", "dir//file/"]));
}

#[test]
fn restore_recent_replaces_list() {
    let mut s = AppState::new();
    s.push_recent("old".to_string());
    s.restore_recent(strings(&["p", "q"]));
    assert_eq!(s.recent_files(), strings(&["p", "q"]));
}

#[test]
fn push_recent_keeps_entries_distinct() {
    let mut s = AppState::new();
    for p in ["a", "b/", "a/", "c", "b", "./c"] {
        s.push_recent(p.to_string());
    }
    let r = s.recent_files();
    assert_eq!(r, strings(&["./c", "b", "c", "a/"]));
    for i in 0..r.len() {
        for j in (i + 1)..r.len() {
            assert_ne!(std::path::Path::new(&r[i]), std::path::Path::new(&r[j]));
        }
    }
}
