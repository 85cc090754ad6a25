use fedit::{find_matches, replace_matches, search_pattern, FeditError, Match};

fn spans(v: &[Match]) -> Vec<(usize, usize)> {
    v.iter().map(|m| (m.start, m.end)).collect()
}

#[test]
fn pattern_literal_is_escaped() {
    assert_eq!(search_pattern("a.b", false, true), "a\\.b");
    assert_eq!(search_pattern("a.b", false, false), "(?i)a\\.b");
    assert_eq!(search_pattern("a.b", true, true), "a.b");
    assert_eq!(search_pattern("a.b", true, false), "(?i)a.b");
    assert_eq!(
        search_pattern("\\.+*?()|[]{}^$#&-~x", false, true),
        "\\\\\\.\\+\\*\\?\\(\\)\\|\\[\\]\\{\\}\\^\\$\\#\\&\\-\\~x"
    );
    assert_eq!(search_pattern("", false, true), "");
}

#[test]
fn find_empty_needle_matches_nothing() {
    let r = find_matches("abc".to_string(), String::new(), true, true).unwrap();
    assert!(r.is_empty());
}

#[test]
fn find_literal_versus_regex() {
    let lit = find_matches("a.b axb".to_string(), "a.b".to_string(), false, true).unwrap();
    assert_eq!(spans(&lit), vec![(0, 3)]);
    let re = find_matches("a.b axb".to_string(), "a.b".to_string(), true, true).unwrap();
    assert_eq!(spans(&re), vec![(0, 3), (4, 7)]);
}

#[test]
fn find_case_flag() {
    let ci = find_matches("ab AB".to_string(), "AB".to_string(), false, false).unwrap();
    assert_eq!(spans(&ci), vec![(0, 2), (3, 5)]);
    let cs = find_matches("ab AB".to_string(), "AB".to_string(), false, true).unwrap();
    assert_eq!(spans(&cs), vec![(3, 5)]);
}

#[test]
fn find_offsets_are_bytes() {
    let r = find_matches("éb".to_string(), "b".to_string(), false, true).unwrap();
    assert_eq!(spans(&r), vec![(2, 3)]);
}

#[test]
fn find_bad_regex_is_error() {
    let e = find_matches("abc".to_string(), "(".to_string(), true, true).unwrap_err();
    assert!(matches!(e, FeditError::Regex(_)));
    assert_eq!(e.kind(), "Regex");
    // the same text searched literally is fine
    let ok = find_matches("a(b".to_string(), "(".to_string(), false, true).unwrap();
    assert_eq!(spans(&ok), vec![(1, 2)]);
}

#[test]
fn replace_empty_needle_keeps_haystack() {
    let r = replace_matches("abc".to_string(), String::new(), "x".to_string(), true, true).unwrap();
    assert_eq!(r, "abc");
}

#[test]
fn replace_literal_and_regex() {
    let lit = replace_matches("a.b.c".to_string(), ".".to_string(), "!".to_string(), false, true).unwrap();
    assert_eq!(lit, "a!b!c");
    let re = replace_matches("a.b.c".to_string(), ".".to_string(), "!".to_string(), true, true).unwrap();
    assert_eq!(re, "!!!!!");
    let groups =
        replace_matches("ab ab".to_string(), "(a)(b)".to_string(), "$2$1".to_string(), true, true).unwrap();
    assert_eq!(groups, "ba ba");
}

#[test]
fn replace_case_insensitive() {
    let r = replace_matches("Cat cat CAT".to_string(), "cat".to_string(), "dog".to_string(), false, false)
        .unwrap();
    assert_eq!(r, "dog dog dog");
    let r = replace_matches("Cat cat CAT".to_string(), "cat".to_string(), "dog".to_string(), false, true)
        .unwrap();
    assert_eq!(r, "Cat dog CAT");
}

#[test]
fn replace_bad_regex_is_error() {
    let e = replace_matches("abc".to_string(), "[".to_string(), "x".to_string(), true, false).unwrap_err();
    assert!(matches!(e, FeditError::Regex(_)));
}

#[test]
fn empty_matches_fall_on_char_boundaries() {
    let r = find_matches("éa".to_string(), "x*".to_string(), true, true).unwrap();
    assert_eq!(spans(&r), vec![(0, 0), (2, 2), (3, 3)]);
    for m in &r {
        assert!("éa".is_char_boundary(m.start) && "éa".is_char_boundary(m.end));
    }
    for w in r.windows(2) {
        assert!(w[0].start < w[1].start && w[0].end <= w[1].start);
    }
}

#[test]
fn replace_splices_found_ranges() {
    let hay = "one two one two".to_string();
    let found = find_matches(hay.clone(), "t.o".to_string(), true, true).unwrap();
    let replaced =
        replace_matches(hay.clone(), "t.o".to_string(), "2".to_string(), true, true).unwrap();
    let mut expect = String::new();
    let mut last = 0;
    for m in &found {
        expect.push_str(&hay[last..m.start]);
        expect.push_str("2");
        last = m.end;
    }
    expect.push_str(&hay[last..]);
    assert_eq!(replaced, expect);
    assert_eq!(replaced, "one 2 one 2");
}

#[test]
fn replace_with_nothing_found_keeps_haystack() {
    let r = replace_matches("abc".to_string(), "z".to_string(), "y".to_string(), false, true).unwrap();
    assert_eq!(r, "abc");
}
