use logi_headset::nodes::{name_precedes, sort_names};

fn strings(v: &[&str]) -> Vec<String> {
    v.iter().map(|s| s.to_string()).collect()
}

#[test]
fn hidraw_nodes_sorted_by_name() {
    let mut names = strings(&["hidraw2", "hidraw10", "hidraw0", "hidraw1"]);
    sort_names(&mut names);
    assert_eq!(names, strings(&["hidraw0", "hidraw1", "hidraw10", "hidraw2"]));
}

#[test]
fn sorting_keeps_every_name() {
    let mut names = strings(&["b", "a", "b", "", "ab"]);
    let mut expected = names.clone();
    expected.sort();
    sort_names(&mut names);
    assert_eq!(names, expected);
    assert_eq!(names, strings(&["", "a", "ab", "b", "b"]));
}

#[test]
fn empty_list_stays_empty() {
    let mut names: Vec<String> = Vec::new();
    sort_names(&mut names);
    assert!(names.is_empty());
}

#[test]
fn name_order_by_code_point() {
    assert!(name_precedes("a", "ab"));
    assert!(!name_precedes("ab", "a"));
    assert!(name_precedes("same", "same"));
    assert!(name_precedes("Z", "a"));
    assert!(!name_precedes("\u{e9}", "z"));
    assert!(name_precedes("", ""));
}
