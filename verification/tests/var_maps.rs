use pages_env::name_order::{compare_names, NameOrder};
use pages_env::var_map::VarMap;

fn listing(map: &VarMap<String>) -> Vec<(String, String)> {
    let mut out = Vec::new();
    let mut i = 0;
    while i < map.len() {
        let (name, value) = map.entry(i);
        out.push((name.clone(), value.clone()));
        i += 1;
    }
    out
}

fn pair(name: &str, value: &str) -> (String, String) {
    (name.to_string(), value.to_string())
}

#[test]
fn new_map_is_empty() {
    let map: VarMap<String> = VarMap::new();
    assert!(map.is_empty());
    assert_eq!(map.len(), 0);
    assert_eq!(map.get("A"), None);
    assert!(!map.contains_key("A"));
}

#[test]
fn insert_keeps_names_in_ascending_order() {
    let mut map = VarMap::new();
    assert_eq!(map.insert("M".to_string(), "13".to_string()), None);
    assert_eq!(map.insert("Z".to_string(), "26".to_string()), None);
    assert_eq!(map.insert("A".to_string(), "1".to_string()), None);
    assert_eq!(map.insert("N".to_string(), "14".to_string()), None);
    assert_eq!(listing(&map), vec![pair("A", "1"), pair("M", "13"), pair("N", "14"), pair("Z", "26")]);
    assert_eq!(map.len(), 4);
    assert!(!map.is_empty());
}

#[test]
fn insert_of_a_known_name_replaces_its_value() {
    let mut map = VarMap::new();
    map.insert("A".to_string(), "1".to_string());
    map.insert("B".to_string(), "2".to_string());
    assert_eq!(map.insert("A".to_string(), "one".to_string()), Some("1".to_string()));
    assert_eq!(listing(&map), vec![pair("A", "one"), pair("B", "2")]);
}

#[test]
fn get_finds_each_name_and_no_other() {
    let mut map = VarMap::new();
    for (name, value) in [("d", "4"), ("b", "2"), ("a", "1"), ("c", "3"), ("e", "5")] {
        map.insert(name.to_string(), value.to_string());
    }
    assert_eq!(map.get("a"), Some(&"1".to_string()));
    assert_eq!(map.get("c"), Some(&"3".to_string()));
    assert_eq!(map.get("e"), Some(&"5".to_string()));
    assert_eq!(map.get(""), None);
    assert_eq!(map.get("bb"), None);
    assert_eq!(map.get("f"), None);
    assert!(map.contains_key("d"));
    assert!(!map.contains_key("D"));
}

#[test]
fn maps_with_the_same_entries_are_equal_whatever_the_order_of_insertion() {
    let mut first = VarMap::new();
    first.insert("A".to_string(), "1".to_string());
    first.insert("B".to_string(), "2".to_string());
    let mut second = VarMap::new();
    second.insert("B".to_string(), "2".to_string());
    second.insert("A".to_string(), "1".to_string());
    assert_eq!(first, second);
}

#[test]
fn names_are_ordered_as_strings_are() {
    let names = ["", "A", "AB", "B", "a", "ab", "b", "~", "é", "z", "日本", "\u{10000}", "\u{ffff}"];
    for a in names {
        for b in names {
            let expected = match a.cmp(b) {
                std::cmp::Ordering::Less => NameOrder::Before,
                std::cmp::Ordering::Equal => NameOrder::Same,
                std::cmp::Ordering::Greater => NameOrder::After,
            };
            assert_eq!(compare_names(a, b), expected);
        }
    }
}

#[test]
fn a_prefix_comes_before_the_longer_name() {
    assert_eq!(compare_names("PATH", "PATHS"), NameOrder::Before);
    assert_eq!(compare_names("PATHS", "PATH"), NameOrder::After);
    assert_eq!(compare_names("PATH", "PATH"), NameOrder::Same);
}

#[test]
fn many_names_are_kept_sorted_and_found_again() {
    let mut map = VarMap::new();
    let mut expected = std::collections::BTreeMap::new();
    let mut seed: u32 = 12345;
    for _ in 0..300 {
        seed = seed.wrapping_mul(1103515245).wrapping_add(12345);
        let name = format!("VAR_{}", (seed >> 16) % 200);
        let value = format!("{}", seed % 7);
        assert_eq!(map.insert(name.clone(), value.clone()), expected.insert(name, value));
    }
    assert_eq!(map.len(), expected.len());
    let wanted: Vec<(String, String)> = expected.into_iter().collect();
    assert_eq!(listing(&map), wanted);
    for (name, value) in &wanted {
        assert_eq!(map.get(name), Some(value));
    }
    assert_eq!(map.get("VAR_"), None);
    assert_eq!(map.get("VAR_200"), None);
}

#[test]
fn names_beyond_ascii_are_ordered_by_their_bytes() {
    let mut map = VarMap::new();
    for name in ["é", "z", "日本", "Z", "\u{10000}", "\u{ffff}", ""] {
        map.insert(name.to_string(), name.len().to_string());
    }
    let names: Vec<String> = listing(&map).into_iter().map(|entry| entry.0).collect();
    assert_eq!(names, vec!["", "Z", "z", "é", "日本", "\u{ffff}", "\u{10000}"]);
}
