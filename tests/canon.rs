use ao3_sync::canon::filter_fandoms;
use ao3_sync::config::Config;

fn config(map: &[(&str, &str)], filter: &[(&str, &[&str])]) -> Config {
    Config {
        download_path: "some folder/some file".to_owned(),
        ao3_username: Some("test".to_owned()),
        ao3_password: Some("test".to_owned()),
        devices: Vec::new(),
        fandom_map: map.iter().map(|(a, b)| (a.to_string(), b.to_string())).collect(),
        fandom_filter: filter
            .iter()
            .map(|(a, l)| (a.to_string(), l.iter().map(|s| s.to_string()).collect()))
            .collect(),
    }
}

fn tags(t: &[&str]) -> Vec<String> {
    t.iter().map(|s| s.to_string()).collect()
}

const MAP: [(&str, &str); 3] = [
    ("Fandom 1 the big boy", "Fandom 1"),
    ("Fandom 1 TBB", "Fandom 1"),
    ("Fandom 2 the big boy returns", "Fandom 2"),
];

#[test]
fn map() {
    let config = config(&MAP, &[]);
    assert_eq!(
        filter_fandoms(&tags(&["Fandom 1 the big boy", "Fandom 1 TBB"]), &config),
        "Fandom 1"
    );
}

#[test]
fn map_lets_unmatched_fandoms_through() {
    let config = config(&MAP, &[]);
    assert_eq!(
        filter_fandoms(&tags(&["Fandom 4 how is big boy possibly back once again"]), &config),
        "Fandom 4 how is big boy possibly back once again"
    );
}

#[test]
fn filter() {
    let config = config(&[], &[("Fandom 1", &["Fandom 2"]), ("Fandom 2", &["Fandom 3"])]);
    assert_eq!(filter_fandoms(&tags(&["Fandom 1", "Fandom 2"]), &config), "Fandom 1");
}

#[test]
fn recursive_filter() {
    let config = config(&[], &[("Fandom 1", &["Fandom 2"]), ("Fandom 2", &["Fandom 3"])]);
    assert_eq!(
        filter_fandoms(&tags(&["Fandom 1", "Fandom 2", "Fandom 3"]), &config),
        "Fandom 1"
    );
}

#[test]
fn map_and_filter() {
    let config = config(&MAP, &[("Fandom 1", &["Fandom 2"]), ("Fandom 2", &["Fandom 3"])]);
    assert_eq!(
        filter_fandoms(
            &tags(&["Fandom 1 the big boy", "Fandom 1 TBB", "Fandom 2 the big boy returns"]),
            &config
        ),
        "Fandom 1"
    );
}

#[test]
fn map_and_filter_recursive() {
    let mut map = MAP.to_vec();
    map.push(("Fandom 3 god lord big boy is back", "Fandom 3"));
    let config = config(&map, &[("Fandom 1", &["Fandom 2"]), ("Fandom 2", &["Fandom 3"])]);
    assert_eq!(
        filter_fandoms(
            &tags(&[
                "Fandom 1 the big boy",
                "Fandom 1 TBB",
                "Fandom 2 the big boy returns",
                "Fandom 3 god lord big boy is back"
            ]),
            &config
        ),
        "Fandom 1"
    );
}

#[test]
fn single_canonical_fandom_is_the_label() {
    let config = config(&MAP, &[]);
    assert_eq!(filter_fandoms(&tags(&["Fandom 2 the big boy returns"]), &config), "Fandom 2");
    assert_eq!(filter_fandoms(&tags(&["Fandom 7", "Fandom 7"]), &config), "Fandom 7");
}

#[test]
fn unrelated_fandoms_give_multiple() {
    let config = config(&MAP, &[("Fandom 1", &["Fandom 3"])]);
    assert_eq!(
        filter_fandoms(&tags(&["Fandom 1 TBB", "Fandom 2 the big boy returns"]), &config),
        "Multiple"
    );
    assert_eq!(filter_fandoms(&tags(&["X", "Y", "Z"]), &config), "Multiple");
}

#[test]
fn suppression_chain_keeps_only_the_head() {
    let config = config(
        &[("a", "A"), ("b", "B"), ("c", "C")],
        &[("A", &["B"]), ("B", &["C"])],
    );
    assert_eq!(filter_fandoms(&tags(&["c", "b", "a"]), &config), "A");
}

#[test]
fn suppression_needs_the_suppressor_present() {
    let config = config(&[], &[("A", &["B"]), ("B", &["C"])]);
    assert_eq!(filter_fandoms(&tags(&["B", "C"]), &config), "B");
    assert_eq!(filter_fandoms(&tags(&["A", "C"]), &config), "Multiple");
}

#[test]
fn tags_without_rename_pass_through() {
    let config = config(&MAP, &[]);
    assert_eq!(filter_fandoms(&tags(&["Fandom 1"]), &config), "Fandom 1");
    assert_eq!(filter_fandoms(&tags(&["fandom 1 the big boy"]), &config), "fandom 1 the big boy");
}

#[test]
fn no_tags_give_unknown() {
    let config = config(&MAP, &[]);
    assert_eq!(filter_fandoms(&Vec::new(), &config), "Unknown");
}

#[test]
fn self_suppression_leaves_nothing() {
    let config = config(&[], &[("A", &["A"])]);
    assert_eq!(filter_fandoms(&tags(&["A"]), &config), "Unknown");
}

#[test]
fn first_table_entry_counts() {
    let config = config(&[("x", "First"), ("x", "Second")], &[]);
    assert_eq!(filter_fandoms(&tags(&["x"]), &config), "First");
}

#[test]
fn label_ignores_tag_order() {
    let config = config(&[("A", "B"), ("B", "C")], &[]);
    assert_eq!(filter_fandoms(&tags(&["A", "B"]), &config), "Multiple");
    assert_eq!(filter_fandoms(&tags(&["B", "A"]), &config), "Multiple");
    assert_eq!(filter_fandoms(&tags(&["B", "A", "B"]), &config), "Multiple");
    assert_eq!(filter_fandoms(&tags(&["A"]), &config), "B");
}
