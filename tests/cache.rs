use analyzer::cache::{
    has_key_prefix, is_child, is_descendant, needs_write, path_of_key, record_file_name,
    record_key, select_by_prefix, select_children, select_descendants, Category,
};

fn strs(v: &[&str]) -> Vec<String> {
    v.iter().map(|s| s.to_string()).collect()
}

#[test]
fn category_directories() {
    assert_eq!(Category::Crates.dir_name(), "crates");
    assert_eq!(Category::Modules.dir_name(), "modules");
    assert_eq!(Category::Structs.dir_name(), "structs");
    assert_eq!(Category::Enums.dir_name(), "enums");
    assert_eq!(Category::Functions.dir_name(), "functions");
}

#[test]
fn record_file_names_and_keys() {
    assert_eq!(record_file_name(&strs(&["my_crate", "a", "S"])), "my_crate::a::S.json");
    assert_eq!(record_file_name(&strs(&["my_crate"])), "my_crate.json");
    assert_eq!(record_key(&"my_crate::a.json".to_string()), Some("my_crate::a".to_string()));
    assert_eq!(record_key(&"notes.txt".to_string()), None);
    assert_eq!(record_key(&"json".to_string()), None);
    assert_eq!(record_key(&".json".to_string()), Some("".to_string()));
}

#[test]
fn keys_split_back_into_paths() {
    assert_eq!(path_of_key(&"my_crate::a::S".to_string()), strs(&["my_crate", "a", "S"]));
    assert_eq!(path_of_key(&"my_crate".to_string()), strs(&["my_crate"]));
    assert_eq!(path_of_key(&"".to_string()), strs(&[""]));
}

#[test]
fn storing_same_content_twice_writes_once() {
    let content = "{\"name\":\"c\"}".to_string();
    assert!(needs_write(&None, &content));
    assert!(needs_write(&Some("{}".to_string()), &content));
    assert!(!needs_write(&Some(content.clone()), &content));
}

#[test]
fn children_are_exactly_one_level_down() {
    let parent = strs(&["c", "a"]);
    assert!(is_child(&"c::a::S".to_string(), &parent));
    assert!(!is_child(&"c::a".to_string(), &parent));
    assert!(!is_child(&"c::a::b::S".to_string(), &parent));
    assert!(!is_child(&"c::ab::S".to_string(), &parent));
    assert!(!is_child(&"d::a::S".to_string(), &parent));
}

#[test]
fn select_children_from_directory_listing() {
    let names = strs(&[
        "c.json",
        "c::a.json",
        "c::a::b.json",
        "c::a::b::d.json",
        "c::ab.json",
        "c::a::x.txt",
        "c::a::e.json",
    ]);
    assert_eq!(select_children(&names, &strs(&["c", "a"])), strs(&["c::a::b", "c::a::e"]));
    assert_eq!(select_children(&names, &strs(&["c"])), strs(&["c::a", "c::ab"]));
    assert!(select_children(&names, &strs(&["z"])).is_empty());
}

#[test]
fn descendants_with_and_without_self() {
    let names = strs(&["c.json", "c::a.json", "c::a::b.json", "c::ab.json", "d::a.json"]);
    let ancestor = strs(&["c", "a"]);
    assert_eq!(select_descendants(&names, &ancestor, false), strs(&["c::a::b"]));
    assert_eq!(select_descendants(&names, &ancestor, true), strs(&["c::a", "c::a::b"]));
    assert!(is_descendant(&"c::a".to_string(), &ancestor, true));
    assert!(!is_descendant(&"c::a".to_string(), &ancestor, false));
    assert!(is_descendant(&"c::a::b::d".to_string(), &ancestor, false));
    assert!(!is_descendant(&"c".to_string(), &ancestor, true));
}

#[test]
fn prefix_selection_matches_text() {
    let names = strs(&["c::Foo.json", "c::FooBar.json", "c::Bar.json"]);
    assert_eq!(select_by_prefix(&names, "c::Foo"), strs(&["c::Foo", "c::FooBar"]));
    assert!(has_key_prefix(&"c::FooBar".to_string(), "c::Foo"));
    assert!(!has_key_prefix(&"c".to_string(), "c::Foo"));
}
