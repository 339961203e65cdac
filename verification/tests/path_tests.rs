use tarpaulin_config::path::{components, join, path_relative_from, relative_components, PathComponent};

#[test]
fn relative_path_test() {
    let path_a = "/this/should/form/a/rel/path/";
    let path_b = "/this/should/form/b/rel/path/";

    let rel_path = path_relative_from(path_b, path_a);
    assert!(rel_path.is_some());
    assert_eq!(rel_path.unwrap(), "../../../b/rel/path", "Wrong relative path");

    let path_a = "/this/should/not/form/a/rel/path/";
    let path_b = "./this/should/not/form/a/rel/path/";

    let rel_path = path_relative_from(path_b, path_a);
    assert_eq!(rel_path, None, "Did not expect relative path");

    let path_a = "./this/should/form/a/rel/path/";
    let path_b = "./this/should/form/b/rel/path/";

    let rel_path = path_relative_from(path_b, path_a);
    assert!(rel_path.is_some());
    assert_eq!(rel_path.unwrap(), "../../../b/rel/path", "Wrong relative path");
}

#[test]
fn relative_to_itself_is_empty() {
    assert_eq!(path_relative_from("/a/b/c", "/a/b/c"), Some(String::new()));
    assert_eq!(path_relative_from("x/./y", "x/y"), Some(String::new()));
}

#[test]
fn absolute_path_from_relative_base_is_unchanged() {
    assert_eq!(path_relative_from("/a//b/", "rel"), Some("/a//b/".to_string()));
}

#[test]
fn descend_and_climb() {
    assert_eq!(path_relative_from("/a/b/c/d", "/a/b"), Some("c/d".to_string()));
    assert_eq!(path_relative_from("/a", "/a/b/c"), Some("../..".to_string()));
}

#[test]
fn parent_in_base_has_no_relative_path() {
    assert_eq!(path_relative_from("a/b", "../c"), None);
}

#[test]
fn current_dir_in_base_keeps_component() {
    assert_eq!(path_relative_from("a/b", "./c"), Some("a/../b".to_string()));
}

#[test]
fn components_of_path() {
    let cs = components("/usr//lib/./x/");
    assert_eq!(cs.len(), 4);
    assert!(matches!(cs[0], PathComponent::RootDir));
    assert!(matches!(&cs[1], PathComponent::Normal(s) if s == "usr"));
    assert!(matches!(&cs[3], PathComponent::Normal(s) if s == "x"));
    let cs = components("./../a");
    assert!(matches!(cs[0], PathComponent::CurDir));
    assert!(matches!(cs[1], PathComponent::ParentDir));
}

#[test]
fn join_puts_separators() {
    let cs = vec![
        PathComponent::RootDir,
        PathComponent::Normal("a".to_string()),
        PathComponent::ParentDir,
        PathComponent::Normal("b".to_string()),
    ];
    assert_eq!(join(&cs), "/a/../b");
    assert_eq!(join(&vec![]), "");
}

#[test]
fn relative_components_of_plain_paths() {
    let p = components("/x/y/z");
    let b = components("/x/q");
    let rel = relative_components(&p, &b).unwrap();
    assert_eq!(join(&rel), "../y/z");
}

#[test]
fn target_with_parent_components() {
    // Resolving "/a" + "../b" gives "/b", as resolving "/a/../b" does.
    assert_eq!(path_relative_from("/a/../b", "/a"), Some("../b".to_string()));
    assert_eq!(path_relative_from("./x", "y"), Some(".././x".to_string()));
}

#[test]
fn relative_to_joined_base() {
    assert_eq!(path_relative_from("./b/c/d", "./b"), Some("c/d".to_string()));
    assert_eq!(path_relative_from("./b", "./b/c/d"), Some("../..".to_string()));
    assert_eq!(path_relative_from("x/../y/z", "x/../y"), Some("z".to_string()));
}

#[test]
fn parent_where_paths_part_has_no_relative_path() {
    assert_eq!(path_relative_from("x/y", "x/../z"), None);
    assert_eq!(path_relative_from("a/b", "./../c"), None);
    assert_eq!(path_relative_from("x/y", "x/z/.."), Some("../../y".to_string()));
}
