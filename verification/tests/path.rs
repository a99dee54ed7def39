use mutants::path::{path_components, same_components};

fn parts(p: &str) -> Vec<String> {
    path_components(p)
}

#[test]
fn splits_paths_into_components() {
    assert_eq!(parts("a//b/"), vec!["a", "b"]);
    assert_eq!(parts("/a"), vec!["/", "a"]);
    assert_eq!(parts("./a"), vec![".", "a"]);
    assert_eq!(parts("a/./b/."), vec!["a", "b"]);
    assert_eq!(parts("a/../b"), vec!["a", "..", "b"]);
    assert_eq!(parts("."), vec!["."]);
    assert_eq!(parts("/"), vec!["/"]);
    assert!(parts("").is_empty());
}

#[test]
fn compares_component_lists() {
    assert!(same_components(&parts("a//b"), &parts("a/b/")));
    assert!(!same_components(&parts("a/b"), &parts("./a/b")));
    assert!(!same_components(&parts("a/b"), &parts("a/c")));
    assert!(!same_components(&parts("a/b"), &parts("a")));
}
