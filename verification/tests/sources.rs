use mutants::replay::{
    data_to_copy, env_entry, normalize_newlines, out_dir_arg, replay_arg, runfiles_entry,
    substitute, suite_arg, ReplayArg, RunfilesEntry,
};
use mutants::sources::Sources;

#[test]
fn reads_back_what_was_set_law() {
    let mut s = Sources::new();
    assert_eq!(s.len(), 0);
    s.insert("a.rs".to_owned(), "one".to_owned());
    s.insert("b.rs".to_owned(), "two".to_owned());
    s.insert("a.rs".to_owned(), "three".to_owned());
    assert_eq!(s.len(), 2);
    assert_eq!(s.get("a.rs").map(|t| t.as_str()), Some("three"));
    assert_eq!(s.get("b.rs").map(|t| t.as_str()), Some("two"));
    assert_eq!(s.get("c.rs"), None);
    assert!(s.contains("b.rs"));
    assert!(!s.contains("c.rs"));
    let mut paths: Vec<String> = (0..s.len()).map(|i| s.entry(i).0.clone()).collect();
    paths.sort();
    assert_eq!(paths, vec!["a.rs", "b.rs"]);
}

#[test]
fn copies_only_data_that_is_not_a_source() {
    let mut s = Sources::new();
    s.insert("src/lib.rs".to_owned(), String::new());
    let data = vec!["data.bin".to_owned(), "src/lib.rs".to_owned(), "x.txt".to_owned()];
    assert_eq!(data_to_copy(&s, &data), vec!["data.bin", "x.txt"]);
}

#[test]
fn substitutes() {
    assert_eq!(substitute("--out=bazel-out/a", "bazel-out/a", "/tmp/bin"), "--out=/tmp/bin");
    assert_eq!(normalize_newlines("a\r\nb\rc\r\n"), "a\nb\rc\n");
}

#[test]
fn expands_environment_entries() {
    assert_eq!(
        env_entry("RUSTFLAGS=${pwd}/x:${exec_root}:${output_base}", "/r"),
        Ok(("RUSTFLAGS".to_owned(), "/r/x:/r:/r".to_owned()))
    );
    assert_eq!(env_entry("A=b=c", "/r"), Ok(("A".to_owned(), "b=c".to_owned())));
    assert_eq!(env_entry("mal\tformed", "/r"), Err("malformed env entry \"mal\\tformed\"".to_owned()));
}

#[test]
fn splits_runfiles_entries() {
    match runfiles_entry("a/b /abs/a/b c") {
        RunfilesEntry::Link(rel, target) => {
            assert_eq!(rel, "a/b");
            assert_eq!(target, "/abs/a/b c");
        }
        RunfilesEntry::Empty(_) => panic!("expected a link"),
    }
    match runfiles_entry("empty_file") {
        RunfilesEntry::Empty(rel) => assert_eq!(rel, "empty_file"),
        RunfilesEntry::Link(..) => panic!("expected an empty file"),
    }
    match runfiles_entry("trailing ") {
        RunfilesEntry::Empty(rel) => assert_eq!(rel, "trailing"),
        RunfilesEntry::Link(..) => panic!("expected an empty file"),
    }
}

#[test]
fn redirects_rustc_arguments() {
    match replay_arg("--out-dir=bazel-out/x", "out", "bin", "src/lib.rs", "/s/src/lib.rs") {
        ReplayArg::OutDir(d) => assert_eq!(d, "bazel-out/x"),
        ReplayArg::Plain(_) => panic!("expected an out-dir"),
    }
    match replay_arg("-o=out/test", "out/test", "/s/bin", "src/lib.rs", "/s/src/lib.rs") {
        ReplayArg::Plain(a) => assert_eq!(a, "-o=/s/bin"),
        ReplayArg::OutDir(_) => panic!("expected a plain argument"),
    }
    match replay_arg("src/lib.rs", "out/test", "/s/bin", "src/lib.rs", "/s/src/lib.rs") {
        ReplayArg::Plain(a) => assert_eq!(a, "/s/src/lib.rs"),
        ReplayArg::OutDir(_) => panic!("expected a plain argument"),
    }
    assert_eq!(out_dir_arg("/s/bazel-out/x"), "--out-dir=/s/bazel-out/x");
}

#[test]
fn looks_sources_up_by_path_components() {
    let mut s = Sources::new();
    s.insert("a/b.rs".to_owned(), "one".to_owned());
    assert_eq!(s.get("a//b.rs").map(|t| t.as_str()), Some("one"));
    assert_eq!(s.get("a/./b.rs").map(|t| t.as_str()), Some("one"));
    assert!(s.contains("a/b.rs/"));
    assert!(!s.contains("./a/b.rs"));
    assert!(!s.contains("/a/b.rs"));
    assert!(!s.contains("a/../a/b.rs"));
    s.insert("a//b.rs".to_owned(), "two".to_owned());
    assert_eq!(s.len(), 1);
    assert_eq!(s.entry(0).0, "a/b.rs");
    assert_eq!(s.get("a/b.rs").map(|t| t.as_str()), Some("two"));
}

#[test]
fn data_named_differently_is_still_a_source() {
    let mut s = Sources::new();
    s.insert("src/lib.rs".to_owned(), String::new());
    let data = vec!["src//lib.rs".to_owned(), "src/./lib.rs".to_owned(), "./src/lib.rs".to_owned()];
    assert_eq!(data_to_copy(&s, &data), vec!["./src/lib.rs"]);
}

#[test]
fn links_integration_suites_against_the_rebuilt_library() {
    let lib = "bazel-out/k8/bin/libx-1.rlib";
    match suite_arg("--extern=x=bazel-out/k8/bin/libx-1.rlib", "out/t", "/s/t", lib, "/s/libx-1.rlib") {
        ReplayArg::Plain(a) => assert_eq!(a, "--extern=x=/s/libx-1.rlib"),
        ReplayArg::OutDir(_) => panic!("expected a plain argument"),
    }
    match suite_arg("-o=out/t", "out/t", "/s/t", lib, "/s/libx-1.rlib") {
        ReplayArg::Plain(a) => assert_eq!(a, "-o=/s/t"),
        ReplayArg::OutDir(_) => panic!("expected a plain argument"),
    }
    match suite_arg("--out-dir=bazel-out/k8/bin", "out/t", "/s/t", lib, "/s/libx-1.rlib") {
        ReplayArg::OutDir(d) => assert_eq!(d, "bazel-out/k8/bin"),
        ReplayArg::Plain(_) => panic!("expected an out-dir"),
    }
    match suite_arg("tests/parser.rs", "out/t", "/s/t", lib, "/s/libx-1.rlib") {
        ReplayArg::Plain(a) => assert_eq!(a, "tests/parser.rs"),
        ReplayArg::OutDir(_) => panic!("expected a plain argument"),
    }
}
