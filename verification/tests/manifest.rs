use mutants::listing::{cargo_manifest, parse_list_args};
use mutants::manifest::{at_file, expand_args, parse_manifest};

fn args(items: &[&str]) -> Vec<String> {
    items.iter().map(|s| s.to_string()).collect()
}

fn required() -> Vec<&'static str> {
    vec![
        "--process-wrapper", "pw", "--mutants", "m.json", "--env", "env.txt", "--crate-root",
        "src/lib.rs", "--output", "out/test",
    ]
}

#[test]
fn reads_a_complete_manifest() {
    let mut a = required();
    a.extend(["--src", "a.rs", "--src", "b.rs", "--rustc-args", "args.txt", "--test-arg", "--nocapture"]);
    a.extend(["--compile-data", "d.bin", "--jobs", "4", "--timeout-multiplier", "3"]);
    let m = parse_manifest(&args(&a)).unwrap();
    assert_eq!(m.process_wrapper, "pw");
    assert_eq!(m.mutants, "m.json");
    assert_eq!(m.env, "env.txt");
    assert_eq!(m.crate_root, "src/lib.rs");
    assert_eq!(m.output, "out/test");
    assert_eq!(m.srcs, vec!["a.rs", "b.rs"]);
    assert_eq!(m.rustc_args, vec!["args.txt"]);
    assert_eq!(m.test_args, vec!["--nocapture"]);
    assert_eq!(m.compile_data, vec!["d.bin"]);
    assert_eq!(m.jobs, 4);
    assert_eq!(m.timeout_multiplier, 3);
}

#[test]
fn defaults_and_floors() {
    let m = parse_manifest(&args(&required())).unwrap();
    assert_eq!(m.jobs, 1);
    assert_eq!(m.timeout_multiplier, 5);
    let mut a = required();
    a.extend(["--jobs", "0", "--timeout-multiplier", "0"]);
    let m = parse_manifest(&args(&a)).unwrap();
    assert_eq!(m.jobs, 1);
    assert_eq!(m.timeout_multiplier, 1);
}

#[test]
fn last_single_value_wins() {
    let mut a = required();
    a.extend(["--output", "other"]);
    assert_eq!(parse_manifest(&args(&a)).unwrap().output, "other");
}

#[test]
fn manifest_errors() {
    assert_eq!(parse_manifest(&args(&["--src"])).err().unwrap(), "missing value for --src");
    assert_eq!(parse_manifest(&args(&["--bogus", "x"])).err().unwrap(), "unknown flag --bogus");
    assert_eq!(parse_manifest(&args(&[])).err().unwrap(), "missing --process-wrapper");
    assert_eq!(
        parse_manifest(&args(&["--process-wrapper", "p", "--mutants", "m"])).err().unwrap(),
        "missing --env"
    );
    assert_eq!(
        parse_manifest(&args(&["--jobs", "x"])).err().unwrap(),
        "bad --jobs x: invalid digit found in string"
    );
    assert_eq!(
        parse_manifest(&args(&["--timeout-multiplier", "99999999999"])).err().unwrap(),
        "bad --timeout-multiplier 99999999999: number too large to fit in target type"
    );
    assert_eq!(
        parse_manifest(&args(&["--jobs", ""])).err().unwrap(),
        "bad --jobs : cannot parse integer from empty string"
    );
}

#[test]
fn recognizes_at_files() {
    assert_eq!(at_file("@params.txt"), Some("params.txt".to_owned()));
    assert_eq!(at_file("--src"), None);
}

#[test]
fn reads_lister_arguments() {
    let a = args(&[
        "--cargo-mutants", "cm", "--cargo", "cargo", "--crate-name", "mylib", "--edition", "2021",
        "--crate-root", "lib.rs", "--output", "out.json", "--src", "lib.rs", "--config", "m.toml",
    ]);
    let l = parse_list_args(&a).unwrap();
    assert_eq!(l.cargo_mutants, "cm");
    assert_eq!(l.cargo, "cargo");
    assert_eq!(l.crate_name, "mylib");
    assert_eq!(l.edition, "2021");
    assert_eq!(l.crate_root, "lib.rs");
    assert_eq!(l.output, "out.json");
    assert_eq!(l.srcs, vec!["lib.rs"]);
    assert_eq!(l.config, Some("m.toml".to_owned()));
}

#[test]
fn lister_errors() {
    assert_eq!(parse_list_args(&args(&["--cargo"])).err().unwrap(), "missing value for --cargo");
    assert_eq!(parse_list_args(&args(&["-x", "1"])).err().unwrap(), "unknown flag -x");
    assert_eq!(
        parse_list_args(&args(&["--cargo-mutants", "cm"])).err().unwrap(),
        "missing --cargo"
    );
}

#[test]
fn writes_the_synthetic_cargo_manifest() {
    assert_eq!(
        cargo_manifest("mylib", "2021", "src/lib.rs"),
        "[workspace]\n\n[package]\nname = \"mylib\"\nversion = \"0.0.0\"\nedition = \"2021\"\n\n\
         [lib]\nname = \"mylib\"\npath = \"src/lib.rs\"\ndoctest = false\n\n[dependencies]\n"
    );
}

#[test]
fn reads_the_library_and_its_integration_suites() {
    let m = parse_manifest(&args(&required())).unwrap();
    assert!(m.library_output.is_none());
    assert!(m.library_rustc_args.is_empty());
    assert!(m.integration_tests.is_empty());
    let mut a = required();
    a.extend(["--library-rustc-args", "lib1.txt", "--library-output", "out/libx.rlib"]);
    a.extend(["--integration-test", "out/parser_test", "--integration-test-rustc-args", "p1.txt"]);
    a.extend(["--integration-test-rustc-args", "p2.txt", "--library-rustc-args", "lib2.txt"]);
    a.extend(["--integration-test", "out/planner_test"]);
    let m = parse_manifest(&args(&a)).unwrap();
    assert_eq!(m.library_rustc_args, vec!["lib1.txt", "lib2.txt"]);
    assert_eq!(m.library_output, Some("out/libx.rlib".to_owned()));
    assert_eq!(m.integration_tests.len(), 2);
    assert_eq!(m.integration_tests[0].output, "out/parser_test");
    assert_eq!(m.integration_tests[0].rustc_args, vec!["p1.txt", "p2.txt"]);
    assert_eq!(m.integration_tests[1].output, "out/planner_test");
    assert!(m.integration_tests[1].rustc_args.is_empty());
}

#[test]
fn integration_suite_errors() {
    let mut a = required();
    a.extend(["--integration-test-rustc-args", "p.txt"]);
    assert_eq!(
        parse_manifest(&args(&a)).err().unwrap(),
        "--integration-test-rustc-args before any --integration-test"
    );
    let mut a = required();
    a.extend(["--integration-test", "out/t"]);
    assert_eq!(parse_manifest(&args(&a)).err().unwrap(), "--integration-test needs --library-output");
    let mut a = required();
    a.extend(["--library-output", "out/libx.rlib"]);
    assert_eq!(
        parse_manifest(&args(&a)).err().unwrap(),
        "--library-output needs --library-rustc-args"
    );
}

#[test]
fn splices_at_files_in_place() {
    let a = args(&["--src", "@m.txt", "tail", "@empty.txt"]);
    let files = args(&["", "x\ny\r\n\nz", "", ""]);
    assert_eq!(expand_args(&a, &files), vec!["--src", "x", "y", "", "z", "tail"]);
    assert_eq!(expand_args(&args(&["@short.txt"]), &Vec::new()), Vec::<String>::new());
}
