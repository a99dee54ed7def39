use mutants::mutant::{
    judge, label, locate, mutant_fields, mutated_source, parse_mutant_list, Mutant, MutantFields,
    MutantList, Outcome,
};
use mutants::report::report;
use mutants::sources::Sources;
use mutants::expect::{missed_check, output_check};

const LIST: &str = r#"[{"file":"src/example/under_tested.rs","function":{"function_name":"triple"},
"replacement":"0","span":{"start":{"line":7,"column":5},"end":{"line":7,"column":10}}},
{"file":"other.rs","replacement":"1"}]"#;

fn fields(file: Option<&str>) -> MutantFields {
    MutantFields {
        file: file.map(|s| s.to_owned()),
        replacement: Some("0".to_owned()),
        start_line: Some(1),
        start_column: Some(2),
        end_line: Some(1),
        end_column: Some(3),
        function_name: None,
        shown: "{}".to_owned(),
    }
}

#[test]
fn parses_the_mutant_list() {
    match parse_mutant_list("not json") {
        MutantList::NotJson(m) => assert_eq!(m, "expected ident at line 1 column 2"),
        _ => panic!("expected a parse error"),
    }
    assert!(matches!(parse_mutant_list("{}"), MutantList::NotArray));
    let items = match parse_mutant_list(LIST) {
        MutantList::Mutants(items) => items,
        _ => panic!("expected an array"),
    };
    assert_eq!(items.len(), 2);
    assert_eq!(items[1]["file"].as_str(), Some("other.rs"));
    assert_eq!(items[0]["span"]["start"]["line"].as_u64(), Some(7));
    assert!(matches!(parse_mutant_list("[]"), MutantList::Mutants(v) if v.is_empty()));
    assert!(matches!(parse_mutant_list("3"), MutantList::NotArray));
    let m = locate(&mutant_fields(&items[0])).unwrap();
    assert_eq!(m.file, "example/under_tested.rs");
    assert_eq!(m.replacement, "0");
    assert_eq!(m.start, (7, 5));
    assert_eq!(m.end, (7, 10));
    assert_eq!(m.function_name, Some("triple".to_owned()));
    let err = locate(&mutant_fields(&items[1])).err().unwrap();
    assert_eq!(
        err,
        r#"mutant has no `src/`-relative file field: {"file":"other.rs","replacement":"1"}"#
    );
}

#[test]
fn locate_errors() {
    assert!(locate(&fields(None)).err().unwrap().starts_with("mutant has no `src/`-relative"));
    let mut f = fields(Some("src/a.rs"));
    f.replacement = None;
    assert_eq!(locate(&f).err().unwrap(), "mutant has no replacement: {}");
    let mut f = fields(Some("src/a.rs"));
    f.end_column = None;
    assert_eq!(locate(&f).err().unwrap(), "mutant has no span.end.column: {}");
    let mut f = fields(Some("src/a.rs"));
    f.start_line = None;
    f.end_line = None;
    assert_eq!(locate(&f).err().unwrap(), "mutant has no span.start.line: {}");
}

#[test]
fn mutates_the_named_source() {
    let mut s = Sources::new();
    s.insert("a.rs".to_owned(), "fn t(x: i32) -> i32 {\n    x * 3\n}\n".to_owned());
    let m = Mutant {
        file: "a.rs".to_owned(),
        replacement: "0".to_owned(),
        start: (2, 5),
        end: (2, 10),
        function_name: Some("t".to_owned()),
    };
    assert_eq!(mutated_source(&s, &m).unwrap(), "fn t(x: i32) -> i32 {\n    0\n}\n");
    let dotted = Mutant {
        file: "./a.rs".to_owned(),
        replacement: "0".to_owned(),
        start: (2, 5),
        end: (2, 10),
        function_name: None,
    };
    assert!(mutated_source(&s, &dotted).is_err());
    let mut nested = Sources::new();
    nested.insert("example/a.rs".to_owned(), "x * 3".to_owned());
    let spelled = Mutant {
        file: "example//a.rs".to_owned(),
        replacement: "0".to_owned(),
        start: (1, 1),
        end: (1, 6),
        function_name: None,
    };
    assert_eq!(mutated_source(&nested, &spelled).unwrap(), "0");
    let other = Mutant { file: "b.rs".to_owned(), ..m };
    assert_eq!(
        mutated_source(&s, &other).err().unwrap(),
        "mutant names b.rs, which is not a source of this crate"
    );
}

#[test]
fn judges_outcomes() {
    let m = Mutant {
        file: "mylib.rs".to_owned(),
        replacement: "0".to_owned(),
        start: (12, 5),
        end: (12, 10),
        function_name: Some("triple".to_owned()),
    };
    assert_eq!(label(&m), "mylib.rs:12:5: replace triple with 0");
    assert!(matches!(judge(&m, false, Some(0)), Outcome::Unviable));
    assert!(matches!(judge(&m, true, Some(1)), Outcome::Caught));
    assert!(matches!(judge(&m, true, None), Outcome::Caught));
    match judge(&m, true, Some(0)) {
        Outcome::Missed(l) => assert_eq!(l, "mylib.rs:12:5: replace triple with 0"),
        _ => panic!("expected a missed mutant"),
    }
    let unnamed = Mutant { function_name: None, ..m };
    assert_eq!(label(&unnamed), "mylib.rs:12:5: replace ? with 0");
}

#[test]
fn reports_like_the_readme() {
    let outcomes = vec![
        Outcome::Caught,
        Outcome::Missed("mylib.rs:12:5: replace triple with 0".to_owned()),
        Outcome::Caught,
        Outcome::Caught,
        Outcome::Caught,
    ];
    let r = report(5, &outcomes);
    assert_eq!(r.summary, "5 mutants: 4 caught, 1 missed, 0 unviable");
    assert_eq!(
        r.lines,
        vec![
            "5 mutants: 4 caught, 1 missed, 0 unviable",
            "MISSED mylib.rs:12:5: replace triple with 0"
        ]
    );
    assert_eq!(r.failure, Some("1 mutants survived".to_owned()));
}

#[test]
fn sorts_missed_mutants() {
    let outcomes = vec![
        Outcome::Missed("b".to_owned()),
        Outcome::Unviable,
        Outcome::Missed("a2".to_owned()),
        Outcome::Missed("a10".to_owned()),
        Outcome::Missed("b".to_owned()),
    ];
    let r = report(5, &outcomes);
    assert_eq!(r.missed, vec!["a10", "a2", "b", "b"]);
    assert_eq!(r.summary, "5 mutants: 0 caught, 4 missed, 1 unviable");
    assert_eq!(r.failure, Some("4 mutants survived".to_owned()));
    let clean = report(0, &Vec::new());
    assert_eq!(clean.lines, vec!["0 mutants: 0 caught, 0 missed, 0 unviable"]);
    assert_eq!(clean.failure, None);
}

#[test]
fn checks_harness_output() {
    assert!(missed_check(false, "1 missed", "missed").is_ok());
    assert_eq!(
        missed_check(true, "ok", "missed").err().unwrap(),
        "mutation test passed, but surviving mutants were expected\nok"
    );
    assert_eq!(
        missed_check(false, "boom", "missed").err().unwrap(),
        "mutation output did not contain expected text `missed`\nboom"
    );
    let words = vec!["0".to_owned(), "missed".to_owned()];
    assert!(output_check(true, "5 caught, 0 missed", &words).is_ok());
    assert_eq!(
        output_check(false, "5 caught, 0 missed", &words).err().unwrap(),
        "mutation output did not contain `0 missed`\n5 caught, 0 missed"
    );
}

#[test]
fn report_does_not_depend_on_finishing_order_law() {
    let a = vec![
        Outcome::Missed("z.rs:1:1: replace f with 0".to_owned()),
        Outcome::Caught,
        Outcome::Missed("a.rs:9:2: replace g with 1".to_owned()),
    ];
    let b = vec![
        Outcome::Missed("a.rs:9:2: replace g with 1".to_owned()),
        Outcome::Missed("z.rs:1:1: replace f with 0".to_owned()),
        Outcome::Caught,
    ];
    let (ra, rb) = (report(3, &a), report(3, &b));
    assert_eq!(ra.lines, rb.lines);
    assert_eq!(ra.missed, vec!["a.rs:9:2: replace g with 1", "z.rs:1:1: replace f with 0"]);
}
