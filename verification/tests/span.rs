use mutants::span::span_replace;

#[test]
fn replaces_within_a_line() {
    assert_eq!(
        span_replace("fn a() -> i32 { 1 }", (1, 15), (1, 20), "{ 0 }"),
        "fn a() -> i32 { 0 }"
    );
}

#[test]
fn replaces_across_lines() {
    let source = "fn a() {\n    body();\n}\n";
    assert_eq!(span_replace(source, (1, 8), (3, 2), "{}"), "fn a() {}\n");
}

#[test]
fn replaces_at_end_of_input() {
    assert_eq!(span_replace("ab", (1, 3), (1, 3), "c"), "abc");
}

#[test]
fn inserts_where_start_equals_end() {
    assert_eq!(span_replace("abc", (1, 2), (1, 2), "X"), "aXbc");
}

#[test]
fn replaces_at_the_start() {
    assert_eq!(span_replace("abc\ndef", (1, 1), (2, 1), ""), "def");
}

#[test]
fn counts_columns_in_characters() {
    assert_eq!(span_replace("é = 1;", (1, 5), (1, 6), "2"), "é = 2;");
}

#[test]
fn carriage_return_stays_in_the_last_column() {
    // The `\r` shares column 3 with the newline after it.
    assert_eq!(span_replace("ab\r\ncd", (1, 2), (1, 3), "X"), "aX\r\ncd");
    assert_eq!(span_replace("ab\r\ncd", (1, 2), (1, 4), "X"), "aXcd");
}

#[test]
fn start_never_reached_leaves_text_before_it() {
    assert_eq!(span_replace("ab", (5, 1), (6, 1), "X"), "ab");
}

#[test]
fn keeps_text_outside_the_span_law() {
    // Characters a = 4 (line 2, column 1) to b = 6 (line 2, column 3).
    let s = "ab\ncde\nf";
    assert_eq!(span_replace(s, (2, 1), (2, 3), "Z"), "ab\nZe\nf");
}

#[test]
fn putting_the_old_text_back_undoes_a_replacement_law() {
    let source = "fn t(x: i32) -> i32 {\n    x * 3\n}\n";
    let mutated = span_replace(source, (2, 5), (2, 10), "0");
    assert_eq!(mutated, "fn t(x: i32) -> i32 {\n    0\n}\n");
    assert_eq!(span_replace(&mutated, (2, 5), (2, 6), "x * 3"), source);
    let wide = span_replace("αβγδ", (1, 2), (1, 4), "xyz");
    assert_eq!(wide, "αxyzδ");
    assert_eq!(span_replace(&wide, (1, 2), (1, 5), "βγ"), "αβγδ");
}
