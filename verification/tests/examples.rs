use mutants::integration_covered::scale;
use mutants::under_tested::{double, triple};
use mutants::unit_first::guarded;
use mutants::well_tested;

#[test]
fn scales_larger_inputs() {
    assert_eq!(scale(10), 70);
    assert_eq!(scale(100), 700);
}

#[test]
fn scales_by_seven() {
    assert_eq!(scale(3), 21);
    assert_eq!(scale(0), 0);
    assert_eq!(scale(-2), -14);
}

#[test]
fn under_tested_doubles() {
    assert_eq!(double(3), 6);
}

#[test]
fn checks_guarded_value() {
    assert_eq!(guarded(), 1);
}

#[test]
fn integration_guard() {
    assert_eq!(guarded(), 1);
}

#[test]
fn triples() {
    assert_eq!(triple(0), 0);
    assert_eq!(triple(5), 15);
    assert_eq!(triple(-7), -21);
}

#[test]
fn well_tested_double_values() {
    assert_eq!(well_tested::double(0), 0);
    assert_eq!(well_tested::double(3), 6);
    assert_eq!(well_tested::double(-4), -8);
}
