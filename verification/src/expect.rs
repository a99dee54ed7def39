//! The checks of the example harnesses that run a mutation test and inspect
//! what it printed.
use vstd::prelude::*;
use crate::text::{contains_text, join_texts, joined, occurs_at, occurs_in};

verus! {

/// The verdict on a mutation test that is expected to leave mutants alive:
/// it must fail, and its output must hold `expected`.
pub open spec fn missed_check_spec(success: bool, combined: Seq<char>, expected: Seq<char>) -> Result<
    (),
    Seq<char>,
> {
    if success {
        Err("mutation test passed, but surviving mutants were expected\n"@ + combined)
    } else if !occurs_in(combined, expected) {
        Err("mutation output did not contain expected text `"@ + expected + "`\n"@ + combined)
    } else {
        Ok(())
    }
}

/// Checks a mutation test that is expected to leave mutants alive: `success`
/// is whether it passed, `combined` its standard output and error.
pub fn missed_check(success: bool, combined: &str, expected: &str) -> (r: Result<(), String>)
    ensures
        missed_check_spec(success, combined@, expected@) == (match r {
            Ok(()) => Ok::<(), Seq<char>>(()),
            Err(e) => Err(e@),
        }),
{
    if success {
        let mut e = "mutation test passed, but surviving mutants were expected\n".to_owned();
        e.append(combined);
        return Err(e);
    }
    if !contains_text(combined, expected) {
        let mut e = "mutation output did not contain expected text `".to_owned();
        e.append(expected);
        e.append("`\n");
        e.append(combined);
        return Err(e);
    }
    Ok(())
}

/// The verdict on a mutation test that is expected to pass and to print the
/// words `words`, joined by spaces.
pub open spec fn output_check_spec(success: bool, combined: Seq<char>, words: Seq<Seq<char>>) -> Result<
    (),
    Seq<char>,
> {
    let expected = joined(words, " "@);
    if !success || !occurs_in(combined, expected) {
        Err("mutation output did not contain `"@ + expected + "`\n"@ + combined)
    } else {
        Ok(())
    }
}

/// Checks a mutation test that is expected to pass and to print `words`,
/// joined by spaces.
pub fn output_check(success: bool, combined: &str, words: &Vec<String>) -> (r: Result<(), String>)
    ensures
        output_check_spec(success, combined@, words.deep_view()) == (match r {
            Ok(()) => Ok::<(), Seq<char>>(()),
            Err(e) => Err(e@),
        }),
{
    let expected = join_texts(words, " ");
    if !success || !contains_text(combined, expected.as_str()) {
        let mut e = "mutation output did not contain `".to_owned();
        e.append(expected.as_str());
        e.append("`\n");
        e.append(combined);
        return Err(e);
    }
    Ok(())
}

/// Whether `text` appears somewhere in `s`.
pub open spec fn appears_in(s: Seq<char>, text: Seq<char>) -> bool {
    exists|i: int| 0 <= i && i + text.len() <= s.len() && #[trigger] s.subrange(i, i + text.len()) == text
}

/// Appearing somewhere is occurring at some index.
proof fn lemma_appears(s: Seq<char>, text: Seq<char>)
    ensures
        appears_in(s, text) == occurs_in(s, text),
{
    if occurs_in(s, text) {
        let i = choose|i: int| occurs_at(s, text, i);
        assert(s.subrange(i, i + text.len()) == text);
    }
    if appears_in(s, text) {
        let i = choose|i: int|
            0 <= i && i + text.len() <= s.len() && #[trigger] s.subrange(i, i + text.len()) == text;
        assert(occurs_at(s, text, i));
    }
}

/// A mutation test that should leave mutants alive passes the check exactly
/// when it failed and its output holds the expected text.
pub proof fn missed_check_needs_failure_and_text(success: bool, combined: Seq<char>, expected: Seq<char>)
    ensures
        missed_check_spec(success, combined, expected) is Ok <==> !success && appears_in(
            combined,
            expected,
        ),
{
    lemma_appears(combined, expected);
}

/// A mutation test that should pass passes the check exactly when it
/// succeeded and its output holds the expected words, joined by spaces.
pub proof fn output_check_needs_success_and_words(
    success: bool,
    combined: Seq<char>,
    words: Seq<Seq<char>>,
)
    ensures
        output_check_spec(success, combined, words) is Ok <==> success && appears_in(
            combined,
            joined(words, " "@),
        ),
{
    lemma_appears(combined, joined(words, " "@));
}

} // verus!
