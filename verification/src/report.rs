//! The result of a mutation run: counts, the missed mutants in a stable
//! order, and whether the run fails.
use vstd::prelude::*;
use vstd::multiset::Multiset;
use crate::mutant::Outcome;
use crate::text::{chars_of, decimal, decimal_digits};

verus! {

broadcast use vstd::seq_lib::group_to_multiset_ensures;

/// Whether `a` comes no later than `b` in the order of `String`'s `Ord`:
/// lexicographic by character (for UTF-8 text, the byte order).
pub open spec fn text_le(a: Seq<char>, b: Seq<char>) -> bool
    decreases a.len(),
{
    if a.len() == 0 {
        true
    } else if b.len() == 0 {
        false
    } else if a[0] != b[0] {
        a[0] < b[0]
    } else {
        text_le(a.drop_first(), b.drop_first())
    }
}

/// Any two texts are ordered one way or the other.
pub proof fn text_le_total(a: Seq<char>, b: Seq<char>)
    ensures
        text_le(a, b) || text_le(b, a),
    decreases a.len(),
{
    if a.len() > 0 && b.len() > 0 && a[0] == b[0] {
        text_le_total(a.drop_first(), b.drop_first());
    }
}

/// The order is transitive.
pub proof fn text_le_transitive(a: Seq<char>, b: Seq<char>, c: Seq<char>)
    requires
        text_le(a, b),
        text_le(b, c),
    ensures
        text_le(a, c),
    decreases a.len(),
{
    if a.len() > 0 && b.len() > 0 && c.len() > 0 && a[0] == b[0] && b[0] == c[0] {
        text_le_transitive(a.drop_first(), b.drop_first(), c.drop_first());
    }
}

/// Every text comes no later than itself.
pub proof fn text_le_reflexive(a: Seq<char>)
    ensures
        text_le(a, a),
    decreases a.len(),
{
    if a.len() > 0 {
        text_le_reflexive(a.drop_first());
    }
}

/// Texts ordered both ways are equal.
pub proof fn text_le_antisymmetric(a: Seq<char>, b: Seq<char>)
    requires
        text_le(a, b),
        text_le(b, a),
    ensures
        a == b,
    decreases a.len(),
{
    if a.len() > 0 && b.len() > 0 {
        text_le_antisymmetric(a.drop_first(), b.drop_first());
        assert(a =~= seq![a[0]] + a.drop_first());
        assert(b =~= seq![b[0]] + b.drop_first());
    } else {
        assert(a =~= b);
    }
}

/// Whether `s` is in ascending order.
pub open spec fn sorted_texts(s: Seq<Seq<char>>) -> bool {
    forall|i: int, j: int| 0 <= i < j < s.len() ==> text_le(s[i], s[j])
}

/// Whether `a` comes no later than `b` (executable).
pub fn text_le_exec(a: &str, b: &str) -> (r: bool)
    ensures
        r == text_le(a@, b@),
{
    let x = chars_of(a);
    let y = chars_of(b);
    let mut i: usize = 0;
    assert(x@.skip(0) =~= x@ && y@.skip(0) =~= y@);
    while i < x.len() && i < y.len() && x[i] == y[i]
        invariant
            x@ == a@,
            y@ == b@,
            i <= x.len(),
            i <= y.len(),
            text_le(a@, b@) == text_le(x@.skip(i as int), y@.skip(i as int)),
        decreases x.len() - i,
    {
        assert(x@.skip(i as int).drop_first() =~= x@.skip(i + 1));
        assert(y@.skip(i as int).drop_first() =~= y@.skip(i + 1));
        i = i + 1;
    }
    if i == x.len() {
        true
    } else if i == y.len() {
        false
    } else {
        x[i] < y[i]
    }
}

/// `s` with `x` put in its place in ascending order (after any equal texts).
fn insert_sorted(s: &mut Vec<String>, x: String)
    requires
        sorted_texts(old(s).deep_view()),
    ensures
        sorted_texts(final(s).deep_view()),
        final(s).deep_view().to_multiset() == old(s).deep_view().to_multiset().insert(x@),
{
    let ghost before = s.deep_view();
    let mut p: usize = 0;
    while p < s.len() && text_le_exec(s[p].as_str(), x.as_str())
        invariant
            s.deep_view() == before,
            sorted_texts(before),
            p <= s.len(),
            forall|k: int| 0 <= k < p ==> text_le(before[k], x@),
        decreases s.len() - p,
    {
        p = p + 1;
    }
    proof {
        if p < s.len() {
            text_le_total(before[p as int], x@);
            assert forall|k: int| p <= k < before.len() implies text_le(x@, before[k]) by {
                if k > p {
                    text_le_transitive(x@, before[p as int], before[k]);
                }
            }
        }
    }
    let ghost xv = x@;
    s.insert(p, x);
    let ghost after = s.deep_view();
    assert(after =~= before.insert(p as int, xv));
    assert(sorted_texts(after)) by {
        assert forall|i: int, j: int| 0 <= i < j < after.len() implies text_le(after[i], after[j]) by {
            if j < p {
                assert(after[i] == before[i] && after[j] == before[j]);
            } else if j == p {
                assert(after[i] == before[i]);
            } else if i < p {
                assert(after[i] == before[i] && after[j] == before[j - 1]);
            } else if i == p {
                assert(after[j] == before[j - 1]);
            } else {
                assert(after[i] == before[i - 1] && after[j] == before[j - 1]);
            }
        }
    }
    proof {
        let a = before.take(p as int);
        let b = before.skip(p as int);
        assert(before =~= a + b);
        assert(after =~= a + seq![xv] + b);
        vstd::seq_lib::lemma_multiset_commutative(a, b);
        vstd::seq_lib::lemma_multiset_commutative(a + seq![xv], b);
        vstd::seq_lib::lemma_multiset_commutative(a, seq![xv]);
        assert(seq![xv].to_multiset() =~= Multiset::<Seq<char>>::empty().insert(xv)) by {
            assert(seq![xv] =~= Seq::<Seq<char>>::empty().push(xv));
        }
        assert(after.to_multiset() =~= before.to_multiset().insert(xv));
    }
}

/// Ascending order is canonical: two ascending lists of the same texts (with
/// the same multiplicities) are the same list. So the missed mutants are
/// reported in the same order however the jobs finished.
pub proof fn sorted_is_canonical(a: Seq<Seq<char>>, b: Seq<Seq<char>>)
    requires
        sorted_texts(a),
        sorted_texts(b),
        a.to_multiset() == b.to_multiset(),
    ensures
        a == b,
    decreases a.len(),
{
    if a.len() == 0 {
        assert(b.len() == a.to_multiset().len());
        assert(a =~= b);
    } else {
        assert(a.to_multiset().len() == a.len());
        assert(b.to_multiset().len() == b.len());
        assert(b.len() == a.len());
        assert(a.to_multiset().count(a[0]) > 0);
        assert(b.contains(a[0]));
        assert(b.to_multiset().count(b[0]) > 0);
        assert(a.contains(b[0]));
        let i = choose|i: int| 0 <= i < b.len() && b[i] == a[0];
        let j = choose|j: int| 0 <= j < a.len() && a[j] == b[0];
        if i > 0 {
            assert(text_le(b[0], b[i]));
        } else {
            text_le_reflexive(b[0]);
        }
        if j > 0 {
            assert(text_le(a[0], a[j]));
        } else {
            text_le_reflexive(a[0]);
        }
        text_le_antisymmetric(a[0], b[0]);
        let a1 = a.drop_first();
        let b1 = b.drop_first();
        assert(a.remove(0) =~= a1);
        assert(b.remove(0) =~= b1);
        assert(a1.to_multiset() =~= a.to_multiset().remove(a[0]));
        assert(b1.to_multiset() =~= b.to_multiset().remove(b[0]));
        assert(sorted_texts(a1)) by {
            assert forall|x: int, y: int| 0 <= x < y < a1.len() implies text_le(a1[x], a1[y]) by {
                assert(a1[x] == a[x + 1] && a1[y] == a[y + 1]);
            }
        }
        assert(sorted_texts(b1)) by {
            assert forall|x: int, y: int| 0 <= x < y < b1.len() implies text_le(b1[x], b1[y]) by {
                assert(b1[x] == b[x + 1] && b1[y] == b[y + 1]);
            }
        }
        sorted_is_canonical(a1, b1);
        assert(a =~= seq![a[0]] + a1);
        assert(b =~= seq![b[0]] + b1);
    }
}

/// The counts of caught and unviable mutants, and the labels of the missed
/// ones in the order they came.
pub open spec fn tally(s: Seq<Outcome>) -> (nat, nat, Seq<Seq<char>>)
    decreases s.len(),
{
    if s.len() == 0 {
        (0, 0, Seq::empty())
    } else {
        let prev = tally(s.drop_last());
        match s.last() {
            Outcome::Caught => (prev.0 + 1, prev.1, prev.2),
            Outcome::Unviable => (prev.0, prev.1 + 1, prev.2),
            Outcome::Missed(l) => (prev.0, prev.1, prev.2.push(l@)),
        }
    }
}

/// Every outcome is counted once: caught, unviable or missed.
pub proof fn tally_counts_every_outcome(s: Seq<Outcome>)
    ensures
        tally(s).0 + tally(s).1 + tally(s).2.len() == s.len(),
    decreases s.len(),
{
    if s.len() > 0 {
        tally_counts_every_outcome(s.drop_last());
    }
}

/// A run fails exactly when some mutant was missed: the tally holds a
/// missed label exactly when some outcome is `Missed`.
pub proof fn missed_fails_the_run(s: Seq<Outcome>)
    ensures
        tally(s).2.len() > 0 <==> exists|i: int| 0 <= i < s.len() && s[i] is Missed,
    decreases s.len(),
{
    if s.len() > 0 {
        missed_fails_the_run(s.drop_last());
        if exists|i: int| 0 <= i < s.len() && s[i] is Missed {
            let i = choose|i: int| 0 <= i < s.len() && s[i] is Missed;
            if i < s.len() - 1 {
                assert(s.drop_last()[i] is Missed);
            }
        }
        if exists|i: int| 0 <= i < s.len() - 1 && s.drop_last()[i] is Missed {
            let i = choose|i: int| 0 <= i < s.len() - 1 && s.drop_last()[i] is Missed;
            assert(s[i] is Missed);
        }
    }
}

/// What one outcome adds to the tally: one caught, one unviable, or its
/// label among the missed.
pub open spec fn contribution(o: Outcome) -> (nat, nat, Multiset<Seq<char>>) {
    match o {
        Outcome::Caught => (1, 0, Multiset::empty()),
        Outcome::Unviable => (0, 1, Multiset::empty()),
        Outcome::Missed(l) => (0, 0, Multiset::empty().insert(l@)),
    }
}

/// Taking outcome `j` out of the list takes exactly its contribution out of
/// the tally.
proof fn lemma_tally_remove(s: Seq<Outcome>, j: int)
    requires
        0 <= j < s.len(),
    ensures
        tally(s).0 == tally(s.remove(j)).0 + contribution(s[j]).0,
        tally(s).1 == tally(s.remove(j)).1 + contribution(s[j]).1,
        tally(s).2.to_multiset() == tally(s.remove(j)).2.to_multiset().add(contribution(s[j]).2),
    decreases s.len(),
{
    let n = s.len() as int;
    if j == n - 1 {
        assert(s.remove(j) =~= s.drop_last());
    } else {
        let t = s.drop_last();
        lemma_tally_remove(t, j);
        assert(s.remove(j).drop_last() =~= t.remove(j));
        assert(s.remove(j).last() == s.last());
        assert(t[j] == s[j]);
    }
    let r = tally(s.remove(j)).2.to_multiset();
    assert(r.add(Multiset::empty()) =~= r);
    assert(tally(s).2.to_multiset() =~= tally(s.remove(j)).2.to_multiset().add(contribution(s[j]).2));
}

/// The tally does not depend on the order of the outcomes: two lists that
/// hold the same outcomes (with the same multiplicities) give the same
/// counts and the same missed labels.
pub proof fn tally_ignores_order(s1: Seq<Outcome>, s2: Seq<Outcome>)
    requires
        s1.to_multiset() == s2.to_multiset(),
    ensures
        tally(s1).0 == tally(s2).0,
        tally(s1).1 == tally(s2).1,
        tally(s1).2.to_multiset() == tally(s2).2.to_multiset(),
    decreases s1.len(),
{
    assert(s1.to_multiset().len() == s1.len());
    assert(s2.to_multiset().len() == s2.len());
    if s1.len() == 0 {
        assert(s1 =~= s2);
    } else {
        let x = s1.last();
        let t1 = s1.drop_last();
        assert(t1.push(x) =~= s1);
        assert(s1.to_multiset().count(x) > 0);
        assert(s2.contains(x));
        let j = choose|j: int| 0 <= j < s2.len() && s2[j] == x;
        let t2 = s2.remove(j);
        assert(t1.to_multiset() =~= s1.to_multiset().remove(x));
        assert(t2.to_multiset() =~= s2.to_multiset().remove(x));
        tally_ignores_order(t1, t2);
        lemma_tally_remove(s2, j);
        lemma_tally_remove(s1, s1.len() - 1);
        assert(s1.remove(s1.len() - 1) =~= t1);
    }
}

/// The report does not depend on the order in which the outcomes came:
/// for two orders of the same outcomes, the counts agree, and the missed
/// labels in ascending order (as `report` gives them) are the same list.
pub proof fn report_ignores_order(
    s1: Seq<Outcome>,
    s2: Seq<Outcome>,
    missed1: Seq<Seq<char>>,
    missed2: Seq<Seq<char>>,
)
    requires
        s1.to_multiset() == s2.to_multiset(),
        sorted_texts(missed1),
        sorted_texts(missed2),
        missed1.to_multiset() == tally(s1).2.to_multiset(),
        missed2.to_multiset() == tally(s2).2.to_multiset(),
    ensures
        tally(s1).0 == tally(s2).0,
        tally(s1).1 == tally(s2).1,
        tally(s1).2.len() == tally(s2).2.len(),
        missed1 == missed2,
{
    tally_ignores_order(s1, s2);
    sorted_is_canonical(missed1, missed2);
    assert(tally(s1).2.to_multiset().len() == tally(s1).2.len());
    assert(tally(s2).2.to_multiset().len() == tally(s2).2.len());
}

/// The summary line: how many mutants there were and how they fared.
pub open spec fn summary_text(total: nat, caught: nat, missed: nat, unviable: nat) -> Seq<char> {
    decimal_digits(total) + " mutants: "@ + decimal_digits(caught) + " caught, "@ + decimal_digits(
        missed,
    ) + " missed, "@ + decimal_digits(unviable) + " unviable"@
}

/// What a run reports.
pub struct Report {
    /// The summary line.
    pub summary: String,
    /// The labels of the missed mutants, in ascending order.
    pub missed: Vec<String>,
    /// The lines to print: the summary, then `MISSED <label>` for each missed
    /// mutant.
    pub lines: Vec<String>,
    /// Why the run fails: some mutants survived.
    pub failure: Option<String>,
}

/// The report on `outcomes`, out of `total` mutants in this shard.
pub fn report(total: usize, outcomes: &Vec<Outcome>) -> (r: Report)
    ensures
        r.summary@ == summary_text(
            total as nat,
            tally(outcomes@).0,
            tally(outcomes@).2.len(),
            tally(outcomes@).1,
        ),
        sorted_texts(r.missed.deep_view()),
        r.missed.deep_view().to_multiset() == tally(outcomes@).2.to_multiset(),
        r.lines.len() == r.missed.len() + 1,
        r.lines@[0]@ == r.summary@,
        forall|k: int| 0 <= k < r.missed.len() ==> #[trigger] r.lines@[k + 1]@ == "MISSED "@ + r.missed@[k]@,
        tally(outcomes@).2.len() == 0 ==> r.failure is None,
        tally(outcomes@).2.len() > 0 ==> (r.failure matches Some(f) && f@ == decimal_digits(
            tally(outcomes@).2.len(),
        ) + " mutants survived"@),
{
    let mut caught: usize = 0;
    let mut unviable: usize = 0;
    let mut n_missed: usize = 0;
    let mut missed: Vec<String> = Vec::new();
    let mut i: usize = 0;
    while i < outcomes.len()
        invariant
            i <= outcomes.len(),
            caught == tally(outcomes@.take(i as int)).0,
            unviable == tally(outcomes@.take(i as int)).1,
            n_missed == tally(outcomes@.take(i as int)).2.len(),
            sorted_texts(missed.deep_view()),
            missed.deep_view().to_multiset() == tally(outcomes@.take(i as int)).2.to_multiset(),
        decreases outcomes.len() - i,
    {
        proof {
            assert(outcomes@.take(i + 1).drop_last() =~= outcomes@.take(i as int));
            tally_counts_every_outcome(outcomes@.take(i as int));
        }
        match &outcomes[i] {
            Outcome::Caught => {
                caught = caught + 1;
            },
            Outcome::Unviable => {
                unviable = unviable + 1;
            },
            Outcome::Missed(l) => {
                n_missed = n_missed + 1;
                insert_sorted(&mut missed, l.clone());
            },
        }
        i = i + 1;
    }
    assert(outcomes@.take(i as int) =~= outcomes@);
    let mut summary = decimal(total as u64);
    summary.append(" mutants: ");
    summary.append(decimal(caught as u64).as_str());
    summary.append(" caught, ");
    summary.append(decimal(n_missed as u64).as_str());
    summary.append(" missed, ");
    summary.append(decimal(unviable as u64).as_str());
    summary.append(" unviable");
    let mut lines: Vec<String> = Vec::new();
    lines.push(summary.clone());
    let mut k: usize = 0;
    while k < missed.len()
        invariant
            k <= missed.len(),
            lines.len() == k + 1,
            lines@[0]@ == summary@,
            forall|j: int| 0 <= j < k ==> #[trigger] lines@[j + 1]@ == "MISSED "@ + missed@[j]@,
        decreases missed.len() - k,
    {
        let mut line = "MISSED ".to_owned();
        line.append(missed[k].as_str());
        lines.push(line);
        k = k + 1;
    }
    proof {
        assert(missed.deep_view().to_multiset().len() == missed.len());
    }
    let failure = if missed.len() == 0 {
        None
    } else {
        let mut f = decimal(missed.len() as u64);
        f.append(" mutants survived");
        Some(f)
    };
    Report { summary, missed, lines, failure }
}

} // verus!
