//! Bazel's native test sharding: which shard this run is, and which mutants
//! it takes.
use vstd::prelude::*;
use crate::text::{debug_quoted, debug_text, int_error_text, parse_unsigned, parsed_unsigned};

verus! {

/// Which part of the mutant list this run takes.
#[derive(Clone, Copy, Debug, PartialEq, Eq, Structural)]
pub struct ShardPlan {
    /// This shard's index, below `total`.
    pub index: usize,
    /// The number of shards (at least 1).
    pub total: usize,
    /// Whether Bazel asked for a split, so that the runner must tell Bazel it
    /// honoured it (by creating the shard status file, where one is named).
    pub split: bool,
}

/// Whether position `p` falls to shard `index` of `total`: counting from
/// `index`, every `total`-th position.
pub open spec fn in_shard(p: int, index: int, total: int) -> bool {
    index <= p && (p - index) % total == 0
}

/// The plan that `TEST_TOTAL_SHARDS` and `TEST_SHARD_INDEX` give (`None` for
/// an unset variable), or the message for a bad setting.
pub open spec fn shard_plan_spec(total: Option<Seq<char>>, index: Option<Seq<char>>) -> Result<
    (int, int, bool),
    Seq<char>,
> {
    match total {
        None => Ok((0, 1, false)),
        Some(t) => match parsed_unsigned(t, usize::MAX as int) {
            Err(k) => Err("bad TEST_TOTAL_SHARDS "@ + debug_quoted(t) + ": "@ + int_error_text(k)),
            Ok(n) => if n == 0 {
                Ok((0, 1, false))
            } else {
                match index {
                    None => Err("TEST_TOTAL_SHARDS is set but TEST_SHARD_INDEX is not"@),
                    Some(x) => match parsed_unsigned(x, usize::MAX as int) {
                        Err(k) => Err(
                            "bad TEST_SHARD_INDEX "@ + debug_quoted(x) + ": "@ + int_error_text(k),
                        ),
                        Ok(i) => if i >= n {
                            Err(
                                "TEST_SHARD_INDEX "@ + crate::text::decimal_digits(i as nat)
                                    + " is out of range for "@ + crate::text::decimal_digits(
                                    n as nat,
                                ) + " shards"@,
                            )
                        } else {
                            Ok((i, n, true))
                        },
                    },
                }
            },
        },
    }
}

/// An optional text as plain values.
pub open spec fn opt_str_view(o: Option<&str>) -> Option<Seq<char>> {
    match o {
        Some(s) => Some(s@),
        None => None,
    }
}

/// Decides the shard from `TEST_TOTAL_SHARDS` (`total`) and
/// `TEST_SHARD_INDEX` (`index`), `None` where a variable is unset or not
/// unicode. An unset or zero total means one shard.
pub fn shard_plan(total: Option<&str>, index: Option<&str>) -> (r: Result<ShardPlan, String>)
    ensures
        shard_plan_spec(opt_str_view(total), opt_str_view(index)) == (match r {
            Ok(p) => Ok::<(int, int, bool), Seq<char>>((p.index as int, p.total as int, p.split)),
            Err(e) => Err::<(int, int, bool), Seq<char>>(e@),
        }),
{
    let t = match total {
        None => {
            return Ok(ShardPlan { index: 0, total: 1, split: false });
        },
        Some(t) => t,
    };
    let n = match parse_unsigned(t, usize::MAX as u64) {
        Ok(n) => n as usize,
        Err(k) => {
            let mut e = "bad TEST_TOTAL_SHARDS ".to_owned();
            e.append(debug_text(t).as_str());
            e.append(": ");
            e.append(k.message());
            return Err(e);
        },
    };
    if n == 0 {
        return Ok(ShardPlan { index: 0, total: 1, split: false });
    }
    let x = match index {
        None => {
            return Err("TEST_TOTAL_SHARDS is set but TEST_SHARD_INDEX is not".to_owned());
        },
        Some(x) => x,
    };
    let i = match parse_unsigned(x, usize::MAX as u64) {
        Ok(i) => i as usize,
        Err(k) => {
            let mut e = "bad TEST_SHARD_INDEX ".to_owned();
            e.append(debug_text(x).as_str());
            e.append(": ");
            e.append(k.message());
            return Err(e);
        },
    };
    if i >= n {
        let mut e = "TEST_SHARD_INDEX ".to_owned();
        e.append(crate::text::decimal(i as u64).as_str());
        e.append(" is out of range for ");
        e.append(crate::text::decimal(n as u64).as_str());
        e.append(" shards");
        return Err(e);
    }
    Ok(ShardPlan { index: i, total: n, split: true })
}

/// The positions, out of `len`, that shard `index` of `total` takes, in
/// order (`skip(index).step_by(total)`).
pub fn shard_members(len: usize, index: usize, total: usize) -> (r: Vec<usize>)
    requires
        total > 0,
    ensures
        forall|k: int| 0 <= k < r.len() ==> r@[k] == index + k * total && r@[k] < len,
        index + r.len() * total >= len,
        forall|p: usize| r@.contains(p) <==> (p < len && in_shard(p as int, index as int, total as int)),
{
    let mut r: Vec<usize> = Vec::new();
    let mut i = index;
    let mut more = index < len;
    assert(index + 0 * total == index) by (nonlinear_arith);
    while more
        invariant
            total > 0,
            forall|k: int| 0 <= k < r.len() ==> r@[k] == index + k * total && r@[k] < len,
            more ==> i == index + r.len() * total && i < len,
            !more ==> index + r.len() * total >= len,
        decreases
            (if more {
                len - i + 1
            } else {
                0
            }),
    {
        let ghost k = r.len() as int;
        r.push(i);
        assert(index + (k + 1) * total == index + k * total + total) by (nonlinear_arith);
        if total >= len - i {
            more = false;
        } else {
            i = i + total;
        }
    }
    assert forall|p: usize| r@.contains(p) <==> (p < len && in_shard(
        p as int,
        index as int,
        total as int,
    )) by {
        if r@.contains(p) {
            let k = choose|k: int| 0 <= k < r.len() && r@[k] == p;
            assert((k * total) % (total as int) == 0) by {
                vstd::arithmetic::div_mod::lemma_mod_multiples_basic(k, total as int);
            }
        }
        if p < len && in_shard(p as int, index as int, total as int) {
            let d = p - index;
            let q = d / (total as int);
            assert(d == total * q + d % (total as int)) by {
                vstd::arithmetic::div_mod::lemma_fundamental_div_mod(d, total as int);
            }
            assert(q >= 0) by (nonlinear_arith)
                requires
                    d >= 0,
                    total > 0,
                    q == d / (total as int),
            ;
            let m = r.len() as int;
            assert(q < m) by (nonlinear_arith)
                requires
                    d == total * q,
                    index + m * total >= len,
                    p < len,
                    d == p - index,
                    total > 0,
            ;
            assert(r@[q] == index + q * total);
            assert(r@[q] == p) by (nonlinear_arith)
                requires
                    r@[q] == index + q * total,
                    d == total * q,
                    d == p - index,
            ;
        }
    }
    r
}

/// The shards of a list partition it: for `index < total`, position `p`
/// falls to shard `index` exactly when `p % total == index`, so every
/// position falls to one shard and to no other.
pub proof fn shards_partition(p: nat, index: nat, total: nat)
    requires
        total > 0,
        index < total,
    ensures
        in_shard(p as int, index as int, total as int) <==> p % total == index,
{
    let q = (p as int) / (total as int);
    let m = (p as int) % (total as int);
    vstd::arithmetic::div_mod::lemma_fundamental_div_mod(p as int, total as int);
    if in_shard(p as int, index as int, total as int) {
        let d = p - index;
        let e = d / (total as int);
        vstd::arithmetic::div_mod::lemma_fundamental_div_mod(d, total as int);
        assert(p == e * total + index);
        vstd::arithmetic::div_mod::lemma_fundamental_div_mod_converse(
            p as int,
            total as int,
            e,
            index as int,
        );
    }
    if p % total == index {
        assert(p - index == total * q);
        assert((total * q) % (total as int) == 0) by {
            vstd::arithmetic::div_mod::lemma_mod_multiples_basic(q, total as int);
        }
        assert(q >= 0) by (nonlinear_arith)
            requires
                p >= 0,
                total > 0,
                q == (p as int) / (total as int),
        ;
    }
}

/// The number of concurrent jobs: as many as asked for, but no more than
/// there is work for (and at least one).
pub open spec fn jobs_for(jobs: int, work: int) -> int {
    let cap = if work < 1 {
        1
    } else {
        work
    };
    if jobs < cap {
        jobs
    } else {
        cap
    }
}

/// The number of concurrent jobs for `work` mutants.
pub fn job_count(jobs: usize, work: usize) -> (r: usize)
    ensures
        r == jobs_for(jobs as int, work as int),
{
    let cap = if work < 1 {
        1
    } else {
        work
    };
    if jobs < cap {
        jobs
    } else {
        cap
    }
}

/// With at least one job asked for, at least one runs, never more than asked
/// for, and never more than there are mutants (where there are any).
pub proof fn job_count_bounds(jobs: int, work: int)
    requires
        jobs >= 1,
    ensures
        1 <= jobs_for(jobs, work) <= jobs,
        work >= 1 ==> jobs_for(jobs, work) <= work,
{
}

/// The shortest timeout a mutant's test run gets: 20 seconds, in nanoseconds.
pub const MIN_TIMEOUT_NANOS: u128 = 20_000_000_000;

/// The largest duration `std::time::Duration` holds, in nanoseconds.
pub const MAX_DURATION_NANOS: u128 = 18_446_744_073_709_551_615_999_999_999;

/// The timeout for a mutant's test run: the unmutated run's time times the
/// multiplier, but at least `MIN_TIMEOUT_NANOS`.
pub fn mutant_timeout(baseline_nanos: u128, multiplier: u32) -> (r: u128)
    requires
        baseline_nanos * multiplier <= MAX_DURATION_NANOS,
    ensures
        r == if baseline_nanos * multiplier < MIN_TIMEOUT_NANOS {
            MIN_TIMEOUT_NANOS as int
        } else {
            baseline_nanos * multiplier
        },
{
    let t = baseline_nanos * (multiplier as u128);
    if t < MIN_TIMEOUT_NANOS {
        MIN_TIMEOUT_NANOS
    } else {
        t
    }
}

} // verus!
