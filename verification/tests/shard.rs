use mutants::shard::{job_count, mutant_timeout, shard_members, shard_plan, MIN_TIMEOUT_NANOS};

#[test]
fn unset_or_zero_total_is_one_shard() {
    let p = shard_plan(None, None).unwrap();
    assert_eq!((p.index, p.total, p.split), (0, 1, false));
    let p = shard_plan(Some("0"), None).unwrap();
    assert_eq!((p.index, p.total, p.split), (0, 1, false));
}

#[test]
fn reads_the_shard() {
    let p = shard_plan(Some("8"), Some("3")).unwrap();
    assert_eq!((p.index, p.total, p.split), (3, 8, true));
}

#[test]
fn shard_errors() {
    assert_eq!(
        shard_plan(Some("x"), None).err().unwrap(),
        "bad TEST_TOTAL_SHARDS \"x\": invalid digit found in string"
    );
    assert_eq!(
        shard_plan(Some("2"), None).err().unwrap(),
        "TEST_TOTAL_SHARDS is set but TEST_SHARD_INDEX is not"
    );
    assert_eq!(
        shard_plan(Some("2"), Some("")).err().unwrap(),
        "bad TEST_SHARD_INDEX \"\": cannot parse integer from empty string"
    );
    assert_eq!(
        shard_plan(Some("2"), Some("2")).err().unwrap(),
        "TEST_SHARD_INDEX 2 is out of range for 2 shards"
    );
}

#[test]
fn takes_every_total_th_mutant() {
    assert_eq!(shard_members(10, 1, 3), vec![1, 4, 7]);
    assert_eq!(shard_members(10, 0, 1), (0..10).collect::<Vec<_>>());
    assert_eq!(shard_members(2, 3, 4), Vec::<usize>::new());
    assert_eq!(shard_members(0, 0, 1), Vec::<usize>::new());
}

#[test]
fn shards_partition_the_list_law() {
    let (len, total) = (23, 4);
    let mut seen = vec![0; len];
    for index in 0..total {
        let expected: Vec<usize> = (0..len).skip(index).step_by(total).collect();
        let got = shard_members(len, index, total);
        assert_eq!(got, expected);
        for p in got {
            assert_eq!(p % total, index);
            seen[p] += 1;
        }
    }
    assert!(seen.iter().all(|&n| n == 1));
}

#[test]
fn job_counts() {
    assert_eq!(job_count(4, 2), 2);
    assert_eq!(job_count(4, 0), 1);
    assert_eq!(job_count(1, 9), 1);
    assert_eq!(job_count(3, 9), 3);
}

#[test]
fn timeouts() {
    assert_eq!(mutant_timeout(1_000_000_000, 5), MIN_TIMEOUT_NANOS);
    assert_eq!(mutant_timeout(10_000_000_000, 5), 50_000_000_000);
}
