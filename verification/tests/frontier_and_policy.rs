use dataflow_controller::frontier::Frontier;
use dataflow_controller::policy::ReadPolicy;

#[test]
fn empty_frontier_is_empty() {
    let f = Frontier::new();
    assert!(f.is_empty());
    assert_eq!(f.as_option(), None);
}

#[test]
fn singleton_frontier() {
    let f = Frontier::from_elem(7);
    assert!(!f.is_empty());
    assert_eq!(f.as_option(), Some(7));
}

#[test]
fn minimum_frontier_is_zero() {
    assert_eq!(Frontier::minimum().as_option(), Some(0));
}

#[test]
fn insert_keeps_minimal_antichain() {
    let mut f = Frontier::new();
    assert!(f.insert(5));
    assert!(!f.insert(90));
    assert_eq!(f.as_option(), Some(5));

    let mut g = Frontier::new();
    assert!(g.insert(90));
    assert!(g.insert(5));
    assert_eq!(g.as_option(), Some(5));
}

#[test]
fn insert_of_equal_time_is_discarded() {
    let mut f = Frontier::from_elem(4);
    assert!(!f.insert(4));
    assert_eq!(f.as_option(), Some(4));
}

#[test]
fn join_takes_upper_bound() {
    let a = Frontier::from_elem(3);
    let b = Frontier::from_elem(11);
    assert_eq!(a.join(&b).as_option(), Some(11));
    assert_eq!(b.join(&a).as_option(), Some(11));
}

#[test]
fn join_with_empty_is_empty() {
    let a = Frontier::from_elem(3);
    let empty = Frontier::new();
    assert_eq!(a.join(&empty).as_option(), None);
    assert_eq!(empty.join(&a).as_option(), None);
}

#[test]
fn less_equal_orders_frontiers() {
    let a = Frontier::from_elem(3);
    let b = Frontier::from_elem(11);
    let empty = Frontier::new();
    assert!(a.less_equal(&b));
    assert!(!b.less_equal(&a));
    assert!(a.less_equal(&a));
    assert!(a.less_equal(&empty));
    assert!(!empty.less_equal(&a));
    assert!(empty.less_equal(&empty));
}

#[test]
fn lag_policy_on_nonempty_frontier() {
    // u = 27, lag = 10: saturating subtraction gives 17, rounding down to a
    // multiple of the lag gives 10.
    let policy = ReadPolicy::lag_writes_by(10);
    let w = Frontier::from_elem(27);
    assert_eq!(policy.frontier(&w).as_option(), Some(10));
}

#[test]
fn lag_policy_saturates_at_minimum() {
    let policy = ReadPolicy::lag_writes_by(10);
    let w = Frontier::from_elem(4);
    assert_eq!(policy.frontier(&w).as_option(), Some(0));
}

#[test]
fn lag_policy_on_empty_frontier_retains_all_history() {
    let policy = ReadPolicy::lag_writes_by(10);
    let w = Frontier::new();
    assert_eq!(policy.frontier(&w).as_option(), Some(0));
}

#[test]
fn lag_policy_exact_formula() {
    // u = 100, lag = 10: 100 - 10 = 90, already a multiple of 10.
    let policy = ReadPolicy::lag_writes_by(10);
    assert_eq!(policy.frontier(&Frontier::from_elem(100)).as_option(), Some(90));
    // lag of one never rounds.
    let unit = ReadPolicy::lag_writes_by(1);
    assert_eq!(unit.frontier(&Frontier::from_elem(100)).as_option(), Some(99));
}

#[test]
fn valid_from_ignores_write_frontier() {
    let policy = ReadPolicy::ValidFrom(Frontier::from_elem(5));
    assert_eq!(policy.frontier(&Frontier::from_elem(1000)).as_option(), Some(5));
    assert_eq!(policy.frontier(&Frontier::new()).as_option(), Some(5));
}

#[test]
fn multiple_takes_least_of_results() {
    // The second policy yields {90}; the union {5, 90} reduces to {5}.
    let policy = ReadPolicy::Multiple(vec![
        ReadPolicy::ValidFrom(Frontier::from_elem(5)),
        ReadPolicy::lag_writes_by(10),
    ]);
    let w = Frontier::from_elem(100);
    assert_eq!(policy.frontier(&w).as_option(), Some(5));
}

#[test]
fn multiple_of_none_is_empty() {
    let policy = ReadPolicy::Multiple(vec![]);
    assert_eq!(policy.frontier(&Frontier::from_elem(3)).as_option(), None);
}

#[test]
fn multiple_never_exceeds_any_constituent() {
    let w = Frontier::from_elem(100);
    let subs = vec![
        ReadPolicy::ValidFrom(Frontier::from_elem(42)),
        ReadPolicy::lag_writes_by(7),
        ReadPolicy::lag_writes_by(30),
    ];
    let sub_results: Vec<Option<u64>> =
        subs.iter().map(|p| p.frontier(&w).as_option()).collect();
    let combined = ReadPolicy::Multiple(subs).frontier(&w);
    for r in sub_results {
        let sub_frontier = match r {
            Some(t) => Frontier::from_elem(t),
            None => Frontier::new(),
        };
        assert!(combined.less_equal(&sub_frontier));
    }
}

#[test]
fn nested_multiple_policies() {
    let inner = ReadPolicy::Multiple(vec![
        ReadPolicy::ValidFrom(Frontier::from_elem(50)),
        ReadPolicy::lag_writes_by(10),
    ]);
    let outer = ReadPolicy::Multiple(vec![inner, ReadPolicy::ValidFrom(Frontier::from_elem(60))]);
    // Inner yields min(50, 90) = 50; outer yields min(50, 60) = 50.
    assert_eq!(outer.frontier(&Frontier::from_elem(100)).as_option(), Some(50));
}
