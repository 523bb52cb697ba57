use dataflow_controller::controller::ClusterReplicaSizeMap;
use dataflow_controller::naming::{
    generate_instance_service_name, generate_replica_service_name, u64_to_string,
};

#[test]
fn decimal_rendering() {
    assert_eq!(u64_to_string(0), "0");
    assert_eq!(u64_to_string(7), "7");
    assert_eq!(u64_to_string(10), "10");
    assert_eq!(u64_to_string(1234567890), "1234567890");
    assert_eq!(u64_to_string(u64::MAX), "18446744073709551615");
}

#[test]
fn replica_service_name_shape() {
    assert_eq!(generate_replica_service_name(7, 3), "cluster-7-replica-3");
    assert_eq!(generate_replica_service_name(0, 0), "cluster-0-replica-0");
}

#[test]
fn replica_service_name_is_deterministic() {
    let a = generate_replica_service_name(11, 42);
    let b = generate_replica_service_name(11, 42);
    assert_eq!(a, b);
}

#[test]
fn replica_service_names_do_not_collide() {
    // The separator keeps digit runs apart: swapping digits across the
    // boundary still yields distinct names.
    let a = generate_replica_service_name(1, 23);
    let b = generate_replica_service_name(12, 3);
    assert_ne!(a, b);
    assert_eq!(a, "cluster-1-replica-23");
    assert_eq!(b, "cluster-12-replica-3");
}

#[test]
fn instance_service_name_shape() {
    assert_eq!(generate_instance_service_name(9), "cluster-9");
}

#[test]
fn default_size_map_contents() {
    let m = ClusterReplicaSizeMap::default();
    assert_eq!(m.0.len(), 9);
    let expected: Vec<(&str, u64, u64)> = vec![
        ("1", 1, 1),
        ("2", 1, 2),
        ("4", 1, 4),
        ("8", 1, 8),
        ("16", 1, 16),
        ("32", 1, 32),
        ("2-1", 2, 1),
        ("2-2", 2, 2),
        ("2-4", 2, 4),
    ];
    for (i, (name, scale, workers)) in expected.into_iter().enumerate() {
        assert_eq!(m.0[i].0, name);
        assert_eq!(m.0[i].1.scale, scale);
        assert_eq!(m.0[i].1.workers, workers);
        assert_eq!(m.0[i].1.memory_limit, None);
        assert_eq!(m.0[i].1.cpu_limit, None);
    }
}
