use xrpl_packet_interceptor::packet_client::proto::Partition;
use xrpl_packet_interceptor::{add, is_valid_connection, is_valid_unl_connection, plan_connections};

#[test]
fn t1() {
    assert_eq!(42, 42);
}

#[test]
fn t2() {
    assert_eq!(add(1, 2), 3);
}

#[test]
fn add_handles_negative_numbers() {
    assert_eq!(add(-5, 3), -2);
    assert_eq!(add(i32::MAX, 0), i32::MAX);
}

fn partitions(groups: &[&[u32]]) -> Vec<Partition> {
    groups.iter().map(|g| Partition { nodes: g.to_vec() }).collect()
}

#[test]
fn connection_needs_a_shared_partition() {
    let ps = partitions(&[&[0, 1], &[2, 3]]);
    assert!(is_valid_connection(0, 1, &ps));
    assert!(is_valid_connection(3, 2, &ps));
    assert!(!is_valid_connection(1, 2, &ps));
    assert!(!is_valid_connection(0, 4, &ps));
    assert!(!is_valid_connection(0, 1, &Vec::new()));
}

#[test]
fn connection_is_symmetric() {
    let ps = partitions(&[&[0, 2, 4], &[1, 3], &[3, 4]]);
    for a in 0..6 {
        for b in 0..6 {
            assert_eq!(is_valid_connection(a, b, &ps), is_valid_connection(b, a, &ps));
        }
    }
}

#[test]
fn unl_without_partitions_trusts_every_other_node() {
    let none: Vec<Partition> = Vec::new();
    assert!(is_valid_unl_connection(0, 1, &none));
    assert!(is_valid_unl_connection(1, 0, &none));
    assert!(!is_valid_unl_connection(1, 1, &none));
}

#[test]
fn unl_with_partitions_trusts_the_partition() {
    let ps = partitions(&[&[0, 1], &[1, 2]]);
    assert!(is_valid_unl_connection(0, 1, &ps));
    assert!(is_valid_unl_connection(2, 1, &ps));
    assert!(!is_valid_unl_connection(0, 2, &ps));
    assert!(!is_valid_unl_connection(0, 0, &ps));
}

#[test]
fn plan_lists_valid_pairs_in_order() {
    let ps = partitions(&[&[0, 1, 2], &[2, 3]]);
    assert_eq!(plan_connections(4, &ps), vec![(0, 1), (0, 2), (1, 2), (2, 3)]);
    assert_eq!(plan_connections(2, &ps), vec![(0, 1)]);
    assert_eq!(plan_connections(0, &ps), vec![]);
    assert_eq!(plan_connections(4, &Vec::new()), vec![]);
}
