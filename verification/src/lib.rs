//! Verified core of the XRPL packet interceptor: the decisions that the
//! interceptor takes about messages, connections, handshakes, validator
//! configurations and logs, apart from the I/O that carries them out.
use vstd::prelude::*;

pub mod connection_handler;
pub mod docker_manager;
pub mod logger;
pub mod node_info;
pub mod packet_client;
pub mod peer_connector;
pub mod text;

use crate::packet_client::proto::Partition;

verus! {

/// Adds two numbers.
pub fn add(x: i32, y: i32) -> (sum: i32)
    requires
        i32::MIN <= x + y <= i32::MAX,
    ensures
        sum == x + y,
{
    x + y
}

/// Some partition holds both `a` and `b`.
pub open spec fn share_partition(partitions: Seq<Partition>, a: u32, b: u32) -> bool {
    exists|k: int|
        0 <= k < partitions.len() && (#[trigger] partitions[k]).nodes@.contains(a)
            && partitions[k].nodes@.contains(b)
}

fn contains_node(nodes: &Vec<u32>, id: u32) -> (r: bool)
    ensures
        r == nodes@.contains(id),
{
    let mut i: usize = 0;
    while i < nodes.len()
        invariant
            i <= nodes@.len(),
            forall|j: int| 0 <= j < i ==> nodes@[j] != id,
        decreases nodes@.len() - i,
    {
        if nodes[i] == id {
            return true;
        }
        i += 1;
    }
    false
}

/// Whether a connection between the nodes `node_1_id` and `node_2_id` should be
/// established: some partition holds both.
pub fn is_valid_connection(node_1_id: u32, node_2_id: u32, partitions: &Vec<Partition>) -> (r: bool)
    ensures
        r == share_partition(partitions@, node_1_id, node_2_id),
{
    let mut k: usize = 0;
    while k < partitions.len()
        invariant
            k <= partitions@.len(),
            forall|j: int|
                0 <= j < k ==> !((#[trigger] partitions@[j]).nodes@.contains(node_1_id)
                    && partitions@[j].nodes@.contains(node_2_id)),
        decreases partitions@.len() - k,
    {
        if contains_node(&partitions[k].nodes, node_1_id) && contains_node(&partitions[k].nodes, node_2_id) {
            return true;
        }
        k += 1;
    }
    false
}

/// Node `node_id` trusts node `other_id`: they are distinct, and either no UNL
/// partition is configured or some partition holds both.
pub open spec fn spec_unl_trusts(node_id: u32, other_id: u32, unl_partitions: Seq<Partition>) -> bool {
    node_id != other_id && (unl_partitions.len() == 0 || share_partition(unl_partitions, node_id, other_id))
}

/// Whether the validator `node_id` lists the validator `other_id` in its UNL.
pub fn is_valid_unl_connection(node_id: u32, other_id: u32, unl_partitions: &Vec<Partition>) -> (r: bool)
    ensures
        r == spec_unl_trusts(node_id, other_id, unl_partitions@),
{
    node_id != other_id && (unl_partitions.len() == 0 || is_valid_connection(node_id, other_id, unl_partitions))
}

/// Pair `p` comes strictly before pair `q` in lexicographic order.
pub open spec fn pair_before(p: (u32, u32), q: (u32, u32)) -> bool {
    p.0 < q.0 || (p.0 == q.0 && p.1 < q.1)
}

/// `pairs` lists, in lexicographic order and each once, the pairs `(i, j)` with
/// `i < j < n` whose nodes share a partition.
pub open spec fn is_connection_plan(pairs: Seq<(u32, u32)>, n: u32, partitions: Seq<Partition>) -> bool {
    &&& forall|k: int| 0 <= k < pairs.len() ==> {
        let p = #[trigger] pairs[k];
        p.0 < p.1 < n && share_partition(partitions, p.0, p.1)
    }
    &&& forall|a: u32, b: u32| a < b < n && #[trigger] share_partition(partitions, a, b) ==> pairs.contains((a, b))
    &&& forall|k1: int, k2: int| 0 <= k1 < k2 < pairs.len() ==> pair_before(pairs[k1], pairs[k2])
}

/// The peer connections to set up between `n` nodes: every pair `(i, j)` with
/// `i < j < n` that shares a partition, in the order the pairs are visited.
pub fn plan_connections(n: u32, partitions: &Vec<Partition>) -> (pairs: Vec<(u32, u32)>)
    ensures
        is_connection_plan(pairs@, n, partitions@),
{
    let mut pairs: Vec<(u32, u32)> = Vec::new();
    let mut i: u32 = 0;
    while i < n
        invariant
            i <= n,
            forall|k: int| 0 <= k < pairs@.len() ==> {
                let p = #[trigger] pairs@[k];
                p.0 < p.1 < n && share_partition(partitions@, p.0, p.1) && p.0 < i
            },
            forall|a: u32, b: u32| a < b < n && a < i && #[trigger] share_partition(partitions@, a, b) ==> pairs@.contains((a, b)),
            forall|k1: int, k2: int| 0 <= k1 < k2 < pairs@.len() ==> pair_before(pairs@[k1], pairs@[k2]),
        decreases n - i,
    {
        let mut j: u32 = i + 1;
        while j < n
            invariant
                i < n,
                i < j <= n,
                forall|k: int| 0 <= k < pairs@.len() ==> {
                    let p = #[trigger] pairs@[k];
                    p.0 < p.1 < n && share_partition(partitions@, p.0, p.1) && pair_before(p, (i, j))
                },
                forall|a: u32, b: u32|
                    a < b < n && (a < i || (a == i && b < j)) && #[trigger] share_partition(partitions@, a, b)
                        ==> pairs@.contains((a, b)),
                forall|k1: int, k2: int| 0 <= k1 < k2 < pairs@.len() ==> pair_before(pairs@[k1], pairs@[k2]),
            decreases n - j,
        {
            if is_valid_connection(i, j, partitions) {
                let ghost before = pairs@;
                pairs.push((i, j));
                assert forall|a: u32, b: u32|
                    a < b < n && (a < i || (a == i && b < j + 1)) && #[trigger] share_partition(partitions@, a, b)
                        implies pairs@.contains((a, b)) by {
                    if a == i && b == j {
                        assert(pairs@[before.len() as int] == (a, b));
                    } else {
                        assert(before.contains((a, b)));
                        let k = choose|k: int| 0 <= k < before.len() && before[k] == (a, b);
                        assert(pairs@[k] == (a, b));
                    }
                }
            }
            j += 1;
        }
        i += 1;
    }
    pairs
}

/// Whether nodes may connect does not depend on which of the two is named first.
pub proof fn lemma_connection_symmetric(a: u32, b: u32, partitions: Seq<Partition>)
    ensures
        share_partition(partitions, a, b) == share_partition(partitions, b, a),
{
    if share_partition(partitions, a, b) {
        let k = choose|k: int|
            0 <= k < partitions.len() && (#[trigger] partitions[k]).nodes@.contains(a)
                && partitions[k].nodes@.contains(b);
        assert(0 <= k < partitions.len() && partitions[k].nodes@.contains(b) && partitions[k].nodes@.contains(a));
    }
    if share_partition(partitions, b, a) {
        let k = choose|k: int|
            0 <= k < partitions.len() && (#[trigger] partitions[k]).nodes@.contains(b)
                && partitions[k].nodes@.contains(a);
        assert(0 <= k < partitions.len() && partitions[k].nodes@.contains(a) && partitions[k].nodes@.contains(b));
    }
}

/// A connection plan names each pair of nodes at most once.
pub proof fn lemma_connection_plan_unique(pairs: Seq<(u32, u32)>, n: u32, partitions: Seq<Partition>)
    requires
        is_connection_plan(pairs, n, partitions),
    ensures
        forall|k1: int, k2: int| 0 <= k1 < pairs.len() && 0 <= k2 < pairs.len() && k1 != k2 ==> pairs[k1] != pairs[k2],
{
    assert forall|k1: int, k2: int| 0 <= k1 < pairs.len() && 0 <= k2 < pairs.len() && k1 != k2 implies pairs[k1] != pairs[k2] by {
        if k1 < k2 {
            assert(pair_before(pairs[k1], pairs[k2]));
        } else {
            assert(pair_before(pairs[k2], pairs[k1]));
        }
    }
}

/// Trust between validators is mutual: `a` lists `b` in its UNL exactly when
/// `b` lists `a`; no validator lists itself.
pub proof fn lemma_unl_trust_mutual(a: u32, b: u32, unl_partitions: Seq<Partition>)
    ensures
        spec_unl_trusts(a, b, unl_partitions) == spec_unl_trusts(b, a, unl_partitions),
        !spec_unl_trusts(a, a, unl_partitions),
{
    lemma_connection_symmetric(a, b, unl_partitions);
}

/// A validator trusts another exactly when they are distinct and either no UNL
/// partition is configured or some UNL partition holds both.
pub proof fn lemma_unl_trust_rule(a: u32, b: u32, unl_partitions: Seq<Partition>)
    ensures
        unl_partitions.len() == 0 ==> (spec_unl_trusts(a, b, unl_partitions) <==> a != b),
        unl_partitions.len() > 0 ==> (spec_unl_trusts(a, b, unl_partitions) <==> (a != b && exists|k: int|
            0 <= k < unl_partitions.len() && (#[trigger] unl_partitions[k]).nodes@.contains(a)
                && unl_partitions[k].nodes@.contains(b))),
{
}

} // verus!
