//! Shard bookkeeping: the state of each shard of the cluster.
use vstd::prelude::*;

verus! {

/// Where a shard's gateway connection stands.
#[derive(Clone, Copy, Debug, PartialEq, Eq, Structural)]
pub enum ShardState {
    PendingCreation,
    Connecting,
    Identifying,
    Connected,
    Ready,
    Resuming,
    Reconnecting,
    Disconnected,
}

/// How many of a set of items were loaded so far.
#[derive(Clone, Copy, Debug, PartialEq, Eq, Structural)]
pub struct LoadingState {
    pub to_load: u32,
    pub loaded: u32,
}

/// Every shard is ready.
pub open spec fn all_ready(states: Seq<ShardState>) -> bool {
    forall|i: int| 0 <= i < states.len() ==> states[i] == ShardState::Ready
}

/// Whether every shard of the list is ready.
pub fn shards_all_ready(states: &Vec<ShardState>) -> (r: bool)
    ensures
        r == all_ready(states@),
{
    let mut i: usize = 0;
    while i < states.len()
        invariant
            i <= states.len(),
            forall|j: int| 0 <= j < i ==> states@[j] == ShardState::Ready,
        decreases states.len() - i,
    {
        if states[i] != ShardState::Ready {
            return false;
        }
        i = i + 1;
    }
    true
}

/// The shards a cluster runs: `shards_per_cluster` consecutive shard ids,
/// starting at `cluster_id * shards_per_cluster`.
pub fn cluster_shards(cluster_id: u64, shards_per_cluster: u64) -> (r: Vec<u64>)
    requires
        (cluster_id + 1) * shards_per_cluster <= u64::MAX,
    ensures
        r@.len() == shards_per_cluster,
        forall|i: int| 0 <= i < r@.len() ==> r@[i] == cluster_id * shards_per_cluster + i,
{
    proof {
        assert((cluster_id + 1) * shards_per_cluster == cluster_id * shards_per_cluster
            + shards_per_cluster) by (nonlinear_arith);
    }
    let first = cluster_id * shards_per_cluster;
    let mut out: Vec<u64> = Vec::new();
    let mut i: u64 = 0;
    while i < shards_per_cluster
        invariant
            i <= shards_per_cluster,
            first == cluster_id * shards_per_cluster,
            first + shards_per_cluster <= u64::MAX,
            out@.len() == i,
            forall|j: int| 0 <= j < i ==> out@[j] == first + j,
        decreases shards_per_cluster - i,
    {
        out.push(first + i);
        i = i + 1;
    }
    out
}

} // verus!
