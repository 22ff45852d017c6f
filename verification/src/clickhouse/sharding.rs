//! Shard topology: which node answers for which bucket, and what its tables must look like.
use vstd::prelude::*;

use crate::processing::ProcessingError;
use crate::text;
use crate::text_search;

verus! {

/// Largest number of buckets that a table may divide its keys into.
pub const MAX_BUCKET_MODULUS: u64 = 256;

/// How shards are reached.
#[derive(Clone, Copy, Debug, PartialEq, Eq, Structural)]
pub enum RoutingTransport {
    Tcp,
    Http,
}

/// Whether queries go to the distributed tables or to the shards themselves.
#[derive(Clone, Copy, Debug, PartialEq, Eq, Structural)]
pub enum RoutingScope {
    Distributed,
    ShardDirect,
}

/// How and where queries go.
#[derive(Clone, Copy, Debug, PartialEq, Eq, Structural)]
pub struct RoutingPolicy {
    pub transport: RoutingTransport,
    pub scope: RoutingScope,
}

/// The configuration of shard routing.
#[derive(Debug)]
pub struct ShardRoutingConfig {
    pub cluster: String,
    pub topology_config_path: Option<String>,
    pub shard_http_port: Option<u16>,
    pub gsfa_local_table: Option<String>,
    pub signatures_local_table: Option<String>,
    pub token_owner_activity_local_table: Option<String>,
    pub transactions_local_table: Option<String>,
    pub blocks_metadata_local_table: Option<String>,
}

/// A replica as the database lists it.
#[derive(Debug)]
pub struct ClusterRow {
    pub shard_num: u32,
    pub shard_weight: u32,
    pub replica_num: u32,
    pub host_name: String,
    pub host_address: String,
    pub port: u16,
    pub is_local: u8,
}

/// A configured topology.
#[derive(Debug)]
pub struct ClickHouseTopologyConfig {
    pub nodes: Vec<ClickHouseTopologyNode>,
}

/// A configured node. The address is that of a host, in its text form.
#[derive(Debug)]
pub struct ClickHouseTopologyNode {
    pub shard_id: u32,
    pub hostname: String,
    pub ip_address: String,
    pub tcp_port: u16,
    pub shard_weight: u32,
}

/// A column of a table, as the database describes it.
#[derive(Debug)]
pub struct DescribeTableRow {
    pub name: String,
    pub default_type: String,
    pub default_expression: String,
}

/// The column whose hash decides on the bucket of a row.
#[derive(Clone, Copy, Debug, PartialEq, Eq, Structural)]
pub enum BucketColumn {
    Address,
    Signature,
    Owner,
}

impl BucketColumn {
    /// The name of the column that holds the bucket.
    pub open spec fn bucket_name(self) -> Seq<char> {
        match self {
            BucketColumn::Address => "addr_bucket"@,
            BucketColumn::Signature => "sig_bucket"@,
            BucketColumn::Owner => "owner_bucket"@,
        }
    }

    /// The name of the column that is hashed.
    pub open spec fn source_name(self) -> Seq<char> {
        match self {
            BucketColumn::Address => "address"@,
            BucketColumn::Signature => "signature"@,
            BucketColumn::Owner => "owner"@,
        }
    }

    /// The name of the column that holds the bucket.
    pub fn bucket_column_name(self) -> (r: &'static str)
        ensures
            r@ == self.bucket_name(),
    {
        match self {
            BucketColumn::Address => "addr_bucket",
            BucketColumn::Signature => "sig_bucket",
            BucketColumn::Owner => "owner_bucket",
        }
    }

    /// The name of the column that is hashed.
    pub fn source_column_name(self) -> (r: &'static str)
        ensures
            r@ == self.source_name(),
    {
        match self {
            BucketColumn::Address => "address",
            BucketColumn::Signature => "signature",
            BucketColumn::Owner => "owner",
        }
    }
}

/// A text with its quotes doubled, so that it may stand between quotes in a query.
pub open spec fn escaped(s: Seq<char>) -> Seq<char> {
    text_search::replace_char(s, '\'', "''"@)
}

/// Doubles the quotes of a text.
pub fn escape_clickhouse_string(value: &str) -> (r: String)
    ensures
        r@ == escaped(value@),
{
    text_search::replace_char_text(value, '\'', "''")
}

/// The sum of the first `n` weights.
pub open spec fn weight_before(weights: Seq<u64>, n: int) -> int
    decreases n,
{
    if n <= 0 {
        0
    } else {
        weight_before(weights, n - 1) + weights[n - 1]
    }
}

/// Whether `idx` is the shard of a hash: the first one whose weights, added up, exceed the
/// remainder of the hash, and the last one if none does.
pub open spec fn is_weighted_index(weights: Seq<u64>, total_weight: u64, hash: u64, idx: int) -> bool {
    if weights.len() == 0 || total_weight == 0 {
        idx == 0
    } else {
        let x = hash as int % total_weight as int;
        &&& 0 <= idx < weights.len()
        &&& weight_before(weights, idx) <= x
        &&& x < weight_before(weights, idx + 1) || idx == weights.len() - 1
    }
}

/// Sums of more weights are not smaller.
proof fn lemma_weight_before_monotonic(weights: Seq<u64>, i: int, j: int)
    requires
        0 <= i <= j <= weights.len(),
    ensures
        weight_before(weights, i) <= weight_before(weights, j),
    decreases j - i,
{
    if i < j {
        lemma_weight_before_monotonic(weights, i, j - 1);
    }
}

/// The shard of a hash is fixed by the weights: with the total of the weights, a shard answers for
/// exactly as many remainders as its weight says, and hashes that differ by a multiple of the
/// total go to the same shard.
pub proof fn law_weighted_index_follows_weights(
    weights: Seq<u64>,
    total_weight: u64,
    hash: u64,
    idx: int,
    i: int,
)
    requires
        weights.len() > 0,
        total_weight > 0,
        total_weight == weight_before(weights, weights.len() as int),
        is_weighted_index(weights, total_weight, hash, idx),
        0 <= i < weights.len(),
    ensures
        idx == i <==> weight_before(weights, i) <= (hash as int % total_weight as int)
            < weight_before(weights, i) + weights[i],
{
    let x = hash as int % total_weight as int;
    if idx < weights.len() - 1 {
        assert(x < weight_before(weights, idx + 1));
    } else {
        assert(idx + 1 == weights.len());
    }
    if i < idx {
        lemma_weight_before_monotonic(weights, i + 1, idx);
    }
    if i > idx {
        lemma_weight_before_monotonic(weights, idx + 1, i);
    }
}

/// At most one shard answers for a hash.
pub proof fn law_weighted_index_is_unique(
    weights: Seq<u64>,
    total_weight: u64,
    hash: u64,
    a: int,
    b: int,
)
    requires
        is_weighted_index(weights, total_weight, hash, a),
        is_weighted_index(weights, total_weight, hash, b),
    ensures
        a == b,
{
    if weights.len() > 0 && total_weight > 0 {
        if a < b {
            lemma_weight_before_monotonic(weights, a + 1, b);
        }
        if b < a {
            lemma_weight_before_monotonic(weights, b + 1, a);
        }
    }
}

/// Picks the shard of a hash.
pub fn select_weighted_index(weights: &[u64], total_weight: u64, hash: u64) -> (r: usize)
    ensures
        is_weighted_index(weights@, total_weight, hash, r as int),
{
    if weights.len() == 0 || total_weight == 0 {
        return 0;
    }
    let mut remaining: u64 = hash % total_weight;
    let mut idx: usize = 0;
    while idx < weights.len()
        invariant
            idx <= weights@.len(),
            weights@.len() > 0,
            total_weight > 0,
            remaining == hash as int % total_weight as int - weight_before(weights@, idx as int),
        decreases weights@.len() - idx,
    {
        if remaining < weights[idx] {
            return idx;
        }
        remaining = remaining - weights[idx];
        idx += 1;
    }
    weights.len() - 1
}

/// The shards of a cluster, without their connections.
#[derive(Debug)]
pub struct ShardTopology {
    pub total_weight: u64,
    pub shards: Vec<ShardTarget>,
    pub weights: Vec<u64>,
}

/// A shard: the node that answers for it, and where that node is reached.
#[derive(Debug)]
pub struct ShardTarget {
    pub shard_num: u32,
    pub host: String,
    pub tcp_port: u16,
    pub http_url: String,
}

impl ShardTopology {
    /// One positive weight for each shard, at least one shard, and the total of the weights.
    pub open spec fn wf(self) -> bool {
        &&& self.shards@.len() == self.weights@.len()
        &&& self.shards@.len() > 0
        &&& self.total_weight > 0
        &&& self.total_weight == weight_before(self.weights@, self.weights@.len() as int)
        &&& forall|i: int| 0 <= i < self.weights@.len() ==> #[trigger] self.weights@[i] > 0
    }

    /// The position of the shard of a hash.
    pub fn shard_index_for_hash(&self, hash: u64) -> (r: usize)
        ensures
            is_weighted_index(self.weights@, self.total_weight, hash, r as int),
    {
        select_weighted_index(&self.weights, self.total_weight, hash)
    }

    /// The shard of a hash.
    pub fn shard_for_hash(&self, hash: u64) -> (r: &ShardTarget)
        requires
            self.wf(),
        ensures
            exists|i: int|
                {
                    &&& #[trigger] is_weighted_index(self.weights@, self.total_weight, hash, i)
                    &&& *r == self.shards@[i]
                },
    {
        let i: usize = self.shard_index_for_hash(hash);
        &self.shards[i]
    }
}

/// The local table that stands behind a distributed one.
pub open spec fn local_table(distributed: Seq<char>, override_table: Option<Seq<char>>) -> Option<
    Seq<char>,
> {
    let name = text_search::trim(distributed);
    let p = text_search::last_position(name, '.');
    if override_table is Some && text_search::trim(override_table->0).len() > 0 {
        Some(text_search::trim(override_table->0))
    } else if name.len() == 0 {
        None
    } else if text_search::ends_with(name.skip(p + 1), "_local"@) {
        Some(name)
    } else {
        Some(name + "_local"@)
    }
}

/// The text of an optional string.
pub open spec fn opt_text(s: Option<String>) -> Option<Seq<char>> {
    match s {
        Some(t) => Some(t@),
        None => None,
    }
}

/// Derives the local table that stands behind a distributed one.
pub fn derive_local_table_name(distributed: &str, override_table: Option<String>) -> (r: Option<
    String,
>)
    ensures
        opt_text(r) == local_table(distributed@, opt_text(override_table)),
{
    if let Some(value) = override_table {
        let trimmed = text_search::trim_text(value.as_str());
        if !trimmed.as_str().is_empty() {
            return Some(trimmed);
        }
    }
    let trimmed = text_search::trim_text(distributed);
    if trimmed.as_str().is_empty() {
        return None;
    }
    proof {
        text_search::lemma_last_position(trimmed@, '.');
    }
    let table = match text_search::rsplit_once_text(trimmed.as_str(), '.') {
        Some((_, table)) => table,
        None => {
            proof {
                assert(trimmed@.skip(0) =~= trimmed@);
            }
            trimmed.clone()
        },
    };
    if text_search::ends_with_text(table.as_str(), "_local") {
        return Some(trimmed);
    }
    let mut local = trimmed;
    local.append("_local");
    Some(local)
}

/// The host under which a replica is reached: its name, or else its address.
pub open spec fn host_of(row: ClusterRow) -> Option<Seq<char>> {
    if row.host_name@.len() > 0 {
        Some(row.host_name@)
    } else if row.host_address@.len() > 0 {
        Some(row.host_address@)
    } else {
        None
    }
}

/// The host under which a replica is reached.
pub fn resolve_host(row: &ClusterRow) -> (r: Option<String>)
    ensures
        opt_text(r) == host_of(*row),
{
    if !row.host_name.as_str().is_empty() {
        Some(row.host_name.clone())
    } else if !row.host_address.as_str().is_empty() {
        Some(row.host_address.clone())
    } else {
        None
    }
}

/// Whether `i` is the replica to use: the first local one, or else the first with the lowest
/// number.
pub open spec fn is_picked(replicas: Seq<ClusterRow>, i: int) -> bool {
    &&& 0 <= i < replicas.len()
    &&& if replicas[i].is_local != 0 {
        forall|k: int| 0 <= k < i ==> (#[trigger] replicas[k]).is_local == 0
    } else {
        forall|k: int|
            0 <= k < replicas.len() ==> {
                &&& (#[trigger] replicas[k]).is_local == 0
                &&& replicas[i].replica_num <= replicas[k].replica_num
                &&& k < i ==> replicas[i].replica_num < replicas[k].replica_num
            }
    }
}

/// Picks the replica to use.
pub fn pick_replica(replicas: &[ClusterRow]) -> (r: Option<&ClusterRow>)
    ensures
        match r {
            Some(row) => exists|i: int| #[trigger] is_picked(replicas@, i) && *row == replicas@[i],
            None => replicas@.len() == 0,
        },
{
    if replicas.len() == 0 {
        return None;
    }
    let mut best: usize = 0;
    let mut i: usize = 0;
    while i < replicas.len()
        invariant
            i <= replicas@.len(),
            best < replicas@.len(),
            i == 0 ==> best == 0,
            i > 0 ==> best < i,
            forall|k: int|
                0 <= k < i ==> {
                    &&& (#[trigger] replicas@[k]).is_local == 0
                    &&& replicas@[best as int].replica_num <= replicas@[k].replica_num
                    &&& k < best ==> replicas@[best as int].replica_num < replicas@[k].replica_num
                },
        decreases replicas@.len() - i,
    {
        if replicas[i].is_local != 0 {
            assert(is_picked(replicas@, i as int));
            return Some(&replicas[i]);
        }
        if replicas[i].replica_num < replicas[best].replica_num {
            best = i;
        }
        i += 1;
    }
    assert(is_picked(replicas@, best as int));
    Some(&replicas[best])
}

/// Whether two nodes have the same identity. The address is no part of it.
pub open spec fn same_node(a: ClickHouseTopologyNode, b: ClickHouseTopologyNode) -> bool {
    &&& a.shard_id == b.shard_id
    &&& a.hostname@ == b.hostname@
    &&& a.tcp_port == b.tcp_port
    &&& a.shard_weight == b.shard_weight
}

fn is_same_node(a: &ClickHouseTopologyNode, b: &ClickHouseTopologyNode) -> (r: bool)
    ensures
        r == same_node(*a, *b),
{
    a.shard_id == b.shard_id && a.tcp_port == b.tcp_port && a.shard_weight == b.shard_weight
        && text::text_eq(a.hostname.as_str(), b.hostname.as_str())
}

/// The identity of a node, as text.
pub open spec fn node_text(n: ClickHouseTopologyNode) -> Seq<char> {
    ("shard-id="@ + text::dec(n.shard_id as nat) + " hostname='"@ + n.hostname@ + "' tcp-port="@ + text::dec(n.tcp_port as nat) + " shard-weight="@ + text::dec(n.shard_weight as nat))
}

fn node_key(n: &ClickHouseTopologyNode) -> (r: String)
    ensures
        r@ == node_text(*n),
{
    let mut m = "shard-id=".to_owned();
    m.append(text::dec_string(n.shard_id as u64).as_str());
    m.append(" hostname='");
    m.append(n.hostname.as_str());
    m.append("' tcp-port=");
    m.append(text::dec_string(n.tcp_port as u64).as_str());
    m.append(" shard-weight=");
    m.append(text::dec_string(n.shard_weight as u64).as_str());
    m
}

/// Whether the node at `i` is not acceptable: a blank host name, or the identity of an earlier
/// node.
pub open spec fn bad_node(nodes: Seq<ClickHouseTopologyNode>, i: int) -> bool {
    ||| text_search::trim(nodes[i].hostname@).len() == 0
    ||| exists|k: int| 0 <= k < i && same_node(#[trigger] nodes[k], nodes[i])
}

/// What is wrong with a topology, by its first node that is not acceptable.
pub open spec fn topology_error(nodes: Seq<ClickHouseTopologyNode>, message: Seq<char>) -> bool {
    if nodes.len() == 0 {
        message == "topology config must contain at least one node"@
    } else {
        exists|i: int|
            {
                &&& 0 <= i < nodes.len()
                &&& #[trigger] bad_node(nodes, i)
                &&& forall|k: int| 0 <= k < i ==> !#[trigger] bad_node(nodes, k)
                &&& message == if text_search::trim(nodes[i].hostname@).len() == 0 {
                    ("topology node "@ + text::dec(i as nat) + " has blank hostname"@)
                } else {
                    ("duplicate topology node identity: "@ + node_text(nodes[i]))
                }
            }
    }
}

/// Whether a topology is acceptable: it has nodes, each with a host name, and no two of them have
/// the same identity.
pub open spec fn topology_valid(nodes: Seq<ClickHouseTopologyNode>) -> bool {
    &&& nodes.len() > 0
    &&& forall|i: int| 0 <= i < nodes.len() ==> !#[trigger] bad_node(nodes, i)
}

/// Checks a configured topology.
pub fn validate_clickhouse_topology_config(config: &ClickHouseTopologyConfig) -> (r: Result<
    (),
    ProcessingError,
>)
    ensures
        match r {
            Ok(()) => topology_valid(config.nodes@),
            Err(e) => e is Deserialization && topology_error(config.nodes@, e.context()),
        },
{
    let nodes = &config.nodes;
    if nodes.len() == 0 {
        return Err(
            ProcessingError::deserialization_msg(
                "topology config must contain at least one node".to_owned(),
            ),
        );
    }
    let mut i: usize = 0;
    while i < nodes.len()
        invariant
            i <= nodes.len(),
            nodes.len() > 0,
            nodes@ == config.nodes@,
            forall|k: int| 0 <= k < i ==> !#[trigger] bad_node(nodes@, k),
        decreases nodes.len() - i,
    {
        let trimmed = text_search::trim_text(nodes[i].hostname.as_str());
        if trimmed.as_str().is_empty() {
            let message = {
                let mut m = "topology node ".to_owned();
                m.append(text::dec_string(i as u64).as_str());
                m.append(" has blank hostname");
                m
            };
            assert(bad_node(nodes@, i as int));
            return Err(ProcessingError::deserialization_msg(message));
        }
        let mut k: usize = 0;
        while k < i
            invariant
                k <= i < nodes.len(),
                nodes@ == config.nodes@,
                text_search::trim(nodes@[i as int].hostname@).len() > 0,
                forall|m: int| 0 <= m < i ==> !#[trigger] bad_node(nodes@, m),
                forall|m: int| 0 <= m < k ==> !same_node(#[trigger] nodes@[m], nodes@[i as int]),
            decreases i - k,
        {
            if is_same_node(&nodes[k], &nodes[i]) {
                let key = node_key(&nodes[i]);
                let message = {
                    let mut m = "duplicate topology node identity: ".to_owned();
                    m.append(key.as_str());
                    m
                };
                assert(same_node(nodes@[k as int], nodes@[i as int]));
                assert(bad_node(nodes@, i as int));
                return Err(ProcessingError::deserialization_msg(message));
            }
            k += 1;
        }
        i += 1;
    }
    Ok(())
}

/// Whether `i` is the first node of its shard.
pub open spec fn first_of_shard(nodes: Seq<ClickHouseTopologyNode>, i: int) -> bool {
    forall|k: int| 0 <= k < i ==> (#[trigger] nodes[k]).shard_id != nodes[i].shard_id
}

/// Whether `selected` lists the first node of each shard, as positions, by ascending shard.
pub open spec fn is_selection(nodes: Seq<ClickHouseTopologyNode>, selected: Seq<usize>) -> bool {
    &&& forall|j: int|
        0 <= j < selected.len() ==> (#[trigger] selected[j]) < nodes.len() && first_of_shard(
            nodes,
            selected[j] as int,
        )
    &&& forall|j: int, m: int|
        0 <= j < m < selected.len() ==> nodes[#[trigger] selected[j] as int].shard_id
            < nodes[#[trigger] selected[m] as int].shard_id
    &&& forall|i: int|
        0 <= i < nodes.len() && #[trigger] first_of_shard(nodes, i) ==> selected.contains(
            i as usize,
        )
}

/// The nodes to use: the first one of each shard, by ascending shard.
pub fn selected_configured_shard_nodes<'a>(config: &'a ClickHouseTopologyConfig) -> (r: Vec<
    &'a ClickHouseTopologyNode,
>)
    ensures
        exists|selected: Seq<usize>|
            {
                &&& #[trigger] is_selection(config.nodes@, selected)
                &&& r@.len() == selected.len()
                &&& forall|j: int|
                    0 <= j < r@.len() ==> *(#[trigger] r@[j]) == config.nodes@[selected[j] as int]
            },
{
    let selected = selected_positions(config);
    let mut r: Vec<&'a ClickHouseTopologyNode> = Vec::new();
    let mut i: usize = 0;
    while i < selected.len()
        invariant
            i <= selected@.len(),
            is_selection(config.nodes@, selected@),
            r@.len() == i,
            forall|j: int| 0 <= j < i ==> *(#[trigger] r@[j]) == config.nodes@[selected@[j] as int],
        decreases selected@.len() - i,
    {
        r.push(&config.nodes[selected[i]]);
        i += 1;
    }
    r
}

fn selected_positions(config: &ClickHouseTopologyConfig) -> (r: Vec<usize>)
    ensures
        is_selection(config.nodes@, r@),
{
    let nodes = &config.nodes;
    let mut r: Vec<usize> = Vec::new();
    let mut i: usize = 0;
    while i < nodes.len()
        invariant
            i <= nodes.len(),
            nodes@ == config.nodes@,
            is_selection_of(nodes@, i as int, r@),
        decreases nodes.len() - i,
    {
        insert_node(nodes, i, &mut r);
        i += 1;
    }
    r
}

/// The selection among the first `n` nodes.
spec fn is_selection_of(nodes: Seq<ClickHouseTopologyNode>, n: int, selected: Seq<usize>) -> bool {
    &&& forall|j: int|
        0 <= j < selected.len() ==> (#[trigger] selected[j]) < n && first_of_shard(
            nodes,
            selected[j] as int,
        )
    &&& forall|j: int, m: int|
        0 <= j < m < selected.len() ==> nodes[#[trigger] selected[j] as int].shard_id
            < nodes[#[trigger] selected[m] as int].shard_id
    &&& forall|i: int|
        0 <= i < n && #[trigger] first_of_shard(nodes, i) ==> selected.contains(i as usize)
}

/// Puts a node in its place among the selected ones, unless its shard is there already.
fn insert_node(nodes: &Vec<ClickHouseTopologyNode>, i: usize, r: &mut Vec<usize>)
    requires
        i < nodes.len(),
        is_selection_of(nodes@, i as int, old(r)@),
    ensures
        is_selection_of(nodes@, i + 1, final(r)@),
{
    let ghost before = r@;
    let mut p: usize = 0;
    while p < r.len() && nodes[r[p]].shard_id < nodes[i].shard_id
        invariant
            p <= r.len(),
            i < nodes.len(),
            r@ == before,
            is_selection_of(nodes@, i as int, before),
            forall|j: int|
                0 <= j < p ==> nodes@[#[trigger] before[j] as int].shard_id
                    < nodes@[i as int].shard_id,
        decreases r.len() - p,
    {
        p += 1;
    }
    if p < r.len() && nodes[r[p]].shard_id == nodes[i].shard_id {
        proof {
            assert(nodes@[before[p as int] as int].shard_id == nodes@[i as int].shard_id);
            assert(!first_of_shard(nodes@, i as int));
        }
        return;
    }
    r.insert(p, i);
    proof {
        let after = r@;
        assert forall|k: int| 0 <= k < i implies (#[trigger] nodes@[k]).shard_id
            != nodes@[i as int].shard_id by {
            lemma_first_exists(nodes@, k);
            let f = choose|f: int|
                0 <= f <= k && first_of_shard(nodes@, f) && nodes@[f].shard_id == nodes@[k].shard_id;
            assert(before.contains(f as usize));
            let j = choose|j: int| 0 <= j < before.len() && before[j] == f as usize;
            if j >= p {
                if j > p {
                    assert(nodes@[before[p as int] as int].shard_id
                        < nodes@[before[j] as int].shard_id);
                }
            } else {
                assert(nodes@[before[j] as int].shard_id < nodes@[i as int].shard_id);
            }
        }
        assert(first_of_shard(nodes@, i as int));
        assert forall|j: int| 0 <= j < after.len() implies (#[trigger] after[j]) < i + 1
            && first_of_shard(nodes@, after[j] as int) by {
            if j < p {
                assert(after[j] == before[j]);
            } else if j > p {
                assert(after[j] == before[j - 1]);
            }
        }
        assert forall|j: int, m: int| 0 <= j < m < after.len() implies nodes@[
            #[trigger] after[j] as int].shard_id < nodes@[#[trigger] after[m] as int].shard_id by {
            let x = if j < p {
                before[j]
            } else if j == p {
                i
            } else {
                before[j - 1]
            };
            let y = if m < p {
                before[m]
            } else if m == p {
                i
            } else {
                before[m - 1]
            };
            assert(after[j] == x && after[m] == y);
            if j == p {
                assert(nodes@[before[p as int] as int].shard_id != nodes@[i as int].shard_id);
                if m - 1 > p {
                    assert(nodes@[before[p as int] as int].shard_id
                        < nodes@[before[m - 1] as int].shard_id);
                }
            } else if m == p {
                assert(nodes@[before[j] as int].shard_id < nodes@[i as int].shard_id);
            }
        }
        assert forall|k: int| 0 <= k < i + 1 && #[trigger] first_of_shard(
            nodes@,
            k,
        ) implies after.contains(k as usize) by {
            if k < i {
                assert(before.contains(k as usize));
                let j = choose|j: int| 0 <= j < before.len() && before[j] == k as usize;
                if j < p {
                    assert(after[j] == k as usize);
                } else {
                    assert(after[j + 1] == k as usize);
                }
            } else {
                assert(after[p as int] == i);
            }
        }
    }
}

proof fn lemma_first_exists(nodes: Seq<ClickHouseTopologyNode>, k: int)
    requires
        0 <= k < nodes.len(),
    ensures
        exists|f: int|
            0 <= f <= k && first_of_shard(nodes, f) && nodes[f].shard_id == nodes[k].shard_id,
    decreases k,
{
    if first_of_shard(nodes, k) {
    } else {
        let m = choose|m: int| 0 <= m < k && (#[trigger] nodes[m]).shard_id == nodes[k].shard_id;
        lemma_first_exists(nodes, m);
        let f = choose|f: int|
            0 <= f <= m && first_of_shard(nodes, f) && nodes[f].shard_id == nodes[m].shard_id;
        assert(first_of_shard(nodes, f));
    }
}

/// The first described column of a name.
pub open spec fn find_row(rows: Seq<DescribeTableRow>, name: Seq<char>) -> Option<DescribeTableRow>
    decreases rows.len(),
{
    if rows.len() == 0 {
        None
    } else if rows[0].name@ == name {
        Some(rows[0])
    } else {
        find_row(rows.skip(1), name)
    }
}

fn find_column<'a>(rows: &'a [DescribeTableRow], name: &str) -> (r: Option<&'a DescribeTableRow>)
    ensures
        match r {
            Some(row) => find_row(rows@, name@) == Some(*row),
            None => find_row(rows@, name@) is None,
        },
{
    let mut i: usize = 0;
    proof {
        assert(rows@.skip(0) =~= rows@);
    }
    while i < rows.len()
        invariant
            i <= rows@.len(),
            find_row(rows@, name@) == find_row(rows@.skip(i as int), name@),
        decreases rows@.len() - i,
    {
        if text::text_eq(rows[i].name.as_str(), name) {
            return Some(&rows[i]);
        }
        proof {
            assert(rows@.skip(i as int).skip(1) =~= rows@.skip(i + 1));
        }
        i += 1;
    }
    None
}

/// The required names that no described column has, in order.
pub open spec fn missing_columns(rows: Seq<DescribeTableRow>, required: Seq<Seq<char>>) -> Seq<Seq<char>> {
    required.filter(|name: Seq<char>| find_row(rows, name) is None)
}

/// The texts of a list of literals.
pub open spec fn literal_texts(v: Seq<&str>) -> Seq<Seq<char>> {
    Seq::new(v.len(), |i: int| v[i]@)
}

/// Checks that a table has the columns that queries need.
pub fn validate_required_columns(
    rows: &[DescribeTableRow],
    table: &str,
    required_columns: &[&str],
    shard_num: u32,
    host: &str,
    port: u16,
) -> (r: Result<(), ProcessingError>)
    ensures
        ({
            let missing = missing_columns(rows@, literal_texts(required_columns@));
            match r {
                Ok(()) => missing.len() == 0,
                Err(e) => {
                    &&& missing.len() > 0
                    &&& e is Database
                    &&& e.context() == ("Shard "@ + text::dec(shard_num as nat) + " "@ + host@ + ":"@ + text::dec(port as nat) + " table "@ + table@ + " missing columns: "@ + text::join(missing, ", "@))
                },
            }
        }),
{
    let mut missing: Vec<String> = Vec::new();
    let ghost all = literal_texts(required_columns@);
    let ghost absent = |name: Seq<char>| find_row(rows@, name) is None;
    let mut i: usize = 0;
    proof {
        reveal(Seq::filter);
        assert(text::texts(missing@) =~= all.take(0).filter(absent));
    }
    while i < required_columns.len()
        invariant
            i <= required_columns@.len(),
            all == literal_texts(required_columns@),
            absent == (|name: Seq<char>| find_row(rows@, name) is None),
            text::texts(missing@) == all.take(i as int).filter(absent),
        decreases required_columns@.len() - i,
    {
        let ghost before = missing@;
        proof {
            reveal(Seq::filter);
            assert(all.take(i + 1).drop_last() =~= all.take(i as int));
            assert(all.take(i + 1).last() == required_columns@[i as int]@);
        }
        let name = required_columns[i];
        if find_column(rows, name).is_none() {
            missing.push(name.to_owned());
            proof {
                assert(text::texts(missing@) =~= text::texts(before).push(name@));
            }
        }
        i += 1;
    }
    proof {
        assert(all.take(all.len() as int) =~= all);
        assert(missing_columns(rows@, all) == all.filter(absent));
    }
    if missing.len() > 0 {
        let names = text::join_texts(&missing, ", ");
        let message = {
            let mut m = "Shard ".to_owned();
            m.append(text::dec_string(shard_num as u64).as_str());
            m.append(" ");
            m.append(host);
            m.append(":");
            m.append(text::dec_string(port as u64).as_str());
            m.append(" table ");
            m.append(table);
            m.append(" missing columns: ");
            m.append(names.as_str());
            m
        };
        return Err(ProcessingError::database_msg(message));
    }
    Ok(())
}

/// How many more opening than closing brackets the first `k` characters hold.
pub open spec fn depth(s: Seq<char>, k: int) -> int
    decreases k,
{
    if k <= 0 {
        0
    } else if s[k - 1] == '(' {
        depth(s, k - 1) + 1
    } else if s[k - 1] == ')' {
        depth(s, k - 1) - 1
    } else {
        depth(s, k - 1)
    }
}

/// Whether a text stands in brackets as a whole: the first bracket closes with the last character.
pub open spec fn wrapped(s: Seq<char>) -> bool {
    &&& s.len() >= 2
    &&& s[0] == '('
    &&& s.last() == ')'
    &&& forall|k: int| 0 < k < s.len() ==> #[trigger] depth(s, k) > 0
    &&& depth(s, s.len() as int) == 0
}

/// A text without the brackets that wrap it as a whole.
pub open spec fn unwrapped(s: Seq<char>) -> Seq<char>
    decreases s.len(),
{
    if wrapped(s) {
        unwrapped(s.subrange(1, s.len() - 1))
    } else {
        s
    }
}

fn is_wrapped(value: &Vec<char>, from: usize, to: usize) -> (r: bool)
    requires
        from <= to <= value.len(),
    ensures
        r == wrapped(value@.subrange(from as int, to as int)),
{
    let ghost s = value@.subrange(from as int, to as int);
    if to - from < 2 || value[from] != '(' || value[to - 1] != ')' {
        return false;
    }
    let mut level: i128 = 0;
    let mut i: usize = from;
    while i < to
        invariant
            from <= i <= to <= value.len(),
            s == value@.subrange(from as int, to as int),
            s.len() >= 2,
            s[0] == '(',
            level == depth(s, i - from),
            -(i - from) <= level <= i - from,
            i > from ==> level > 0 || i == to,
            forall|k: int| 0 < k < i - from ==> #[trigger] depth(s, k) > 0,
        decreases to - i,
    {
        let c = value[i];
        assert(s[i - from] == c);
        if c == '(' {
            level = level + 1;
        } else if c == ')' {
            level = level - 1;
            if level == 0 && i != to - 1 {
                proof {
                    assert(depth(s, i - from + 1) == 0);
                }
                return false;
            }
        }
        i += 1;
    }
    level == 0
}

/// Drops the brackets that wrap a text as a whole.
pub fn strip_wrapping_parens(value: &str) -> (r: String)
    ensures
        r@ == unwrapped(value@),
{
    let chars = text::to_chars(value);
    let mut from: usize = 0;
    let mut to: usize = chars.len();
    proof {
        assert(chars@.subrange(0, to as int) =~= value@);
    }
    while is_wrapped(&chars, from, to)
        invariant
            from <= to <= chars.len(),
            unwrapped(value@) == unwrapped(chars@.subrange(from as int, to as int)),
        decreases to - from,
    {
        proof {
            let s = chars@.subrange(from as int, to as int);
            assert(s.subrange(1, s.len() - 1) =~= chars@.subrange(from + 1, to - 1));
        }
        from += 1;
        to -= 1;
    }
    text::from_chars(&chars, from, to)
}

/// A bucket expression without white space and without brackets that wrap it as a whole.
pub open spec fn normal_expression(value: Seq<char>) -> Seq<char> {
    unwrapped(text_search::without_ascii_white(value))
}

/// Drops the white space of a bucket expression and the brackets that wrap it as a whole.
pub fn normalize_bucket_expression(value: &str) -> (r: String)
    ensures
        r@ == normal_expression(value@),
{
    let compact = text_search::drop_ascii_white(value);
    strip_wrapping_parens(compact.as_str())
}

/// The number of buckets that a table description declares, or what is wrong with it.
pub open spec fn declared_modulus(
    rows: Seq<DescribeTableRow>,
    table: Seq<char>,
    column: BucketColumn,
) -> Result<u64, Seq<char>> {
    let bucket_name = column.bucket_name();
    match find_row(rows, bucket_name) {
        None => Err(("table "@ + table + " missing bucket column "@ + bucket_name)),
        Some(row) => {
            let expression = text_search::lower(normal_expression(row.default_expression@));
            let prefix = ("cityhash64("@ + column.source_name() + ")%"@);
            let digits = expression.skip(prefix.len() as int);
            if text_search::lower(text_search::trim(row.default_type@)) != text_search::lower("materialized"@) {
                Err(("table "@ + table + " bucket column "@ + bucket_name + " must be MATERIALIZED, found '"@ + row.default_type@ + "'"@))
            } else if !text_search::starts_with(expression, prefix) {
                Err(("table "@ + table + " bucket column "@ + bucket_name + " has unsupported expression '"@ + row.default_expression@ + "'"@))
            } else if digits.len() == 0 || !text::all_digits(digits) {
                Err(("table "@ + table + " bucket column "@ + bucket_name + " has invalid modulus expression '"@ + row.default_expression@ + "'"@))
            } else if text::dec_value(digits) > u64::MAX {
                Err(("table "@ + table + " bucket column "@ + bucket_name + " has invalid modulus '"@ + digits + "'"@))
            } else if text::dec_value(digits) == 0 || text::dec_value(digits) > MAX_BUCKET_MODULUS {
                Err(("table "@ + table + " bucket column "@ + bucket_name + " modulus "@ + text::dec(text::dec_value(digits)) + " out of supported range 1..="@ + text::dec(MAX_BUCKET_MODULUS as nat)))
            } else {
                Ok(text::dec_value(digits) as u64)
            }
        },
    }
}

/// Reads the number of buckets from a table description.
pub fn bucket_modulus_from_describe_rows(
    rows: &[DescribeTableRow],
    table: &str,
    bucket_column: BucketColumn,
) -> (r: Result<u64, ProcessingError>)
    ensures
        match r {
            Ok(modulus) => declared_modulus(rows@, table@, bucket_column) == Ok::<u64, Seq<char>>(
                modulus,
            ),
            Err(e) => e is Database && declared_modulus(rows@, table@, bucket_column) == Err::<
                u64,
                Seq<char>,
            >(e.context()),
        },
{
    let bucket_name = bucket_column.bucket_column_name();
    let row = match find_column(rows, bucket_name) {
        Some(row) => row,
        None => {
            let message = {
                let mut m = "table ".to_owned();
                m.append(table);
                m.append(" missing bucket column ");
                m.append(bucket_name);
                m
            };
            return Err(ProcessingError::database_msg(message));
        },
    };
    let default_type = text_search::trim_text(row.default_type.as_str());
    if !text_search::eq_ignore_case(default_type.as_str(), "materialized") {
        let message = {
            let mut m = "table ".to_owned();
            m.append(table);
            m.append(" bucket column ");
            m.append(bucket_name);
            m.append(" must be MATERIALIZED, found '");
            m.append(row.default_type.as_str());
            m.append("'");
            m
        };
        return Err(ProcessingError::database_msg(message));
    }
    let normalized = normalize_bucket_expression(row.default_expression.as_str());
    let expression = text_search::lower_text(normalized.as_str());
    let prefix = {
        let mut m = "cityhash64(".to_owned();
        m.append(bucket_column.source_column_name());
        m.append(")%");
        m
    };
    let digits = match text_search::strip_prefix_text(expression.as_str(), prefix.as_str()) {
        Some(digits) => digits,
        None => {
            let message = {
                let mut m = "table ".to_owned();
                m.append(table);
                m.append(" bucket column ");
                m.append(bucket_name);
                m.append(" has unsupported expression '");
                m.append(row.default_expression.as_str());
                m.append("'");
                m
            };
            return Err(ProcessingError::database_msg(message));
        },
    };
    if digits.as_str().is_empty() || !text::is_all_digits(digits.as_str()) {
        let message = {
            let mut m = "table ".to_owned();
            m.append(table);
            m.append(" bucket column ");
            m.append(bucket_name);
            m.append(" has invalid modulus expression '");
            m.append(row.default_expression.as_str());
            m.append("'");
            m
        };
        return Err(ProcessingError::database_msg(message));
    }
    let modulus: u64 = match text::parse_u64_text(digits.as_str()) {
        Some(modulus) => modulus,
        None => {
            let message = {
                let mut m = "table ".to_owned();
                m.append(table);
                m.append(" bucket column ");
                m.append(bucket_name);
                m.append(" has invalid modulus '");
                m.append(digits.as_str());
                m.append("'");
                m
            };
            return Err(ProcessingError::database_msg(message));
        },
    };
    if modulus == 0 || modulus > MAX_BUCKET_MODULUS {
        let message = {
            let mut m = "table ".to_owned();
            m.append(table);
            m.append(" bucket column ");
            m.append(bucket_name);
            m.append(" modulus ");
            m.append(text::dec_string(modulus as u64).as_str());
            m.append(" out of supported range 1..=");
            m.append(text::dec_string(MAX_BUCKET_MODULUS as u64).as_str());
            m
        };
        return Err(ProcessingError::database_msg(message));
    }
    Ok(modulus)
}

/// A quote is doubled and every other character stays as it is, so that a text may stand between quotes.
pub proof fn law_quotes_are_doubled(a: Seq<char>, b: Seq<char>, c: char)
    ensures
        escaped(a + b) == escaped(a) + escaped(b),
        escaped(seq!['\'']) == seq!['\'', '\''],
        c != '\'' ==> escaped(seq![c]) == seq![c],
{
    reveal_strlit("''");
    assert("''"@ =~= seq!['\'', '\'']);
    text_search::law_replacing_goes_character_by_character(a, b, '\'', c, "''"@);
}

/// The local table is the one that is configured; without one it is named after the distributed table,
/// with `_local` at its end, once.
pub proof fn law_local_table_is_named_after_the_distributed(
    distributed: Seq<char>,
    configured: Seq<char>,
)
    ensures
        text_search::trim(configured).len() > 0 ==> local_table(distributed, Some(configured)) == Some(
            text_search::trim(configured),
        ),
        text_search::trim(configured).len() == 0 ==> local_table(distributed, Some(configured))
            == local_table(distributed, None),
        local_table(distributed, None) is None <==> text_search::trim(distributed).len() == 0,
        local_table(distributed, None) matches Some(name) ==> {
            &&& text_search::ends_with(name, "_local"@)
            &&& name == text_search::trim(distributed) || name == text_search::trim(distributed)
                + "_local"@
        },
        text_search::trim(distributed).len() > 0 && !text_search::ends_with(
            text_search::trim(distributed),
            "_local"@,
        ) ==> local_table(distributed, None) == Some(text_search::trim(distributed) + "_local"@),
{
    let name = text_search::trim(distributed);
    let p = text_search::last_position(name, '.');
    text_search::lemma_last_position(name, '.');
    text_search::law_parts_of_a_text_are_found(name, "_local"@, name.skip(p + 1));
    if name.len() > 0 && text_search::ends_with(name.skip(p + 1), "_local"@) {
        let tail = name.skip(p + 1);
        let n = "_local"@.len();
        assert(name.subrange(name.len() - n, name.len() - n + n) =~= tail.subrange(
            tail.len() - n,
            tail.len() - n + n,
        ));
    }
}

/// Brackets around the whole of a text are taken away, however many there are.
pub proof fn law_brackets_around_are_taken_away(s: Seq<char>)
    ensures
        !wrapped(unwrapped(s)),
        wrapped(s) ==> unwrapped(s) == unwrapped(s.subrange(1, s.len() - 1)),
        !wrapped(s) ==> unwrapped(s) == s,
    decreases s.len(),
{
    if wrapped(s) {
        law_brackets_around_are_taken_away(s.subrange(1, s.len() - 1));
    }
}

/// A described column is found by its name: it is the first of that name, and where there is none, none
/// is found.
pub proof fn law_column_is_found_by_its_name(rows: Seq<DescribeTableRow>, name: Seq<char>)
    ensures
        match find_row(rows, name) {
            Some(row) => exists|i: int|
                {
                    &&& 0 <= i < rows.len()
                    &&& #[trigger] rows[i] == row
                    &&& row.name@ == name
                    &&& forall|k: int| 0 <= k < i ==> (#[trigger] rows[k]).name@ != name
                },
            None => forall|k: int| 0 <= k < rows.len() ==> (#[trigger] rows[k]).name@ != name,
        },
    decreases rows.len(),
{
    if rows.len() > 0 {
        let rest = rows.skip(1);
        if rows[0].name@ == name {
            assert(rows[0] == find_row(rows, name)->0);
        } else {
            law_column_is_found_by_its_name(rest, name);
            match find_row(rest, name) {
                Some(row) => {
                    let i = choose|i: int|
                        {
                            &&& 0 <= i < rest.len()
                            &&& #[trigger] rest[i] == row
                            &&& row.name@ == name
                            &&& forall|k: int| 0 <= k < i ==> (#[trigger] rest[k]).name@ != name
                        };
                    assert(rows[i + 1] == row);
                    assert forall|k: int| 0 <= k < i + 1 implies (#[trigger] rows[k]).name@ != name by {
                        if k > 0 {
                            assert(rest[k - 1].name@ != name);
                        }
                    }
                },
                None => {
                    assert forall|k: int| 0 <= k < rows.len() implies (#[trigger] rows[k]).name@ != name by {
                        if k > 0 {
                            assert(rest[k - 1].name@ != name);
                        }
                    }
                },
            }
        }
    }
}

/// The number of buckets is read from the description of the bucket column: the remainder of the hash of
/// the column that it is made of. It is refused where it is zero or above the limit, where the column is
/// not there, and where it is not materialized.
pub proof fn law_modulus_is_the_divisor_of_the_hash(
    rows: Seq<DescribeTableRow>,
    table: Seq<char>,
    column: BucketColumn,
    modulus: nat,
)
    ensures
        ({
            let name = match column {
                BucketColumn::Address => "addr_bucket"@,
                BucketColumn::Signature => "sig_bucket"@,
                BucketColumn::Owner => "owner_bucket"@,
            };
            let hash = match column {
                BucketColumn::Address => "cityhash64(address)%"@,
                BucketColumn::Signature => "cityhash64(signature)%"@,
                BucketColumn::Owner => "cityhash64(owner)%"@,
            };
            &&& find_row(rows, name) is None ==> declared_modulus(rows, table, column) is Err
            &&& find_row(rows, name) matches Some(row) ==> {
                let materialized = text_search::lower(text_search::trim(row.default_type@))
                    == "materialized"@;
                let expression = text_search::lower(normal_expression(row.default_expression@));
                &&& !materialized ==> declared_modulus(rows, table, column) is Err
                &&& !text_search::starts_with(expression, hash) ==> declared_modulus(rows, table, column)
                    is Err
                &&& materialized && expression == hash + text::dec(modulus) ==> {
                    &&& 1 <= modulus <= 256 ==> (declared_modulus(rows, table, column) matches Ok(n) && n
                        == modulus)
                    &&& !(1 <= modulus <= 256) ==> declared_modulus(rows, table, column) is Err
                }
            }
        }),
{
    let hash = match column {
        BucketColumn::Address => "cityhash64(address)%"@,
        BucketColumn::Signature => "cityhash64(signature)%"@,
        BucketColumn::Owner => "cityhash64(owner)%"@,
    };
    let prefix = "cityhash64("@ + column.source_name() + ")%"@;
    assert(prefix == hash) by {
        reveal_strlit("cityhash64(");
        reveal_strlit(")%");
        reveal_strlit("address");
        reveal_strlit("signature");
        reveal_strlit("owner");
        reveal_strlit("cityhash64(address)%");
        reveal_strlit("cityhash64(signature)%");
        reveal_strlit("cityhash64(owner)%");
        assert(prefix =~= hash);
    }
    assert(text_search::lower("materialized"@) == "materialized"@) by {
        reveal_strlit("materialized");
        assert(text_search::lower("materialized"@) =~= "materialized"@);
    }
    text::law_decimal_round_trip(modulus);
    text_search::law_parts_of_a_text_are_found(hash, text::dec(modulus), hash);
    assert((hash + text::dec(modulus)).skip(hash.len() as int) =~= text::dec(modulus));
}

/// The replica that is used is local where one is; otherwise none has a lower number. There is one to use
/// wherever there are replicas, and only one.
pub proof fn law_local_replica_is_preferred(replicas: Seq<ClusterRow>, i: int, j: int)
    requires
        is_picked(replicas, i),
    ensures
        replicas[i].is_local != 0 <==> exists|k: int|
            0 <= k < replicas.len() && (#[trigger] replicas[k]).is_local != 0,
        replicas[i].is_local == 0 && 0 <= j < replicas.len() ==> replicas[i].replica_num
            <= replicas[j].replica_num,
        is_picked(replicas, j) ==> i == j,
{
    if is_picked(replicas, j) && i != j {
        assert(replicas[i].is_local == 0 || replicas[i].is_local != 0);
        assert(replicas[j].is_local == 0 || replicas[j].is_local != 0);
    }
}

/// A replica is reached by its name, by its address where it has none, and not at all without either.
pub proof fn law_replica_is_reached_by_name(row: ClusterRow)
    ensures
        row.host_name@.len() > 0 ==> host_of(row) == Some(row.host_name@),
        row.host_name@.len() == 0 && row.host_address@.len() > 0 ==> host_of(row) == Some(
            row.host_address@,
        ),
        host_of(row) is None <==> row.host_name@.len() == 0 && row.host_address@.len() == 0,
{
}

/// A topology is accepted exactly where it has nodes, all of them with a host name, and no two with the
/// same shard, host, port and weight.
pub proof fn law_topology_has_distinct_named_nodes(
    nodes: Seq<ClickHouseTopologyNode>,
    i: int,
    k: int,
)
    requires
        topology_valid(nodes),
        0 <= k < i < nodes.len(),
    ensures
        text_search::trim(nodes[i].hostname@).len() > 0,
        !(nodes[k].shard_id == nodes[i].shard_id && nodes[k].hostname@ == nodes[i].hostname@
            && nodes[k].tcp_port == nodes[i].tcp_port && nodes[k].shard_weight == nodes[i].shard_weight),
{
    assert(!bad_node(nodes, i));
    if same_node(nodes[k], nodes[i]) {
        assert(bad_node(nodes, i));
    }
}

/// A topology is refused exactly where it is not valid, and the message names the first node at fault.
pub proof fn law_topology_is_refused_by_its_first_fault(
    nodes: Seq<ClickHouseTopologyNode>,
    message: Seq<char>,
)
    requires
        topology_error(nodes, message),
    ensures
        !topology_valid(nodes),
{
    if nodes.len() > 0 {
        let i = choose|i: int|
            {
                &&& 0 <= i < nodes.len()
                &&& #[trigger] bad_node(nodes, i)
                &&& forall|k: int| 0 <= k < i ==> !#[trigger] bad_node(nodes, k)
                &&& message == if text_search::trim(nodes[i].hostname@).len() == 0 {
                    ("topology node "@ + text::dec(i as nat) + " has blank hostname"@)
                } else {
                    ("duplicate topology node identity: "@ + node_text(nodes[i]))
                }
            };
        assert(bad_node(nodes, i));
    }
}

/// A selection has every shard once.
pub proof fn law_selection_has_every_shard_once(
    nodes: Seq<ClickHouseTopologyNode>,
    selected: Seq<usize>,
    i: int,
)
    requires
        is_selection(nodes, selected),
        0 <= i < nodes.len(),
        nodes.len() <= usize::MAX,
    ensures
        exists|j: int|
            0 <= j < selected.len() && nodes[#[trigger] selected[j] as int].shard_id == nodes[i].shard_id,
        forall|j: int, m: int|
            0 <= j < m < selected.len() ==> nodes[#[trigger] selected[j] as int].shard_id
                != nodes[#[trigger] selected[m] as int].shard_id,
    decreases i,
{
    if first_of_shard(nodes, i) {
        assert(selected.contains(i as usize));
        let j = selected.index_of(i as usize);
        assert(nodes[selected[j] as int].shard_id == nodes[i].shard_id);
    } else {
        let k = choose|k: int| 0 <= k < i && (#[trigger] nodes[k]).shard_id == nodes[i].shard_id;
        law_selection_has_every_shard_once(nodes, selected, k);
    }
}

/// The columns that are missing are those required that no described column has.
pub proof fn law_missing_columns_are_not_described(
    rows: Seq<DescribeTableRow>,
    required: Seq<Seq<char>>,
    name: Seq<char>,
)
    ensures
        missing_columns(rows, required).contains(name) <==> required.contains(name) && forall|k: int|
            0 <= k < rows.len() ==> (#[trigger] rows[k]).name@ != name,
{
    broadcast use vstd::seq_lib::group_filter_ensures;

    let test = |n: Seq<char>| find_row(rows, n) is None;
    law_column_is_found_by_its_name(rows, name);
    if required.contains(name) && test(name) {
        let i = required.index_of(name);
        assert(required.filter(test).contains(required[i]));
    }
    if missing_columns(rows, required).contains(name) {
        let i = missing_columns(rows, required).index_of(name);
        assert(test(required.filter(test)[i]));
        required.lemma_filter_contains_rev(test, name);
    }
}

} // verus!
