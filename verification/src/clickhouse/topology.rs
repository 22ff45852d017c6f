//! From a configured topology or a list of replicas to the shards to use.
use vstd::prelude::*;

use crate::clickhouse::sharding::{
    escape_clickhouse_string, pick_replica, resolve_host, selected_configured_shard_nodes,
    ClickHouseTopologyConfig, ClusterRow, ShardTarget, ShardTopology,
};
use crate::clickhouse::sharding;
use crate::clickhouse::slots;
use crate::clickhouse::sql;
use crate::clickhouse::urls;
use crate::processing::ProcessingError;
use crate::text;

verus! {

/// Where a topology comes from.
#[derive(Debug)]
pub enum TopologySource {
    Config { path: String },
    Cluster { cluster: String },
}

/// A node that is to answer for a shard.
#[derive(Debug)]
pub struct ShardCandidate {
    pub shard_num: u32,
    pub shard_weight: u32,
    pub host: Option<String>,
    pub tcp_port: u16,
}

/// Decides on the port for HTTP queries to shards: the configured one, or else that of the URL.
pub fn shard_http_port(url: &str, configured: Option<u16>) -> (r: Result<u16, ProcessingError>)
    ensures
        match urls::url_port(url@) {
            None => {
                &&& r matches Err(e)
                &&& e is Database
                &&& e.context() == ("Invalid CLICKHOUSE_URL '"@ + url@ + "'"@)
            },
            Some(port) => match (configured, port) {
                (Some(p), _) => r == Ok::<u16, ProcessingError>(p),
                (None, Some(p)) => r == Ok::<u16, ProcessingError>(p),
                (None, None) => {
                    &&& r matches Err(e)
                    &&& e is Database
                    &&& e.context()
                        == "CLICKHOUSE_URL has no port and CLICKHOUSE_SHARD_HTTP_PORT is not set"@
                },
            },
        },
{
    let parsed = urls::parsed_url_port(url);
    http_port_from(url, parsed, configured)
}

/// Decides on the port for HTTP queries to shards, given what the URL says.
pub fn http_port_from(url: &str, parsed: Option<Option<u16>>, configured: Option<u16>) -> (r: Result<
    u16,
    ProcessingError,
>)
    ensures
        match parsed {
            None => {
                &&& r matches Err(e)
                &&& e is Database
                &&& e.context() == ("Invalid CLICKHOUSE_URL '"@ + url@ + "'"@)
            },
            Some(port) => match (configured, port) {
                (Some(p), _) => r == Ok::<u16, ProcessingError>(p),
                (None, Some(p)) => r == Ok::<u16, ProcessingError>(p),
                (None, None) => {
                    &&& r matches Err(e)
                    &&& e is Database
                    &&& e.context()
                        == "CLICKHOUSE_URL has no port and CLICKHOUSE_SHARD_HTTP_PORT is not set"@
                },
            },
        },
{
    match parsed {
        None => {
            let message = {
                let mut m = "Invalid CLICKHOUSE_URL '".to_owned();
                m.append(url);
                m.append("'");
                m
            };
            Err(ProcessingError::database_msg(message))
        },
        Some(port) => match (configured, port) {
            (Some(p), _) => Ok(p),
            (None, Some(p)) => Ok(p),
            (None, None) => Err(
                ProcessingError::database_msg(
                    "CLICKHOUSE_URL has no port and CLICKHOUSE_SHARD_HTTP_PORT is not set".to_owned(),
                ),
            ),
        },
    }
}

/// The query for the replicas of a cluster.
pub open spec fn cluster_query_text(cluster: Seq<char>) -> Seq<char> {
    ("SELECT shard_num, shard_weight, replica_num, host_name, host_address, port, is_local
             FROM system.clusters
             WHERE cluster = '"@ + sharding::escaped(cluster) + "'
             ORDER BY shard_num, replica_num"@)
}

/// Builds the query for the replicas of a cluster.
pub fn build_cluster_query(cluster: &str) -> (q: String)
    ensures
        q@ == cluster_query_text(cluster@),
{
    let mut m = "SELECT shard_num, shard_weight, replica_num, host_name, host_address, port, is_local
             FROM system.clusters
             WHERE cluster = '".to_owned();
    m.append(escape_clickhouse_string(cluster).as_str());
    m.append("'
             ORDER BY shard_num, replica_num");
    m
}

/// Whether the candidates are the first configured nodes of the shards, by ascending shard.
pub open spec fn candidates_of_config(
    config: ClickHouseTopologyConfig,
    candidates: Seq<ShardCandidate>,
) -> bool {
    exists|selected: Seq<usize>|
        {
            &&& #[trigger] sharding::is_selection(config.nodes@, selected)
            &&& candidates.len() == selected.len()
            &&& forall|j: int|
                0 <= j < candidates.len() ==> {
                    let node = config.nodes@[selected[j] as int];
                    &&& (#[trigger] candidates[j]).shard_num == node.shard_id
                    &&& candidates[j].shard_weight == node.shard_weight
                    &&& sharding::opt_text(candidates[j].host) == Some(node.ip_address@)
                    &&& candidates[j].tcp_port == node.tcp_port
                }
        }
}

/// The candidates of a configured topology.
pub fn configured_candidates(config: &ClickHouseTopologyConfig) -> (r: Vec<ShardCandidate>)
    ensures
        candidates_of_config(*config, r@),
{
    let selected = selected_configured_shard_nodes(config);
    let ghost positions = choose|positions: Seq<usize>|
        {
            &&& #[trigger] sharding::is_selection(config.nodes@, positions)
            &&& selected@.len() == positions.len()
            &&& forall|j: int|
                0 <= j < selected@.len() ==> *(#[trigger] selected@[j])
                    == config.nodes@[positions[j] as int]
        };
    let mut r: Vec<ShardCandidate> = Vec::new();
    let mut i: usize = 0;
    while i < selected.len()
        invariant
            sharding::is_selection(config.nodes@, positions),
            selected@.len() == positions.len(),
            forall|j: int|
                0 <= j < selected@.len() ==> *(#[trigger] selected@[j])
                    == config.nodes@[positions[j] as int],
            i <= selected.len(),
            r@.len() == i,
            forall|j: int|
                0 <= j < i ==> {
                    let node = config.nodes@[positions[j] as int];
                    &&& (#[trigger] r@[j]).shard_num == node.shard_id
                    &&& r@[j].shard_weight == node.shard_weight
                    &&& sharding::opt_text(r@[j].host) == Some(node.ip_address@)
                    &&& r@[j].tcp_port == node.tcp_port
                },
        decreases selected.len() - i,
    {
        let node = selected[i];
        r.push(
            ShardCandidate {
                shard_num: node.shard_id,
                shard_weight: node.shard_weight,
                host: Some(node.ip_address.clone()),
                tcp_port: node.tcp_port,
            },
        );
        i += 1;
    }
    r
}

/// The replicas of one shard, in order.
pub open spec fn replicas_of(rows: Seq<ClusterRow>, shard_num: u64) -> Seq<ClusterRow> {
    rows.filter(|row: ClusterRow| row.shard_num as u64 == shard_num)
}

/// The shard numbers of some replicas.
pub open spec fn shard_numbers(rows: Seq<ClusterRow>) -> Seq<u64> {
    Seq::new(rows.len(), |i: int| rows[i].shard_num as u64)
}

fn clone_row(row: &ClusterRow) -> (r: ClusterRow)
    ensures
        r == *row,
{
    ClusterRow {
        shard_num: row.shard_num,
        shard_weight: row.shard_weight,
        replica_num: row.replica_num,
        host_name: row.host_name.clone(),
        host_address: row.host_address.clone(),
        port: row.port,
        is_local: row.is_local,
    }
}

fn replicas_in_shard(rows: &Vec<ClusterRow>, shard_num: u64) -> (r: Vec<ClusterRow>)
    ensures
        r@ == replicas_of(rows@, shard_num),
{
    let ghost p = |row: ClusterRow| row.shard_num as u64 == shard_num;
    let mut r: Vec<ClusterRow> = Vec::new();
    let mut i: usize = 0;
    proof {
        reveal(Seq::filter);
        assert(r@ =~= rows@.take(0).filter(p));
    }
    while i < rows.len()
        invariant
            i <= rows.len(),
            p == (|row: ClusterRow| row.shard_num as u64 == shard_num),
            r@ == rows@.take(i as int).filter(p),
        decreases rows.len() - i,
    {
        proof {
            reveal(Seq::filter);
            assert(rows@.take(i + 1).drop_last() =~= rows@.take(i as int));
        }
        if rows[i].shard_num as u64 == shard_num {
            r.push(clone_row(&rows[i]));
        }
        i += 1;
    }
    proof {
        assert(rows@.take(rows.len() as int) =~= rows@);
    }
    r
}

proof fn lemma_replicas_nonempty(rows: Seq<ClusterRow>, shard_num: u64)
    requires
        shard_numbers(rows).contains(shard_num),
    ensures
        replicas_of(rows, shard_num).len() > 0,
        forall|i: int|
            0 <= i < replicas_of(rows, shard_num).len() ==> (
            #[trigger] replicas_of(rows, shard_num)[i]).shard_num as u64 == shard_num,
{
    let p = |row: ClusterRow| row.shard_num as u64 == shard_num;
    let k = choose|k: int| 0 <= k < shard_numbers(rows).len() && shard_numbers(rows)[k] == shard_num;
    lemma_filter_members(rows, p);
    lemma_filter_keeps(rows, p, k);
}

proof fn lemma_filter_members(rows: Seq<ClusterRow>, p: spec_fn(ClusterRow) -> bool)
    ensures
        forall|i: int| 0 <= i < rows.filter(p).len() ==> p(#[trigger] rows.filter(p)[i]),
    decreases rows.len(),
{
    reveal(Seq::filter);
    if rows.len() > 0 {
        lemma_filter_members(rows.drop_last(), p);
    }
}

proof fn lemma_filter_keeps(rows: Seq<ClusterRow>, p: spec_fn(ClusterRow) -> bool, k: int)
    requires
        0 <= k < rows.len(),
        p(rows[k]),
    ensures
        rows.filter(p).len() > 0,
    decreases rows.len(),
{
    reveal(Seq::filter);
    if k < rows.len() - 1 {
        lemma_filter_keeps(rows.drop_last(), p, k);
    }
}

/// Whether a candidate is the picked replica of its shard.
pub open spec fn candidate_of_cluster(rows: Seq<ClusterRow>, candidate: ShardCandidate) -> bool {
    let group = replicas_of(rows, candidate.shard_num as u64);
    exists|i: int|
        {
            &&& #[trigger] sharding::is_picked(group, i)
            &&& group[i].shard_num == candidate.shard_num
            &&& group[i].shard_weight == candidate.shard_weight
            &&& sharding::opt_text(candidate.host) == sharding::host_of(group[i])
            &&& group[i].port == candidate.tcp_port
        }
}

/// The shard numbers of some candidates.
pub open spec fn candidate_numbers(candidates: Seq<ShardCandidate>) -> Seq<u64> {
    Seq::new(candidates.len(), |i: int| candidates[i].shard_num as u64)
}

/// Whether the candidates are the picked replicas of the shards, by ascending shard.
pub open spec fn candidates_of_cluster(rows: Seq<ClusterRow>, candidates: Seq<ShardCandidate>) -> bool {
    &&& slots::strictly_increasing(candidate_numbers(candidates))
    &&& slots::same_numbers(candidate_numbers(candidates), shard_numbers(rows))
    &&& forall|j: int|
        0 <= j < candidates.len() ==> candidate_of_cluster(rows, #[trigger] candidates[j])
}

/// The candidates of a cluster. A cluster without replicas has no shards.
pub fn cluster_candidates(rows: &Vec<ClusterRow>, cluster: &str) -> (r: Result<
    Vec<ShardCandidate>,
    ProcessingError,
>)
    ensures
        match r {
            Ok(candidates) => rows@.len() > 0 && candidates_of_cluster(rows@, candidates@),
            Err(e) => {
                &&& rows@.len() == 0
                &&& e is Database
                &&& e.context() == ("No shards found in system.clusters for '"@ + cluster@ + "'"@)
            },
        },
{
    if rows.len() == 0 {
        let message = {
            let mut m = "No shards found in system.clusters for '".to_owned();
            m.append(cluster);
            m.append("'");
            m
        };
        return Err(ProcessingError::database_msg(message));
    }
    let mut numbers: Vec<u64> = Vec::new();
    let mut i: usize = 0;
    while i < rows.len()
        invariant
            i <= rows.len(),
            numbers@ == shard_numbers(rows@).take(i as int),
        decreases rows.len() - i,
    {
        numbers.push(rows[i].shard_num as u64);
        i += 1;
        proof {
            let all = shard_numbers(rows@);
            assert(all.take(i as int) =~= all.take(i - 1).push(all[i - 1]));
        }
    }
    proof {
        assert(shard_numbers(rows@).take(rows.len() as int) =~= shard_numbers(rows@));
    }
    let shards = slots::normalize_slots(numbers);
    let mut r: Vec<ShardCandidate> = Vec::new();
    let mut j: usize = 0;
    while j < shards.len()
        invariant
            j <= shards.len(),
            slots::strictly_increasing(shards@),
            slots::same_numbers(shards@, shard_numbers(rows@)),
            candidate_numbers(r@) == shards@.take(j as int),
            forall|k: int| 0 <= k < r@.len() ==> candidate_of_cluster(rows@, #[trigger] r@[k]),
        decreases shards.len() - j,
    {
        let shard_num: u64 = shards[j];
        let group = replicas_in_shard(rows, shard_num);
        proof {
            assert(shards@.contains(shard_num));
            lemma_replicas_nonempty(rows@, shard_num);
        }
        let ghost before = r@;
        if let Some(chosen) = pick_replica(&group) {
            let candidate = ShardCandidate {
                shard_num: chosen.shard_num,
                shard_weight: chosen.shard_weight,
                host: resolve_host(chosen),
                tcp_port: chosen.port,
            };
            proof {
                let i = choose|i: int| #[trigger] sharding::is_picked(group@, i) && *chosen == group@[i];
                assert(group@[i].shard_num as u64 == shard_num);
                assert(sharding::is_picked(replicas_of(rows@, candidate.shard_num as u64), i));
                assert(candidate_of_cluster(rows@, candidate));
            }
            r.push(candidate);
            proof {
                assert(candidate_numbers(r@) =~= candidate_numbers(before).push(shard_num));
                assert(shards@.take(j + 1) =~= shards@.take(j as int).push(shard_num));
            }
        }
        j += 1;
    }
    proof {
        assert(shards@.take(shards.len() as int) =~= shards@);
    }
    Ok(r)
}

/// Why a candidate cannot be used, in the order in which it is checked.
pub open spec fn candidate_error(
    source: TopologySource,
    cluster: Seq<char>,
    base_url: Seq<char>,
    http_port: u16,
    c: ShardCandidate,
) -> Option<Seq<char>> {
    let shard_num = c.shard_num;
    if c.shard_weight == 0 {
        Some(
            match source {
                TopologySource::Config { path } => ("Shard "@ + text::dec(shard_num as nat) + " has zero weight in ClickHouse topology config '"@ + path@ + "'"@),
                TopologySource::Cluster { cluster } => ("Shard "@ + text::dec(shard_num as nat) + " has zero weight in '"@ + cluster@ + "'"@),
            },
        )
    } else {
        match sharding::opt_text(c.host) {
            None => Some(("Shard "@ + text::dec(shard_num as nat) + " has empty host_name/host_address in '"@ + cluster + "'"@)),
            Some(host) => if !urls::tcp_options_valid(urls::tcp_address_of(host, c.tcp_port)) {
                Some(("invalid ClickHouse TCP url '"@ + urls::tcp_address_of(host, c.tcp_port) + "'"@))
            } else if !urls::url_accepts_host(base_url, host) {
                Some(
                    match source {
                        TopologySource::Config { path } => ("Invalid shard ip-address '"@ + host + "' in ClickHouse topology config '"@ + path@ + "'"@),
                        TopologySource::Cluster { cluster } => ("Invalid shard host '"@ + host + "' for '"@ + cluster@ + "'"@),
                    },
                )
            } else if urls::url_with_authority(base_url, host, http_port) is None {
                Some(("Invalid HTTP port '"@ + text::dec(http_port as nat) + "' for '"@ + cluster + "'"@))
            } else {
                None
            },
        }
    }
}

/// Whether a shard is reached as its candidate says.
pub open spec fn target_of(
    t: ShardTarget,
    c: ShardCandidate,
    base_url: Seq<char>,
    http_port: u16,
) -> bool {
    &&& t.shard_num == c.shard_num
    &&& sharding::opt_text(c.host) == Some(t.host@)
    &&& t.tcp_port == c.tcp_port
    &&& urls::url_with_authority(base_url, t.host@, http_port) == Some(t.http_url@)
}

/// The weights of some candidates.
pub open spec fn candidate_weights(candidates: Seq<ShardCandidate>) -> Seq<u64> {
    Seq::new(candidates.len(), |i: int| candidates[i].shard_weight as u64)
}

fn target_from(
    source: &TopologySource,
    cluster: &str,
    base_url: &str,
    http_port: u16,
    c: &ShardCandidate,
) -> (r: Result<ShardTarget, ProcessingError>)
    ensures
        match candidate_error(*source, cluster@, base_url@, http_port, *c) {
            Some(message) => r matches Err(e) && e is Database && e.context() == message,
            None => r matches Ok(t) && target_of(t, *c, base_url@, http_port),
        },
{
    let shard_num: u32 = c.shard_num;
    if c.shard_weight == 0 {
        let message = match source {
            TopologySource::Config { path } => {
                let mut m = "Shard ".to_owned();
                m.append(text::dec_string(shard_num as u64).as_str());
                m.append(" has zero weight in ClickHouse topology config '");
                m.append(path.as_str());
                m.append("'");
                m
            },
            TopologySource::Cluster { cluster } => {
                let mut m = "Shard ".to_owned();
                m.append(text::dec_string(shard_num as u64).as_str());
                m.append(" has zero weight in '");
                m.append(cluster.as_str());
                m.append("'");
                m
            },
        };
        return Err(ProcessingError::database_msg(message));
    }
    let host = match &c.host {
        Some(host) => host.clone(),
        None => {
            let message = {
                let mut m = "Shard ".to_owned();
                m.append(text::dec_string(shard_num as u64).as_str());
                m.append(" has empty host_name/host_address in '");
                m.append(cluster);
                m.append("'");
                m
            };
            return Err(ProcessingError::database_msg(message));
        },
    };
    let address = urls::tcp_address(host.as_str(), c.tcp_port);
    if !urls::tcp_options_parse(address.as_str()) {
        let message = {
            let mut m = "invalid ClickHouse TCP url '".to_owned();
            m.append(address.as_str());
            m.append("'");
            m
        };
        return Err(ProcessingError::database_msg(message));
    }
    if !urls::parsed_url_accepts_host(base_url, host.as_str()) {
        let message = match source {
            TopologySource::Config { path } => {
                let mut m = "Invalid shard ip-address '".to_owned();
                m.append(host.as_str());
                m.append("' in ClickHouse topology config '");
                m.append(path.as_str());
                m.append("'");
                m
            },
            TopologySource::Cluster { cluster } => {
                let mut m = "Invalid shard host '".to_owned();
                m.append(host.as_str());
                m.append("' for '");
                m.append(cluster.as_str());
                m.append("'");
                m
            },
        };
        return Err(ProcessingError::database_msg(message));
    }
    let http_url = match urls::parsed_url_with_authority(base_url, host.as_str(), http_port) {
        Some(http_url) => http_url,
        None => {
            let message = {
                let mut m = "Invalid HTTP port '".to_owned();
                m.append(text::dec_string(http_port as u64).as_str());
                m.append("' for '");
                m.append(cluster);
                m.append("'");
                m
            };
            return Err(ProcessingError::database_msg(message));
        },
    };
    Ok(ShardTarget { shard_num, host, tcp_port: c.tcp_port, http_url })
}

/// Whether the candidates up to and without `i` can all be used and their weights fit in 64 bits.
pub open spec fn candidates_fit(
    source: TopologySource,
    cluster: Seq<char>,
    base_url: Seq<char>,
    http_port: u16,
    candidates: Seq<ShardCandidate>,
    i: int,
) -> bool {
    &&& forall|k: int|
        0 <= k < i ==> candidate_error(
            source,
            cluster,
            base_url,
            http_port,
            #[trigger] candidates[k],
        ) is None
    &&& sharding::weight_before(candidate_weights(candidates), i) <= u64::MAX
}

/// Builds the topology of some candidates. The first candidate that cannot be used decides on the
/// error.
pub fn build_topology(
    source: &TopologySource,
    cluster: &str,
    base_url: &str,
    http_port: u16,
    candidates: &Vec<ShardCandidate>,
) -> (r: Result<ShardTopology, ProcessingError>)
    ensures
        match r {
            Ok(t) => {
                &&& candidates@.len() > 0
                &&& candidates_fit(
                    *source,
                    cluster@,
                    base_url@,
                    http_port,
                    candidates@,
                    candidates@.len() as int,
                )
                &&& t.wf()
                &&& t.weights@ == candidate_weights(candidates@)
                &&& forall|k: int|
                    0 <= k < candidates@.len() ==> target_of(
                        #[trigger] t.shards@[k],
                        candidates@[k],
                        base_url@,
                        http_port,
                    )
            },
            Err(e) => {
                &&& e is Database
                &&& if candidates@.len() == 0 {
                    e.context() == "Total shard weight is zero"@
                } else {
                    exists|i: int|
                        {
                            &&& 0 <= i < candidates@.len()
                            &&& #[trigger] candidates_fit(
                                *source,
                                cluster@,
                                base_url@,
                                http_port,
                                candidates@,
                                i,
                            )
                            &&& match candidate_error(
                                *source,
                                cluster@,
                                base_url@,
                                http_port,
                                candidates@[i],
                            ) {
                                Some(message) => e.context() == message,
                                None => {
                                    &&& sharding::weight_before(candidate_weights(candidates@), i + 1)
                                        > u64::MAX
                                    &&& e.context() == "Total shard weight overflowed u64"@
                                },
                            }
                        }
                }
            },
        },
{
    let ghost all = candidate_weights(candidates@);
    let mut shards: Vec<ShardTarget> = Vec::new();
    let mut weights: Vec<u64> = Vec::new();
    let mut total_weight: u64 = 0;
    let mut i: usize = 0;
    while i < candidates.len()
        invariant
            i <= candidates.len(),
            all == candidate_weights(candidates@),
            shards@.len() == i,
            weights@ == all.take(i as int),
            total_weight == sharding::weight_before(all, i as int),
            i > 0 ==> total_weight > 0,
            candidates_fit(*source, cluster@, base_url@, http_port, candidates@, i as int),
            forall|k: int|
                0 <= k < i ==> target_of(
                    #[trigger] shards@[k],
                    candidates@[k],
                    base_url@,
                    http_port,
                ),
            forall|k: int| 0 <= k < i ==> #[trigger] all[k] > 0,
        decreases candidates.len() - i,
    {
        let target = match target_from(source, cluster, base_url, http_port, &candidates[i]) {
            Ok(target) => target,
            Err(e) => {
                return Err(e);
            },
        };
        let weight: u64 = candidates[i].shard_weight as u64;
        assert(all[i as int] == weight);
        total_weight = match total_weight.checked_add(weight) {
            Some(total) => total,
            None => {
                return Err(
                    ProcessingError::database_msg("Total shard weight overflowed u64".to_owned()),
                );
            },
        };
        shards.push(target);
        weights.push(weight);
        proof {
            assert(all.take(i + 1) =~= all.take(i as int).push(weight));
        }
        i += 1;
    }
    if total_weight == 0 {
        return Err(ProcessingError::database_msg("Total shard weight is zero".to_owned()));
    }
    proof {
        assert(all.take(all.len() as int) =~= all);
    }
    Ok(ShardTopology { total_weight, shards, weights })
}

/// A shard can be used exactly where it has a weight and a host under which it is reached both ways.
pub proof fn law_usable_shards_have_weight_and_host(
    source: TopologySource,
    cluster: Seq<char>,
    base_url: Seq<char>,
    http_port: u16,
    c: ShardCandidate,
)
    ensures
        candidate_error(source, cluster, base_url, http_port, c) is None <==> {
            &&& c.shard_weight > 0
            &&& c.host matches Some(host) && {
                &&& urls::tcp_options_valid(urls::tcp_address_of(host@, c.tcp_port))
                &&& urls::url_accepts_host(base_url, host@)
                &&& urls::url_with_authority(base_url, host@, http_port) is Some
            }
        },
{
}

/// Every shard of a cluster has exactly one candidate.
pub proof fn law_every_shard_has_a_candidate(
    rows: Seq<ClusterRow>,
    candidates: Seq<ShardCandidate>,
    i: int,
)
    requires
        candidates_of_cluster(rows, candidates),
        0 <= i < rows.len(),
    ensures
        exists|j: int| 0 <= j < candidates.len() && (#[trigger] candidates[j]).shard_num == rows[i].shard_num,
        forall|j: int, k: int|
            0 <= j < k < candidates.len() ==> (#[trigger] candidates[j]).shard_num < (
            #[trigger] candidates[k]).shard_num,
{
    let numbers = candidate_numbers(candidates);
    let shards = shard_numbers(rows);
    assert(shards[i] == rows[i].shard_num as u64);
    assert(shards.contains(rows[i].shard_num as u64));
    assert(numbers.contains(rows[i].shard_num as u64));
    let j = numbers.index_of(rows[i].shard_num as u64);
    assert(candidates[j].shard_num == rows[i].shard_num);
    assert forall|j: int, k: int| 0 <= j < k < candidates.len() implies (#[trigger] candidates[j]).shard_num < (
    #[trigger] candidates[k]).shard_num by {
        assert(numbers[j] < numbers[k]);
    }
}

/// The replicas that are asked for are those of the cluster, by shard and replica.
pub proof fn law_replicas_of_the_cluster_come_by_shard(cluster: Seq<char>)
    ensures
        sql::reads_as(cluster_query_text(cluster), seq![
            "SELECT shard_num, shard_weight, replica_num, host_name, host_address, port, is_local"@,
            "FROM"@,
            "system.clusters"@,
            "WHERE"@,
            "cluster = '"@ + sharding::escaped(cluster) + "'"@,
            "ORDER BY"@,
            "shard_num, replica_num"@,
        ]),
{
    let words = sql::first("SELECT shard_num, shard_weight, replica_num, host_name, host_address, port, is_local"@);
    let words = sql::next(words, 13, "FROM"@);
    let words = sql::next(words, -1, "system.clusters"@);
    let words = sql::next(words, 13, "WHERE"@);
    let words = sql::next(words, -1, "cluster = '"@ + sharding::escaped(cluster) + "'"@);
    let words = sql::next(words, 13, "ORDER BY"@);
    let words = sql::next(words, -1, "shard_num, replica_num"@);
    assert(sql::reads_as(cluster_query_text(cluster), words.1)) by {
        assert("SELECT shard_num, shard_weight, replica_num, host_name, host_address, port, is_local
             FROM system.clusters
             WHERE cluster = '"@ == "SELECT shard_num, shard_weight, replica_num, host_name, host_address, port, is_local"@ + sql::gap(13) + "FROM"@ + sql::gap(-1) + "system.clusters"@ + sql::gap(13) + "WHERE"@ + sql::gap(-1) + "cluster = '"@) by {
            reveal_strlit("SELECT shard_num, shard_weight, replica_num, host_name, host_address, port, is_local
             FROM system.clusters
             WHERE cluster = '");
            reveal_strlit("SELECT shard_num, shard_weight, replica_num, host_name, host_address, port, is_local");
            reveal_strlit("FROM");
            reveal_strlit("system.clusters");
            reveal_strlit("WHERE");
            reveal_strlit("cluster = '");
        }
        assert("'
             ORDER BY shard_num, replica_num"@ == "'"@ + sql::gap(13) + "ORDER BY"@ + sql::gap(-1) + "shard_num, replica_num"@) by {
            reveal_strlit("'
             ORDER BY shard_num, replica_num");
            reveal_strlit("'");
            reveal_strlit("ORDER BY");
            reveal_strlit("shard_num, replica_num");
        }
        broadcast use sql::lemma_joined_first;

        sql::lemma_same_text(cluster_query_text(cluster), words);
    }
    assert(words.1 =~= seq![
        "SELECT shard_num, shard_weight, replica_num, host_name, host_address, port, is_local"@,
        "FROM"@,
        "system.clusters"@,
        "WHERE"@,
        "cluster = '"@ + sharding::escaped(cluster) + "'"@,
        "ORDER BY"@,
        "shard_num, replica_num"@,
    ]);
}

} // verus!
