//! What the client checks and learns when the service starts, one question after another.
//!
//! The caller asks the question that a step stands for and hands back the reply; the decisions are
//! made here.
use vstd::prelude::*;

use crate::clickhouse::client;
use crate::clickhouse::client::{
    build_table_check_query, build_table_definition_query, validate_gsfa_shard_layout_query,
    ClickHouseClient, ClickHouseStartupTableCheck, GsfaShardRouter,
};
use crate::clickhouse::columns;
use crate::clickhouse::sharding;
use crate::clickhouse::sharding::{BucketColumn, DescribeTableRow, ShardTopology};
use crate::clickhouse::sql;
use crate::hashing;
use crate::lists;
use crate::processing::ProcessingError;
use crate::text;

verus! {

/// A table that the service reads.
#[derive(Clone, Copy, Debug, PartialEq, Eq, Structural)]
pub enum StartupTable {
    Gsfa,
    Signatures,
    TokenOwnerActivity,
    BlocksMetadata,
    Transactions,
}

/// A question that is open when the service starts.
#[derive(Clone, Copy, Debug, PartialEq, Eq, Structural)]
pub enum StartupStep {
    /// Can the table be read?
    CheckTable(StartupTable),
    /// Are settings of queries read-only?
    DetectReadonly,
    /// What are the shards?
    BuildTopology,
    /// Can all shards be reached natively?
    CheckTcpAccess,
    /// Do the shards have the columns of the address history?
    ValidateGsfaLocal,
    /// How is the address history defined?
    CheckGsfaLayout,
    /// Do the shards have the columns of the signatures?
    ValidateSignaturesLocal,
    /// Do the shards have the columns of the token owners?
    ValidateTokenOwnerLocal,
    /// Do the shards have the columns of the hot address history?
    ValidateHotLocal,
    /// How many buckets do the tables have?
    DiscoverModuli,
}

/// The reply to a question.
#[derive(Debug)]
pub enum StartupReply {
    /// Yes.
    Confirmed,
    /// The query failed.
    QueryFailed,
    /// There is no reply, for this reason.
    Failed(ProcessingError),
    /// The read-only mode.
    Readonly(u8),
    /// The shards.
    Topology(ShardTopology),
    /// The engine and the definition of a table.
    Definition { engine: String, create_table_query: String },
}

/// The table of a step.
pub open spec fn startup_table(c: ClickHouseClient, table: StartupTable) -> Seq<char> {
    match table {
        StartupTable::Gsfa => c.gsfa_table@,
        StartupTable::Signatures => c.signature_statuses_table@,
        StartupTable::TokenOwnerActivity => c.token_owner_activity_table@,
        StartupTable::BlocksMetadata => c.blocks_metadata_table@,
        StartupTable::Transactions => c.transaction_table@,
    }
}

/// What is said of a table that cannot be read.
pub open spec fn table_access_context(table: Seq<char>) -> Seq<char> {
    ("Cannot access ClickHouse table '"@ + table + "'. Ensure ClickHouse is running, credentials are correct, the table exists, and network connectivity is available"@)
}

/// Whether the configuration of shard routing has a table.
pub open spec fn routing_has(
    c: ClickHouseClient,
    pick: spec_fn(sharding::ShardRoutingConfig) -> Option<String>,
) -> bool {
    c.shard_routing matches Some(config) && pick(config) is Some
}

/// Whether queries go to the shards themselves.
pub open spec fn direct(c: ClickHouseClient) -> bool {
    c.routing_policy.scope is ShardDirect
}

/// The question after those on the tables of the shards.
pub open spec fn step_after_token_owner(c: ClickHouseClient) -> StartupStep {
    if client::hot_routing_configured(c.gsfa_hot_addresses@) {
        StartupStep::ValidateHotLocal
    } else {
        StartupStep::DiscoverModuli
    }
}

/// The question after that on the signatures of the shards.
pub open spec fn step_after_signatures(c: ClickHouseClient) -> StartupStep {
    if routing_has(c, |r: sharding::ShardRoutingConfig| r.token_owner_activity_local_table) {
        StartupStep::ValidateTokenOwnerLocal
    } else {
        step_after_token_owner(c)
    }
}

/// The question after that on the address history of the shards.
pub open spec fn step_after_gsfa(c: ClickHouseClient) -> StartupStep {
    if routing_has(c, |r: sharding::ShardRoutingConfig| r.signatures_local_table) {
        StartupStep::ValidateSignaturesLocal
    } else {
        step_after_signatures(c)
    }
}

/// The question once the shards can be reached.
pub open spec fn step_after_access(c: ClickHouseClient) -> StartupStep {
    if !direct(c) {
        step_after_token_owner(c)
    } else if routing_has(c, |r: sharding::ShardRoutingConfig| r.gsfa_local_table) {
        StartupStep::ValidateGsfaLocal
    } else {
        step_after_gsfa(c)
    }
}

/// The question after that on the read-only mode. Queries to shards need shard routing.
pub open spec fn step_after_readonly(c: ClickHouseClient) -> Result<StartupStep, Seq<char>> {
    if direct(c) && c.shard_routing is None {
        Err("CLICKHOUSE_SCOPE=shard-direct requires shard routing configuration"@)
    } else if c.shard_routing is Some {
        Ok(StartupStep::BuildTopology)
    } else {
        Ok(StartupStep::DiscoverModuli)
    }
}

/// The question after those on the tables.
pub open spec fn step_after_tables(c: ClickHouseClient) -> Result<StartupStep, Seq<char>> {
    if c.allow_query_settings {
        Ok(StartupStep::DetectReadonly)
    } else {
        step_after_readonly(c)
    }
}

/// The question after that on a table.
pub open spec fn step_after_table(c: ClickHouseClient, table: StartupTable) -> Result<
    StartupStep,
    Seq<char>,
> {
    match table {
        StartupTable::Gsfa => Ok(StartupStep::CheckTable(StartupTable::Signatures)),
        StartupTable::Signatures => Ok(StartupStep::CheckTable(StartupTable::TokenOwnerActivity)),
        StartupTable::TokenOwnerActivity => Ok(
            StartupStep::CheckTable(StartupTable::BlocksMetadata),
        ),
        StartupTable::BlocksMetadata => Ok(StartupStep::CheckTable(StartupTable::Transactions)),
        StartupTable::Transactions => step_after_tables(c),
    }
}

/// What becomes of a reply: the next question, an error of the database with a text, or the error
/// that came.
pub enum StartupVerdict {
    Next(StartupStep),
    Database(Seq<char>),
    Passed(ProcessingError),
}

/// Whether a result is what becomes of a reply.
pub open spec fn decided(
    r: Result<StartupStep, ProcessingError>,
    verdict: StartupVerdict,
) -> bool {
    match verdict {
        StartupVerdict::Next(step) => r == Ok::<StartupStep, ProcessingError>(step),
        StartupVerdict::Database(message) => r matches Err(e) && e is Database && e.context()
            == message,
        StartupVerdict::Passed(e) => r == Err::<StartupStep, ProcessingError>(e),
    }
}

/// A step or a text as what becomes of a reply.
pub open spec fn verdict_of(outcome: Result<StartupStep, Seq<char>>) -> StartupVerdict {
    match outcome {
        Ok(step) => StartupVerdict::Next(step),
        Err(message) => StartupVerdict::Database(message),
    }
}

/// Whether a reply is one to the question.
pub open spec fn answers(step: StartupStep, reply: StartupReply) -> bool {
    match reply {
        StartupReply::QueryFailed => step is CheckTable,
        StartupReply::Failed(_) => true,
        StartupReply::Confirmed => !(step is DetectReadonly || step is BuildTopology || step
            is CheckGsfaLayout || step is DiscoverModuli),
        StartupReply::Readonly(_) => step is DetectReadonly,
        StartupReply::Topology(t) => step is BuildTopology && t.wf(),
        StartupReply::Definition { .. } => step is CheckGsfaLayout,
    }
}

/// Whether the shards have to be known.
pub open spec fn needs_topology(c: ClickHouseClient) -> bool {
    direct(c) || client::hot_routing_configured(c.gsfa_hot_addresses@) || routing_has(
        c,
        |r: sharding::ShardRoutingConfig| r.topology_config_path,
    )
}

/// What is wrong with the definition of the address history.
pub open spec fn gsfa_layout_error(
    c: ClickHouseClient,
    engine: Seq<char>,
    create_table_query: Seq<char>,
) -> Option<Seq<char>> {
    client::layout_error(
        c.database@,
        c.gsfa_table@,
        c.shard_routing->0.gsfa_local_table->0@,
        engine,
        create_table_query,
    )
}

/// The client that a reply leaves. Shards that are to be reached natively are taken over once
/// native access to them is given.
pub open spec fn startup_effect(c: ClickHouseClient, step: StartupStep, reply: StartupReply) -> ClickHouseClient {
    match (step, reply) {
        (StartupStep::CheckTable(StartupTable::TokenOwnerActivity), _) => ClickHouseClient {
            token_owner_activity_available: reply is Confirmed,
            ..c
        },
        (StartupStep::DetectReadonly, StartupReply::Readonly(mode)) if mode > 0 => ClickHouseClient {
            allow_query_settings: false,
            ..c
        },
        (StartupStep::BuildTopology, StartupReply::Topology(topology)) => if c.routing_policy.transport is Tcp {
            ClickHouseClient { found_topology: Some(topology), ..c }
        } else {
            ClickHouseClient { shard_topology: Some(topology), ..c }
        },
        (StartupStep::CheckTcpAccess, StartupReply::Confirmed) => ClickHouseClient {
            shard_topology: c.found_topology,
            found_topology: None,
            ..c
        },
        (
            StartupStep::CheckGsfaLayout,
            StartupReply::Definition { engine, create_table_query },
        ) if gsfa_layout_error(c, engine@, create_table_query@) is None => ClickHouseClient {
            gsfa_router: Some(
                GsfaShardRouter {
                    local_table: c.shard_routing->0.gsfa_local_table->0,
                    query_timeout: client::shard_timeout(c.query_timeout),
                },
            ),
            ..c
        },
        (StartupStep::ValidateSignaturesLocal, StartupReply::Failed(_)) => ClickHouseClient {
            signatures_local_table: None,
            ..c
        },
        (StartupStep::ValidateTokenOwnerLocal, StartupReply::Failed(_)) => ClickHouseClient {
            token_owner_activity_local_table: None,
            ..c
        },
        _ => c,
    }
}

/// What becomes of a reply.
///
/// Only the activity of token owners may be missing of the tables. Without a reply on the read-only
/// mode, queries carry settings. Without shards the service goes on only where nothing needs them.
/// A table of shards that has not the right columns is not read on shards, but for the hot one,
/// which has to have them.
pub open spec fn startup_verdict(c: ClickHouseClient, step: StartupStep, reply: StartupReply) -> StartupVerdict {
    match step {
        StartupStep::CheckTable(table) => match reply {
            StartupReply::QueryFailed if !(table is TokenOwnerActivity) => StartupVerdict::Database(
                table_access_context(startup_table(c, table)),
            ),
            StartupReply::Failed(e) if !(table is TokenOwnerActivity) => StartupVerdict::Passed(e),
            _ => verdict_of(step_after_table(c, table)),
        },
        StartupStep::DetectReadonly => verdict_of(step_after_readonly(c)),
        StartupStep::BuildTopology => match reply {
            StartupReply::Failed(e) => if needs_topology(c) {
                StartupVerdict::Database(
                    ("ClickHouse shard routing is required but topology initialization failed: "@ + e.context()),
                )
            } else {
                StartupVerdict::Next(StartupStep::DiscoverModuli)
            },
            _ => StartupVerdict::Next(
                if c.routing_policy.transport is Tcp {
                    StartupStep::CheckTcpAccess
                } else {
                    step_after_access(c)
                },
            ),
        },
        StartupStep::CheckTcpAccess => match reply {
            StartupReply::Failed(e) => StartupVerdict::Passed(e),
            _ => StartupVerdict::Next(step_after_access(c)),
        },
        StartupStep::ValidateGsfaLocal => StartupVerdict::Next(
            if reply is Confirmed {
                StartupStep::CheckGsfaLayout
            } else {
                step_after_gsfa(c)
            },
        ),
        StartupStep::CheckGsfaLayout => match reply {
            StartupReply::Definition { engine, create_table_query } => match gsfa_layout_error(
                c,
                engine@,
                create_table_query@,
            ) {
                Some(message) => StartupVerdict::Database(message),
                None => StartupVerdict::Next(step_after_gsfa(c)),
            },
            StartupReply::Failed(e) => StartupVerdict::Passed(e),
            _ => StartupVerdict::Next(step_after_gsfa(c)),
        },
        StartupStep::ValidateSignaturesLocal => StartupVerdict::Next(step_after_signatures(c)),
        StartupStep::ValidateTokenOwnerLocal => StartupVerdict::Next(step_after_token_owner(c)),
        StartupStep::ValidateHotLocal => match reply {
            StartupReply::Failed(e) => StartupVerdict::Database(
                ("GSFA hot routing is enabled but shard-local hot table validation failed for '"@ + c.gsfa_hot_local_table@ + "': "@ + e.context()),
            ),
            _ => StartupVerdict::Next(StartupStep::DiscoverModuli),
        },
        StartupStep::DiscoverModuli => StartupVerdict::Next(StartupStep::DiscoverModuli),
    }
}

impl ClickHouseClient {
    /// The first question.
    pub fn first_startup_step() -> (r: StartupStep)
        ensures
            r == StartupStep::CheckTable(StartupTable::Gsfa),
    {
        StartupStep::CheckTable(StartupTable::Gsfa)
    }

    /// The table of a question.
    pub fn startup_table_name<'a>(&'a self, table: StartupTable) -> (r: &'a str)
        ensures
            r@ == startup_table(*self, table),
    {
        match table {
            StartupTable::Gsfa => self.gsfa_table.as_str(),
            StartupTable::Signatures => self.signature_statuses_table.as_str(),
            StartupTable::TokenOwnerActivity => self.token_owner_activity_table.as_str(),
            StartupTable::BlocksMetadata => self.blocks_metadata_table.as_str(),
            StartupTable::Transactions => self.transaction_table.as_str(),
        }
    }

    fn next_after_token_owner(&self) -> (r: StartupStep)
        ensures
            r == step_after_token_owner(*self),
    {
        if self.gsfa_hot_routing_configured() {
            StartupStep::ValidateHotLocal
        } else {
            StartupStep::DiscoverModuli
        }
    }

    fn next_after_signatures(&self) -> (r: StartupStep)
        ensures
            r == step_after_signatures(*self),
    {
        let has = match &self.shard_routing {
            Some(config) => config.token_owner_activity_local_table.is_some(),
            None => false,
        };
        if has {
            StartupStep::ValidateTokenOwnerLocal
        } else {
            self.next_after_token_owner()
        }
    }

    fn next_after_gsfa(&self) -> (r: StartupStep)
        ensures
            r == step_after_gsfa(*self),
    {
        let has = match &self.shard_routing {
            Some(config) => config.signatures_local_table.is_some(),
            None => false,
        };
        if has {
            StartupStep::ValidateSignaturesLocal
        } else {
            self.next_after_signatures()
        }
    }

    fn next_after_access(&self) -> (r: StartupStep)
        ensures
            r == step_after_access(*self),
    {
        if !self.scope_shard_direct() {
            return self.next_after_token_owner();
        }
        let has = match &self.shard_routing {
            Some(config) => config.gsfa_local_table.is_some(),
            None => false,
        };
        if has {
            StartupStep::ValidateGsfaLocal
        } else {
            self.next_after_gsfa()
        }
    }

    fn next_after_readonly(&self) -> (r: Result<StartupStep, ProcessingError>)
        ensures
            decided(r, verdict_of(step_after_readonly(*self))),
    {
        if self.scope_shard_direct() && self.shard_routing.is_none() {
            return Err(
                ProcessingError::database_msg(
                    "CLICKHOUSE_SCOPE=shard-direct requires shard routing configuration".to_owned(),
                ),
            );
        }
        if self.shard_routing.is_some() {
            Ok(StartupStep::BuildTopology)
        } else {
            Ok(StartupStep::DiscoverModuli)
        }
    }

    fn next_after_table(&self, table: StartupTable) -> (r: Result<StartupStep, ProcessingError>)
        ensures
            decided(r, verdict_of(step_after_table(*self, table))),
    {
        match table {
            StartupTable::Gsfa => Ok(StartupStep::CheckTable(StartupTable::Signatures)),
            StartupTable::Signatures => Ok(
                StartupStep::CheckTable(StartupTable::TokenOwnerActivity),
            ),
            StartupTable::TokenOwnerActivity => Ok(
                StartupStep::CheckTable(StartupTable::BlocksMetadata),
            ),
            StartupTable::BlocksMetadata => Ok(StartupStep::CheckTable(StartupTable::Transactions)),
            StartupTable::Transactions => if self.allow_query_settings {
                Ok(StartupStep::DetectReadonly)
            } else {
                self.next_after_readonly()
            },
        }
    }

    /// Takes the reply on a table. Only the activity of token owners may be missing.
    pub fn table_checked(&mut self, table: StartupTable, reply: StartupReply) -> (r: Result<
        StartupStep,
        ProcessingError,
    >)
        requires
            old(self).wf(),
            answers(StartupStep::CheckTable(table), reply),
        ensures
            final(self).wf(),
            *final(self) == startup_effect(*old(self), StartupStep::CheckTable(table), reply),
            decided(r, startup_verdict(*old(self), StartupStep::CheckTable(table), reply)),
    {
        if table == StartupTable::TokenOwnerActivity {
            self.token_owner_activity_available = match reply {
                StartupReply::Confirmed => true,
                _ => false,
            };
            return self.next_after_table(table);
        }
        match reply {
            StartupReply::QueryFailed => {
                let name = self.startup_table_name(table);
                let message = {
                    let mut m = "Cannot access ClickHouse table '".to_owned();
                    m.append(name);
                    m.append("'. Ensure ClickHouse is running, credentials are correct, the table exists, and network connectivity is available");
                    m
                };
                Err(ProcessingError::database_msg(message))
            },
            StartupReply::Failed(e) => Err(e),
            _ => self.next_after_table(table),
        }
    }

    /// Takes the reply on the read-only mode. In it, queries carry no settings; without a reply,
    /// they do.
    pub fn readonly_detected(&mut self, reply: StartupReply) -> (r: Result<
        StartupStep,
        ProcessingError,
    >)
        requires
            old(self).wf(),
            answers(StartupStep::DetectReadonly, reply),
        ensures
            final(self).wf(),
            *final(self) == startup_effect(*old(self), StartupStep::DetectReadonly, reply),
            decided(r, startup_verdict(*old(self), StartupStep::DetectReadonly, reply)),
    {
        if let StartupReply::Readonly(mode) = reply {
            if mode > 0 {
                self.allow_query_settings = false;
            }
        }
        self.next_after_readonly()
    }

    /// Takes the shards. Without them the service goes on only where nothing needs them.
    pub fn topology_built(&mut self, reply: StartupReply) -> (r: Result<StartupStep, ProcessingError>)
        requires
            old(self).wf(),
            answers(StartupStep::BuildTopology, reply),
        ensures
            final(self).wf(),
            *final(self) == startup_effect(*old(self), StartupStep::BuildTopology, reply),
            decided(r, startup_verdict(*old(self), StartupStep::BuildTopology, reply)),
    {
        match reply {
            StartupReply::Topology(topology) => {
                if self.transport_tcp() {
                    self.found_topology = Some(topology);
                    Ok(StartupStep::CheckTcpAccess)
                } else {
                    self.shard_topology = Some(topology);
                    Ok(self.next_after_access())
                }
            },
            StartupReply::Failed(e) => {
                let configured = match &self.shard_routing {
                    Some(config) => config.topology_config_path.is_some(),
                    None => false,
                };
                if self.scope_shard_direct() || self.gsfa_hot_routing_configured() || configured {
                    let reason = e.message();
                    let message = {
                        let mut m = "ClickHouse shard routing is required but topology initialization failed: ".to_owned();
                        m.append(reason.as_str());
                        m
                    };
                    return Err(ProcessingError::database_msg(message));
                }
                Ok(StartupStep::DiscoverModuli)
            },
            _ => Ok(StartupStep::DiscoverModuli),
        }
    }

    /// Takes the reply on native access, which has to be given.
    pub fn tcp_access_checked(&mut self, reply: StartupReply) -> (r: Result<
        StartupStep,
        ProcessingError,
    >)
        requires
            old(self).wf(),
            answers(StartupStep::CheckTcpAccess, reply),
        ensures
            final(self).wf(),
            *final(self) == startup_effect(*old(self), StartupStep::CheckTcpAccess, reply),
            decided(r, startup_verdict(*old(self), StartupStep::CheckTcpAccess, reply)),
    {
        match reply {
            StartupReply::Failed(e) => Err(e),
            _ => {
                let step = self.next_after_access();
                self.shard_topology = self.found_topology.take();
                Ok(step)
            },
        }
    }

    /// Takes the reply on the address history of the shards. Where it has not the right columns,
    /// it is not read on shards.
    pub fn gsfa_local_validated(&self, reply: StartupReply) -> (r: StartupStep)
        requires
            answers(StartupStep::ValidateGsfaLocal, reply),
        ensures
            StartupVerdict::Next(r) == startup_verdict(*self, StartupStep::ValidateGsfaLocal, reply),
    {
        match reply {
            StartupReply::Confirmed => StartupStep::CheckGsfaLayout,
            _ => self.next_after_gsfa(),
        }
    }

    /// Takes the definition of the address history, which has to be the right one.
    pub fn gsfa_layout_checked(&mut self, reply: StartupReply) -> (r: Result<
        StartupStep,
        ProcessingError,
    >)
        requires
            old(self).wf(),
            routing_has(*old(self), |r: sharding::ShardRoutingConfig| r.gsfa_local_table),
            answers(StartupStep::CheckGsfaLayout, reply),
        ensures
            final(self).wf(),
            *final(self) == startup_effect(*old(self), StartupStep::CheckGsfaLayout, reply),
            decided(r, startup_verdict(*old(self), StartupStep::CheckGsfaLayout, reply)),
    {
        match reply {
            StartupReply::Definition { engine, create_table_query } => {
                let local_table = match &self.shard_routing {
                    Some(config) => match &config.gsfa_local_table {
                        Some(table) => table.clone(),
                        None => String::new(),
                    },
                    None => String::new(),
                };
                if let Err(e) = validate_gsfa_shard_layout_query(
                    self.database.as_str(),
                    self.gsfa_table.as_str(),
                    local_table.as_str(),
                    engine.as_str(),
                    create_table_query.as_str(),
                ) {
                    return Err(e);
                }
                let query_timeout = self.shard_tcp_query_timeout();
                let step = self.next_after_gsfa();
                self.gsfa_router = Some(GsfaShardRouter { local_table, query_timeout });
                Ok(step)
            },
            StartupReply::Failed(e) => Err(e),
            _ => Ok(self.next_after_gsfa()),
        }
    }

    /// Takes the reply on the signatures of the shards. Where they have not the right columns, they
    /// are not read on shards.
    pub fn signatures_local_validated(&mut self, reply: StartupReply) -> (r: StartupStep)
        requires
            old(self).wf(),
            answers(StartupStep::ValidateSignaturesLocal, reply),
        ensures
            final(self).wf(),
            *final(self) == startup_effect(*old(self), StartupStep::ValidateSignaturesLocal, reply),
            StartupVerdict::Next(r) == startup_verdict(*old(self), StartupStep::ValidateSignaturesLocal, reply),
    {
        match reply {
            StartupReply::Confirmed => (),
            _ => {
                self.signatures_local_table = None;
            },
        }
        self.next_after_signatures()
    }

    /// Takes the reply on the token owners of the shards. Where they have not the right columns,
    /// they are not read on shards.
    pub fn token_owner_local_validated(&mut self, reply: StartupReply) -> (r: StartupStep)
        requires
            old(self).wf(),
            answers(StartupStep::ValidateTokenOwnerLocal, reply),
        ensures
            final(self).wf(),
            *final(self) == startup_effect(*old(self), StartupStep::ValidateTokenOwnerLocal, reply),
            StartupVerdict::Next(r) == startup_verdict(*old(self), StartupStep::ValidateTokenOwnerLocal, reply),
    {
        match reply {
            StartupReply::Confirmed => (),
            _ => {
                self.token_owner_activity_local_table = None;
            },
        }
        self.next_after_token_owner()
    }

    /// Takes the reply on the hot address history of the shards, which has to have the right
    /// columns.
    pub fn hot_local_validated(&self, reply: StartupReply) -> (r: Result<StartupStep, ProcessingError>)
        requires
            answers(StartupStep::ValidateHotLocal, reply),
        ensures
            decided(r, startup_verdict(*self, StartupStep::ValidateHotLocal, reply)),
    {
        match reply {
            StartupReply::Failed(e) => {
                let reason = e.message();
                let message = {
                    let mut m = "GSFA hot routing is enabled but shard-local hot table validation failed for '".to_owned();
                    m.append(self.gsfa_hot_local_table.as_str());
                    m.append("': ");
                    m.append(reason.as_str());
                    m
                };
                Err(ProcessingError::database_msg(message))
            },
            _ => Ok(StartupStep::DiscoverModuli),
        }
    }

    /// Takes a reply to any question but the last one, and says what to ask next.
    pub fn startup_advance(&mut self, step: StartupStep, reply: StartupReply) -> (r: Result<
        StartupStep,
        ProcessingError,
    >)
        requires
            old(self).wf(),
            answers(step, reply),
            !(step is DiscoverModuli),
            step is CheckGsfaLayout ==> routing_has(
                *old(self),
                |r: sharding::ShardRoutingConfig| r.gsfa_local_table,
            ),
        ensures
            final(self).wf(),
            *final(self) == startup_effect(*old(self), step, reply),
            decided(r, startup_verdict(*old(self), step, reply)),
    {
        match step {
            StartupStep::CheckTable(table) => self.table_checked(table, reply),
            StartupStep::DetectReadonly => self.readonly_detected(reply),
            StartupStep::BuildTopology => self.topology_built(reply),
            StartupStep::CheckTcpAccess => self.tcp_access_checked(reply),
            StartupStep::ValidateGsfaLocal => Ok(self.gsfa_local_validated(reply)),
            StartupStep::CheckGsfaLayout => self.gsfa_layout_checked(reply),
            StartupStep::ValidateSignaturesLocal => Ok(self.signatures_local_validated(reply)),
            StartupStep::ValidateTokenOwnerLocal => Ok(self.token_owner_local_validated(reply)),
            StartupStep::ValidateHotLocal => self.hot_local_validated(reply),
            StartupStep::DiscoverModuli => Ok(StartupStep::DiscoverModuli),
        }
    }
}

/// What a step asks.
#[derive(Debug)]
pub enum StartupQuestion {
    /// This query, whose reply is a number of rows.
    Rows(String),
    /// This query, whose reply is the read-only mode.
    Readonly(String),
    /// The shards, by the configuration of shard routing.
    Topology,
    /// Native access to the shards that were found.
    Access,
    /// Whether a table of the shards has these columns.
    Columns { table: String, columns: Vec<&'static str> },
    /// This query, whose reply is the definition of a table.
    Definition(String),
    /// Nothing.
    Nothing,
}

/// Whether a question is on the columns of a table of the shards. Without a table there is none.
pub open spec fn asks_for_columns(
    q: StartupQuestion,
    table: Option<String>,
    required: Seq<Seq<char>>,
) -> bool {
    match table {
        Some(name) => q matches StartupQuestion::Columns { table: asked, columns } && asked@
            == name@ && sharding::literal_texts(columns@) == required,
        None => q is Nothing,
    }
}

/// Whether a question is what a step asks.
pub open spec fn asks(q: StartupQuestion, c: ClickHouseClient, step: StartupStep) -> bool {
    match step {
        StartupStep::CheckTable(table) => q matches StartupQuestion::Rows(sql) && sql@
            == client::table_check_query(c.startup_table_check, startup_table(c, table)),
        StartupStep::DetectReadonly => q matches StartupQuestion::Readonly(sql) && sql@
            == "SELECT toUInt8(getSetting('readonly')) AS readonly"@,
        StartupStep::BuildTopology => q is Topology,
        StartupStep::CheckTcpAccess => q is Access,
        StartupStep::ValidateGsfaLocal => asks_for_columns(
            q,
            routed_table(c, |r: sharding::ShardRoutingConfig| r.gsfa_local_table),
            columns::gsfa_required(),
        ),
        StartupStep::CheckGsfaLayout => q matches StartupQuestion::Definition(sql) && sql@
            == client::definition_query(c.database@, c.gsfa_table@),
        StartupStep::ValidateSignaturesLocal => asks_for_columns(
            q,
            routed_table(c, |r: sharding::ShardRoutingConfig| r.signatures_local_table),
            columns::signatures_required(),
        ),
        StartupStep::ValidateTokenOwnerLocal => asks_for_columns(
            q,
            routed_table(c, |r: sharding::ShardRoutingConfig| r.token_owner_activity_local_table),
            columns::token_owner_required(),
        ),
        StartupStep::ValidateHotLocal => asks_for_columns(
            q,
            Some(c.gsfa_hot_local_table),
            columns::gsfa_required(),
        ),
        StartupStep::DiscoverModuli => q is Nothing,
    }
}

/// A table that the configuration of shard routing has.
pub open spec fn routed_table(
    c: ClickHouseClient,
    pick: spec_fn(sharding::ShardRoutingConfig) -> Option<String>,
) -> Option<String> {
    match c.shard_routing {
        Some(config) => pick(config),
        None => None,
    }
}

fn columns_question(table: &Option<String>, columns: Vec<&'static str>) -> (q: StartupQuestion)
    ensures
        asks_for_columns(q, *table, sharding::literal_texts(columns@)),
{
    match table {
        Some(name) => StartupQuestion::Columns { table: name.clone(), columns },
        None => StartupQuestion::Nothing,
    }
}

impl ClickHouseClient {
    /// What a step asks.
    pub fn startup_question(&self, step: StartupStep) -> (q: StartupQuestion)
        ensures
            asks(q, *self, step),
    {
        match step {
            StartupStep::CheckTable(table) => StartupQuestion::Rows(
                build_table_check_query(self.startup_table_check, self.startup_table_name(table)),
            ),
            StartupStep::DetectReadonly => StartupQuestion::Readonly(
                "SELECT toUInt8(getSetting('readonly')) AS readonly".to_owned(),
            ),
            StartupStep::BuildTopology => StartupQuestion::Topology,
            StartupStep::CheckTcpAccess => StartupQuestion::Access,
            StartupStep::ValidateGsfaLocal => match &self.shard_routing {
                Some(config) => columns_question(
                    &config.gsfa_local_table,
                    columns::gsfa_required_columns(),
                ),
                None => StartupQuestion::Nothing,
            },
            StartupStep::CheckGsfaLayout => StartupQuestion::Definition(
                build_table_definition_query(self.database.as_str(), self.gsfa_table.as_str()),
            ),
            StartupStep::ValidateSignaturesLocal => match &self.shard_routing {
                Some(config) => columns_question(
                    &config.signatures_local_table,
                    columns::signatures_required_columns(),
                ),
                None => StartupQuestion::Nothing,
            },
            StartupStep::ValidateTokenOwnerLocal => match &self.shard_routing {
                Some(config) => columns_question(
                    &config.token_owner_activity_local_table,
                    columns::token_owner_required_columns(),
                ),
                None => StartupQuestion::Nothing,
            },
            StartupStep::ValidateHotLocal => StartupQuestion::Columns {
                table: self.gsfa_hot_local_table.clone(),
                columns: columns::gsfa_required_columns(),
            },
            StartupStep::DiscoverModuli => StartupQuestion::Nothing,
        }
    }
}

/// The place of a question in the order of all questions.
pub open spec fn order(step: StartupStep) -> int {
    match step {
        StartupStep::CheckTable(StartupTable::Gsfa) => 0,
        StartupStep::CheckTable(StartupTable::Signatures) => 1,
        StartupStep::CheckTable(StartupTable::TokenOwnerActivity) => 2,
        StartupStep::CheckTable(StartupTable::BlocksMetadata) => 3,
        StartupStep::CheckTable(StartupTable::Transactions) => 4,
        StartupStep::DetectReadonly => 5,
        StartupStep::BuildTopology => 6,
        StartupStep::CheckTcpAccess => 7,
        StartupStep::ValidateGsfaLocal => 8,
        StartupStep::CheckGsfaLayout => 9,
        StartupStep::ValidateSignaturesLocal => 10,
        StartupStep::ValidateTokenOwnerLocal => 11,
        StartupStep::ValidateHotLocal => 12,
        StartupStep::DiscoverModuli => 13,
    }
}

/// The questions that follow come later in the order of questions, so every start comes to an end;
/// the definition of the address history is asked for only where its table on shards is known, and
/// native access is asked for only where shards were found.
pub proof fn law_startup_questions_advance(
    c: ClickHouseClient,
    step: StartupStep,
    reply: StartupReply,
)
    requires
        answers(step, reply),
        !(step is DiscoverModuli),
        step is CheckGsfaLayout || step is ValidateGsfaLocal ==> routing_has(
            c,
            |r: sharding::ShardRoutingConfig| r.gsfa_local_table,
        ),
    ensures
        startup_verdict(c, step, reply) matches StartupVerdict::Next(next) ==> {
            &&& order(next) > order(step)
            &&& next is CheckGsfaLayout || next is ValidateGsfaLocal ==> routing_has(
                startup_effect(c, step, reply),
                |r: sharding::ShardRoutingConfig| r.gsfa_local_table,
            )
            &&& next is CheckTcpAccess ==> startup_effect(c, step, reply).found_topology is Some
        },
{
}

/// A reply that ends the start leaves the client as it was, and nothing but the reply that belongs to
/// it changes the shards, the tables on shards or the settings. Shards that are to be reached
/// natively are used only after native access to them was given.
pub proof fn law_startup_changes_one_thing(
    c: ClickHouseClient,
    step: StartupStep,
    reply: StartupReply,
)
    requires
        answers(step, reply),
    ensures
        !(startup_verdict(c, step, reply) is Next) && !(step
            matches StartupStep::CheckTable(table) && table is TokenOwnerActivity) && !(step
            is DetectReadonly) ==> startup_effect(c, step, reply) == c,
        !(step is BuildTopology || step is CheckTcpAccess) ==> startup_effect(
            c,
            step,
            reply,
        ).shard_topology == c.shard_topology,
        c.routing_policy.transport is Tcp && !(step is CheckTcpAccess && reply is Confirmed)
            ==> startup_effect(c, step, reply).shard_topology == c.shard_topology,
        !(step is CheckGsfaLayout) ==> startup_effect(c, step, reply).gsfa_router == c.gsfa_router,
        startup_effect(c, step, reply).shard_routing == c.shard_routing,
        startup_effect(c, step, reply).bucket_moduli == c.bucket_moduli,
{
}

/// A question on the number of buckets of a table.
#[derive(Clone, Copy, Debug, PartialEq, Eq, Structural)]
pub enum ModulusStep {
    Gsfa,
    Signatures,
    TokenOwner,
    Hot,
    GsfaShards,
    SignaturesShards,
    TokenOwnerShards,
    HotShards,
    Finished,
}

/// What is known of the numbers of buckets.
#[derive(Clone, Copy, Debug, PartialEq, Eq, Structural)]
pub struct ModuliDiscovery {
    pub step: ModulusStep,
    pub gsfa: u64,
    pub signatures: u64,
    pub token_owner: Option<u64>,
    pub hot: Option<u64>,
}

/// The last question: the hot address history on the shards.
pub open spec fn modulus_before_hot_shards(c: ClickHouseClient, d: ModuliDiscovery) -> ModulusStep {
    if c.shard_topology is Some && d.hot is Some {
        ModulusStep::HotShards
    } else {
        ModulusStep::Finished
    }
}

/// The question after that on the signatures of the shards.
pub open spec fn modulus_after_signatures_shards(c: ClickHouseClient, d: ModuliDiscovery) -> ModulusStep {
    if direct(c) && c.shard_topology is Some && d.token_owner is Some
        && c.token_owner_activity_local_table is Some {
        ModulusStep::TokenOwnerShards
    } else {
        modulus_before_hot_shards(c, d)
    }
}

/// The question after that on the address history of the shards.
pub open spec fn modulus_after_gsfa_shards(c: ClickHouseClient, d: ModuliDiscovery) -> ModulusStep {
    if direct(c) && c.shard_topology is Some && c.signatures_local_table is Some {
        ModulusStep::SignaturesShards
    } else {
        modulus_after_signatures_shards(c, d)
    }
}

/// The question after those on the distributed tables.
pub open spec fn modulus_after_tables(c: ClickHouseClient, d: ModuliDiscovery) -> ModulusStep {
    if direct(c) && c.shard_topology is Some && c.gsfa_router is Some {
        ModulusStep::GsfaShards
    } else {
        modulus_after_gsfa_shards(c, d)
    }
}

/// The question after that on the token owners.
pub open spec fn modulus_after_token_owner(c: ClickHouseClient, d: ModuliDiscovery) -> ModulusStep {
    if client::hot_routing_configured(c.gsfa_hot_addresses@) {
        ModulusStep::Hot
    } else {
        modulus_after_tables(c, d)
    }
}

/// What is known after a number, up to the next question.
pub open spec fn modulus_known(c: ClickHouseClient, d: ModuliDiscovery, modulus: u64) -> ModuliDiscovery {
    match d.step {
        ModulusStep::Gsfa => ModuliDiscovery { gsfa: modulus, step: ModulusStep::Signatures, ..d },
        ModulusStep::Signatures => {
            let known = ModuliDiscovery { signatures: modulus, ..d };
            ModuliDiscovery {
                step: if c.token_owner_activity_available {
                    ModulusStep::TokenOwner
                } else {
                    modulus_after_token_owner(c, known)
                },
                ..known
            }
        },
        ModulusStep::TokenOwner => {
            let known = ModuliDiscovery { token_owner: Some(modulus), ..d };
            ModuliDiscovery { step: modulus_after_token_owner(c, known), ..known }
        },
        ModulusStep::Hot => {
            let known = ModuliDiscovery { hot: Some(modulus), ..d };
            ModuliDiscovery { step: modulus_after_tables(c, known), ..known }
        },
        ModulusStep::GsfaShards => ModuliDiscovery { step: modulus_after_gsfa_shards(c, d), ..d },
        ModulusStep::SignaturesShards => ModuliDiscovery {
            step: modulus_after_signatures_shards(c, d),
            ..d
        },
        ModulusStep::TokenOwnerShards => ModuliDiscovery {
            step: modulus_before_hot_shards(c, d),
            ..d
        },
        ModulusStep::HotShards | ModulusStep::Finished => ModuliDiscovery {
            step: ModulusStep::Finished,
            ..d
        },
    }
}

/// What a step of the discovery asks: the table, its column with the buckets, and whether it is
/// asked on the shards. There is nothing to ask at the end, nor of a table that the client does not
/// have.
pub open spec fn modulus_question_of(c: ClickHouseClient, step: ModulusStep) -> Option<
    (Seq<char>, BucketColumn, bool),
> {
    match step {
        ModulusStep::Gsfa => Some((c.gsfa_table@, BucketColumn::Address, false)),
        ModulusStep::Signatures => Some(
            (c.signature_statuses_table@, BucketColumn::Signature, false),
        ),
        ModulusStep::TokenOwner => Some((c.token_owner_activity_table@, BucketColumn::Owner, false)),
        ModulusStep::Hot => Some((c.gsfa_hot_table@, BucketColumn::Address, false)),
        ModulusStep::GsfaShards => match c.gsfa_router {
            Some(router) => Some((router.local_table@, BucketColumn::Address, true)),
            None => None,
        },
        ModulusStep::SignaturesShards => match c.signatures_local_table {
            Some(table) => Some((table@, BucketColumn::Signature, true)),
            None => None,
        },
        ModulusStep::TokenOwnerShards => match c.token_owner_activity_local_table {
            Some(table) => Some((table@, BucketColumn::Owner, true)),
            None => None,
        },
        ModulusStep::HotShards => Some((c.gsfa_hot_local_table@, BucketColumn::Address, true)),
        ModulusStep::Finished => None,
    }
}

/// What the shards are held against: the table, its name, its number and the table of the shards.
pub open spec fn expected_on_shards(c: ClickHouseClient, d: ModuliDiscovery) -> Option<
    (Seq<char>, Seq<char>, u64, Seq<char>),
> {
    match d.step {
        ModulusStep::GsfaShards => match c.gsfa_router {
            Some(router) => Some(("gsfa"@, c.gsfa_table@, d.gsfa, router.local_table@)),
            None => None,
        },
        ModulusStep::SignaturesShards => match c.signatures_local_table {
            Some(table) => Some(
                ("signatures"@, c.signature_statuses_table@, d.signatures, table@),
            ),
            None => None,
        },
        ModulusStep::TokenOwnerShards => match (d.token_owner, c.token_owner_activity_local_table) {
            (Some(modulus), Some(table)) => Some(
                ("token_owner_activity"@, c.token_owner_activity_table@, modulus, table@),
            ),
            _ => None,
        },
        ModulusStep::HotShards => match d.hot {
            Some(modulus) => Some(
                ("gsfa_hot"@, c.gsfa_hot_table@, modulus, c.gsfa_hot_local_table@),
            ),
            None => None,
        },
        _ => None,
    }
}

/// What is said of shards that do not agree with the distributed table.
pub open spec fn modulus_mismatch(
    dataset: Seq<char>,
    distributed_table: Seq<char>,
    distributed_modulus: u64,
    local_table: Seq<char>,
    local_modulus: u64,
) -> Seq<char> {
    (dataset + " bucket modulus mismatch: "@ + distributed_table + " uses "@ + text::dec(distributed_modulus as nat) + ", "@ + local_table + " uses "@ + text::dec(local_modulus as nat))
}

/// Holds the number of buckets of the shards against that of the distributed table.
pub fn ensure_matching_bucket_modulus(
    dataset: &str,
    distributed_table: &str,
    distributed_modulus: u64,
    local_table: &str,
    local_modulus: u64,
) -> (r: Result<(), ProcessingError>)
    ensures
        match r {
            Ok(()) => distributed_modulus == local_modulus,
            Err(e) => {
                &&& distributed_modulus != local_modulus
                &&& e is Database
                &&& e.context() == modulus_mismatch(
                    dataset@,
                    distributed_table@,
                    distributed_modulus,
                    local_table@,
                    local_modulus,
                )
            },
        },
{
    if distributed_modulus == local_modulus {
        return Ok(());
    }
    let message = {
        let mut m = dataset.to_owned();
        m.append(" bucket modulus mismatch: ");
        m.append(distributed_table);
        m.append(" uses ");
        m.append(text::dec_string(distributed_modulus as u64).as_str());
        m.append(", ");
        m.append(local_table);
        m.append(" uses ");
        m.append(text::dec_string(local_modulus as u64).as_str());
        m
    };
    Err(ProcessingError::database_msg(message))
}

impl ModuliDiscovery {
    /// What is found is a number of buckets.
    pub open spec fn wf(self) -> bool {
        &&& !(self.step is Gsfa) ==> self.gsfa > 0
        &&& !(self.step is Gsfa || self.step is Signatures) ==> self.signatures > 0
        &&& self.token_owner matches Some(m) ==> m > 0
        &&& self.hot matches Some(m) ==> m > 0
    }

    /// The history table is asked about first. Nothing is known yet: the numbers that every
    /// discovery finds are 0 until then, and the others are absent.
    pub fn start() -> (r: ModuliDiscovery)
        ensures
            r.wf(),
            r.step == ModulusStep::Gsfa,
            r.gsfa == 0 && r.signatures == 0,
            r.token_owner is None && r.hot is None,
    {
        ModuliDiscovery {
            step: ModulusStep::Gsfa,
            gsfa: 0,
            signatures: 0,
            token_owner: None,
            hot: None,
        }
    }

    fn before_hot_shards(&self, c: &ClickHouseClient) -> (r: ModulusStep)
        ensures
            r == modulus_before_hot_shards(*c, *self),
    {
        if c.shard_topology.is_some() && self.hot.is_some() {
            ModulusStep::HotShards
        } else {
            ModulusStep::Finished
        }
    }

    fn after_signatures_shards(&self, c: &ClickHouseClient) -> (r: ModulusStep)
        ensures
            r == modulus_after_signatures_shards(*c, *self),
    {
        if c.scope_shard_direct() && c.shard_topology.is_some() && self.token_owner.is_some()
            && c.token_owner_activity_local_table.is_some() {
            ModulusStep::TokenOwnerShards
        } else {
            self.before_hot_shards(c)
        }
    }

    fn after_gsfa_shards(&self, c: &ClickHouseClient) -> (r: ModulusStep)
        ensures
            r == modulus_after_gsfa_shards(*c, *self),
    {
        if c.scope_shard_direct() && c.shard_topology.is_some()
            && c.signatures_local_table.is_some() {
            ModulusStep::SignaturesShards
        } else {
            self.after_signatures_shards(c)
        }
    }

    fn after_tables(&self, c: &ClickHouseClient) -> (r: ModulusStep)
        ensures
            r == modulus_after_tables(*c, *self),
    {
        if c.scope_shard_direct() && c.shard_topology.is_some() && c.gsfa_router.is_some() {
            ModulusStep::GsfaShards
        } else {
            self.after_gsfa_shards(c)
        }
    }

    fn after_token_owner(&self, c: &ClickHouseClient) -> (r: ModulusStep)
        ensures
            r == modulus_after_token_owner(*c, *self),
    {
        if c.gsfa_hot_routing_configured() {
            ModulusStep::Hot
        } else {
            self.after_tables(c)
        }
    }

    fn known(self, c: &ClickHouseClient, modulus: u64) -> (r: ModuliDiscovery)
        requires
            self.wf(),
            modulus > 0,
        ensures
            r == modulus_known(*c, self, modulus),
            r.wf(),
    {
        let mut d = self;
        match self.step {
            ModulusStep::Gsfa => {
                d.gsfa = modulus;
                d.step = ModulusStep::Signatures;
            },
            ModulusStep::Signatures => {
                d.signatures = modulus;
                d.step = if c.token_owner_activity_available {
                    ModulusStep::TokenOwner
                } else {
                    d.after_token_owner(c)
                };
            },
            ModulusStep::TokenOwner => {
                d.token_owner = Some(modulus);
                d.step = d.after_token_owner(c);
            },
            ModulusStep::Hot => {
                d.hot = Some(modulus);
                d.step = d.after_tables(c);
            },
            ModulusStep::GsfaShards => {
                d.step = d.after_gsfa_shards(c);
            },
            ModulusStep::SignaturesShards => {
                d.step = d.after_signatures_shards(c);
            },
            ModulusStep::TokenOwnerShards => {
                d.step = d.before_hot_shards(c);
            },
            ModulusStep::HotShards | ModulusStep::Finished => {
                d.step = ModulusStep::Finished;
            },
        }
        d
    }

    fn check_shards(&self, c: &ClickHouseClient, modulus: u64) -> (r: Result<(), ProcessingError>)
        ensures
            match expected_on_shards(*c, *self) {
                Some((dataset, table, expected, local_table)) if expected != modulus => {
                    &&& r matches Err(e)
                    &&& e is Database
                    &&& e.context() == modulus_mismatch(
                        dataset,
                        table,
                        expected,
                        local_table,
                        modulus,
                    )
                },
                _ => r is Ok,
            },
    {
        match self.step {
            ModulusStep::GsfaShards => match &c.gsfa_router {
                Some(router) => ensure_matching_bucket_modulus(
                    "gsfa",
                    c.gsfa_table.as_str(),
                    self.gsfa,
                    router.local_table.as_str(),
                    modulus,
                ),
                None => Ok(()),
            },
            ModulusStep::SignaturesShards => match &c.signatures_local_table {
                Some(table) => ensure_matching_bucket_modulus(
                    "signatures",
                    c.signature_statuses_table.as_str(),
                    self.signatures,
                    table.as_str(),
                    modulus,
                ),
                None => Ok(()),
            },
            ModulusStep::TokenOwnerShards => match (
                self.token_owner,
                &c.token_owner_activity_local_table,
            ) {
                (Some(expected), Some(table)) => ensure_matching_bucket_modulus(
                    "token_owner_activity",
                    c.token_owner_activity_table.as_str(),
                    expected,
                    table.as_str(),
                    modulus,
                ),
                _ => Ok(()),
            },
            ModulusStep::HotShards => match self.hot {
                Some(expected) => ensure_matching_bucket_modulus(
                    "gsfa_hot",
                    c.gsfa_hot_table.as_str(),
                    expected,
                    c.gsfa_hot_local_table.as_str(),
                    modulus,
                ),
                None => Ok(()),
            },
            _ => Ok(()),
        }
    }

    /// Takes the reply to a question. Shards have to agree with the distributed table; only the
    /// number of the hot address history may stay unknown.
    pub fn advance(self, c: &ClickHouseClient, reply: Result<u64, ProcessingError>) -> (r: Result<
        ModuliDiscovery,
        ProcessingError,
    >)
        requires
            self.wf(),
            reply matches Ok(modulus) ==> modulus > 0,
        ensures
            match reply {
                Err(e) => if self.step is Hot {
                    r == Ok::<ModuliDiscovery, ProcessingError>(
                        ModuliDiscovery { step: modulus_after_tables(*c, self), ..self },
                    )
                } else {
                    r == Err::<ModuliDiscovery, ProcessingError>(e)
                },
                Ok(modulus) => match expected_on_shards(*c, self) {
                    Some((dataset, table, expected, local_table)) if expected != modulus => {
                        &&& r matches Err(e)
                        &&& e is Database
                        &&& e.context() == modulus_mismatch(
                            dataset,
                            table,
                            expected,
                            local_table,
                            modulus,
                        )
                    },
                    _ => r == Ok::<ModuliDiscovery, ProcessingError>(
                        modulus_known(*c, self, modulus),
                    ),
                },
            },
            r matches Ok(d) ==> d.wf(),
    {
        match reply {
            Err(e) => {
                if self.step == ModulusStep::Hot {
                    let mut d = self;
                    d.step = self.after_tables(c);
                    return Ok(d);
                }
                Err(e)
            },
            Ok(modulus) => {
                if let Err(e) = self.check_shards(c, modulus) {
                    return Err(e);
                }
                Ok(self.known(c, modulus))
            },
        }
    }
}

/// As long as the discovery is not at its end, its next step has something to ask.
pub proof fn law_modulus_steps_ask(c: ClickHouseClient, d: ModuliDiscovery, modulus: u64)
    ensures
        modulus_question_of(c, ModulusStep::Gsfa) is Some,
        modulus_known(c, d, modulus).step is Finished <==> modulus_question_of(
            c,
            modulus_known(c, d, modulus).step,
        ) is None,
        modulus_after_tables(c, d) is Finished <==> modulus_question_of(
            c,
            modulus_after_tables(c, d),
        ) is None,
{
}

impl ClickHouseClient {
    /// What a step of the discovery asks.
    pub fn modulus_question(&self, step: ModulusStep) -> (r: Option<(String, BucketColumn, bool)>)
        ensures
            match modulus_question_of(*self, step) {
                Some((table, column, on_shards)) => r matches Some(q) && q.0@ == table && q.1
                    == column && q.2 == on_shards,
                None => r is None,
            },
    {
        match step {
            ModulusStep::Gsfa => Some((self.gsfa_table.clone(), BucketColumn::Address, false)),
            ModulusStep::Signatures => Some(
                (self.signature_statuses_table.clone(), BucketColumn::Signature, false),
            ),
            ModulusStep::TokenOwner => Some(
                (self.token_owner_activity_table.clone(), BucketColumn::Owner, false),
            ),
            ModulusStep::Hot => Some((self.gsfa_hot_table.clone(), BucketColumn::Address, false)),
            ModulusStep::GsfaShards => match &self.gsfa_router {
                Some(router) => Some((router.local_table.clone(), BucketColumn::Address, true)),
                None => None,
            },
            ModulusStep::SignaturesShards => match &self.signatures_local_table {
                Some(table) => Some((table.clone(), BucketColumn::Signature, true)),
                None => None,
            },
            ModulusStep::TokenOwnerShards => match &self.token_owner_activity_local_table {
                Some(table) => Some((table.clone(), BucketColumn::Owner, true)),
                None => None,
            },
            ModulusStep::HotShards => Some(
                (self.gsfa_hot_local_table.clone(), BucketColumn::Address, true),
            ),
            ModulusStep::Finished => None,
        }
    }

    /// The query for the number of rows of the hot table.
    pub fn hot_table_query(&self) -> (q: String)
        ensures
            q@ == client::table_check_query(
                ClickHouseStartupTableCheck::Count,
                self.gsfa_hot_table@,
            ),
    {
        build_table_check_query(ClickHouseStartupTableCheck::Count, self.gsfa_hot_table.as_str())
    }

    /// The query for the number of rows of an address in the hot table.
    pub fn hot_address_query(&self, pubkey: &[u8; 32]) -> (q: String)
        requires
            self.wf(),
        ensures
            q@ == hot_count_query(
                self.gsfa_hot_table@,
                address_bucket(pubkey@, self.bucket_moduli.gsfa_hot),
                pubkey@,
            ),
    {
        let bucket: u64 = bucket_of_address(pubkey, self.bucket_moduli.gsfa_hot);
        build_hot_count_query(self.gsfa_hot_table.as_str(), bucket, pubkey)
    }

    /// Takes over the numbers of buckets that were found.
    pub fn apply_moduli(&mut self, d: ModuliDiscovery)
        requires
            old(self).wf(),
            d.wf(),
            d.step == ModulusStep::Finished,
        ensures
            final(self).wf(),
            *final(self) == (ClickHouseClient {
                bucket_moduli: client::BucketModuli {
                    gsfa: d.gsfa,
                    signatures: d.signatures,
                    token_owner_activity: match d.token_owner {
                        Some(m) => m,
                        None => old(self).bucket_moduli.token_owner_activity,
                    },
                    gsfa_hot: match d.hot {
                        Some(m) => m,
                        None => old(self).bucket_moduli.gsfa_hot,
                    },
                },
                ..*old(self)
            }),
    {
        self.bucket_moduli.gsfa = d.gsfa;
        self.bucket_moduli.signatures = d.signatures;
        if let Some(m) = d.token_owner {
            self.bucket_moduli.token_owner_activity = m;
        }
        if let Some(m) = d.hot {
            self.bucket_moduli.gsfa_hot = m;
        }
    }

    /// Takes over the addresses with a history of their own: of those that are configured, the ones
    /// that the hot table has rows of, by their counts. An empty or unreadable table has none.
    pub fn apply_hot_addresses(
        &mut self,
        candidates: &Vec<[u8; 32]>,
        table_rows: Option<u64>,
        counts: &Vec<Option<u64>>,
    )
        requires
            candidates@.len() == counts@.len(),
        ensures
            *final(self) == (ClickHouseClient {
                gsfa_hot_pubkeys: final(self).gsfa_hot_pubkeys,
                ..*old(self)
            }),
            lists::keys(final(self).gsfa_hot_pubkeys@).no_duplicates(),
            forall|key: Seq<u8>| #[trigger]
                final(self).is_hot(key) <==> (table_rows matches Some(rows) && rows > 0 && exists|
                    i: int,
                |
                    0 <= i < candidates@.len() && (#[trigger] candidates@[i])@ == key && (
                    counts@[i] matches Some(n) && n > 0)),
    {
        let readable = match table_rows {
            Some(rows) => rows > 0,
            None => false,
        };
        let mut active: Vec<[u8; 32]> = Vec::new();
        let mut i: usize = 0;
        while readable && i < candidates.len()
            invariant
                i <= candidates.len(),
                !readable ==> i == 0,
                candidates@.len() == counts@.len(),
                lists::keys(active@).no_duplicates(),
                forall|key: Seq<u8>| #[trigger]
                    lists::keys(active@).contains(key) <==> exists|k: int|
                        0 <= k < i && (#[trigger] candidates@[k])@ == key && (counts@[k] matches Some(
                            n,
                        ) && n > 0),
            decreases candidates.len() - i,
        {
            let used = match counts[i] {
                Some(n) => n > 0,
                None => false,
            };
            let ghost before = active@;
            let key = candidates[i];
            let known = lists::position_of_key(&active, &key);
            if used && known.is_none() {
                active.push(key);
                proof {
                    assert(lists::keys(active@) =~= lists::keys(before).push(key@));
                }
            }
            proof {
                if let Some(p) = known {
                    assert(lists::keys(before)[p as int] == key@);
                }
                assert forall|other: Seq<u8>| #[trigger]
                    lists::keys(active@).contains(other) <==> exists|k: int|
                        0 <= k < i + 1 && (#[trigger] candidates@[k])@ == other && (
                        counts@[k] matches Some(n) && n > 0) by {
                    let a = lists::keys(active@);
                    let b = lists::keys(before);
                    if a.contains(other) {
                        let m = choose|m: int| 0 <= m < a.len() && a[m] == other;
                        if m < b.len() {
                            assert(b[m] == other);
                            assert(b.contains(other));
                        } else {
                            assert(candidates@[i as int]@ == other);
                        }
                    }
                    if exists|k: int|
                        0 <= k < i + 1 && (#[trigger] candidates@[k])@ == other && (
                        counts@[k] matches Some(n) && n > 0) {
                        let k = choose|k: int|
                            0 <= k < i + 1 && (#[trigger] candidates@[k])@ == other && (
                            counts@[k] matches Some(n) && n > 0);
                        if k < i {
                            assert(b.contains(other));
                        }
                        if b.contains(other) {
                            let m = choose|m: int| 0 <= m < b.len() && b[m] == other;
                            assert(a[m] == other);
                        } else {
                            assert(a[b.len() as int] == other);
                        }
                    }
                }
            }
            i += 1;
        }
        self.gsfa_hot_pubkeys = active;
    }
}

/// The query for the number of rows of an address in the hot table.
pub open spec fn hot_count_query(table: Seq<char>, bucket: u64, pubkey: Seq<u8>) -> Seq<char> {
    ("SELECT COUNT(*) FROM "@ + table + " PREWHERE addr_bucket = "@ + text::dec(bucket as nat) + " AND address = toFixedString(unhex('"@ + text::hex_upper(pubkey) + "'), 32)"@)
}

/// Builds the query for the number of rows of an address in the hot table.
pub fn build_hot_count_query(table: &str, bucket: u64, pubkey: &[u8; 32]) -> (q: String)
    ensures
        q@ == hot_count_query(table@, bucket, pubkey@),
{
    let mut m = "SELECT COUNT(*) FROM ".to_owned();
    m.append(table);
    m.append(" PREWHERE addr_bucket = ");
    m.append(text::dec_string(bucket as u64).as_str());
    m.append(" AND address = toFixedString(unhex('");
    m.append(text::hex_upper_string(pubkey.as_slice()).as_str());
    m.append("'), 32)");
    m
}

/// The bucket of an address.
pub open spec fn address_bucket(pubkey: Seq<u8>, modulus: u64) -> u64 {
    (hashing::cityhash(pubkey) as int % modulus as int) as u64
}

/// The bucket of an address.
pub fn bucket_of_address(pubkey: &[u8; 32], modulus: u64) -> (r: u64)
    requires
        modulus > 0,
    ensures
        r == address_bucket(pubkey@, modulus),
        r < modulus,
{
    hashing::city_hash(pubkey.as_slice()) % modulus
}

/// What is known of the number of buckets of a table on the shards.
#[derive(Debug)]
pub struct ShardModulus {
    pub discovered: Option<u64>,
}

impl ShardModulus {
    /// No shard was asked yet.
    pub fn unknown() -> (r: ShardModulus)
        ensures
            r.discovered is None,
    {
        ShardModulus { discovered: None }
    }

    /// Takes the number of a shard, which has to be that of the shards before it.
    pub fn observe(&mut self, shard_num: u32, host: &str, port: u16, table: &str, modulus: u64) -> (r:
        Result<(), ProcessingError>)
        ensures
            match old(self).discovered {
                Some(previous) if previous != modulus => {
                    &&& *final(self) == *old(self)
                    &&& r matches Err(e)
                    &&& e is Database
                    &&& e.context() == ("Shard "@ + text::dec(shard_num as nat) + " "@ + host@ + ":"@ + text::dec(port as nat) + " table "@ + table@ + " modulus "@ + text::dec(modulus as nat) + " does not match previously discovered modulus "@ + text::dec(previous as nat))
                },
                _ => r is Ok && final(self).discovered == Some(modulus),
            },
    {
        if let Some(previous) = self.discovered {
            if previous != modulus {
                let message = {
                    let mut m = "Shard ".to_owned();
                    m.append(text::dec_string(shard_num as u64).as_str());
                    m.append(" ");
                    m.append(host);
                    m.append(":");
                    m.append(text::dec_string(port as u64).as_str());
                    m.append(" table ");
                    m.append(table);
                    m.append(" modulus ");
                    m.append(text::dec_string(modulus as u64).as_str());
                    m.append(" does not match previously discovered modulus ");
                    m.append(text::dec_string(previous as u64).as_str());
                    m
                };
                return Err(ProcessingError::database_msg(message));
            }
        }
        self.discovered = Some(modulus);
        Ok(())
    }

    /// The number of all shards; there has to be one.
    pub fn finish(self, table: &str) -> (r: Result<u64, ProcessingError>)
        ensures
            match self.discovered {
                Some(modulus) => r == Ok::<u64, ProcessingError>(modulus),
                None => {
                    &&& r matches Err(e)
                    &&& e is Database
                    &&& e.context() == ("No shards available to discover bucket modulus for "@ + table@)
                },
            },
    {
        match self.discovered {
            Some(modulus) => Ok(modulus),
            None => {
                let message = {
                    let mut m = "No shards available to discover bucket modulus for ".to_owned();
                    m.append(table);
                    m
                };
                Err(ProcessingError::database_msg(message))
            },
        }
    }
}

/// Checks that a table was described at all.
pub fn described(rows: Vec<DescribeTableRow>, table: &str) -> (r: Result<
    Vec<DescribeTableRow>,
    ProcessingError,
>)
    ensures
        if rows@.len() == 0 {
            &&& r matches Err(e)
            &&& e is Database
            &&& e.context() == ("table "@ + table@ + " returned no columns from system.columns"@)
        } else {
            r == Ok::<Vec<DescribeTableRow>, ProcessingError>(rows)
        },
{
    if rows.len() == 0 {
        let message = {
            let mut m = "table ".to_owned();
            m.append(table);
            m.append(" returned no columns from system.columns");
            m
        };
        return Err(ProcessingError::database_msg(message));
    }
    Ok(rows)
}

/// How a table is defined, as the database returns it.
#[derive(Debug)]
pub struct TableDefinitionRow {
    pub engine: String,
    pub create_table_query: String,
}

/// The reply to the question how a table is defined: by the first row, or that there is none.
pub fn definition_reply(rows: Vec<TableDefinitionRow>, table: &str) -> (r: StartupReply)
    ensures
        if rows@.len() == 0 {
            &&& r matches StartupReply::Failed(e)
            &&& e is Database
            &&& e.context() == ("table "@ + table@ + " returned no definition from system.tables"@)
        } else {
            r == (StartupReply::Definition {
                engine: rows@[0].engine,
                create_table_query: rows@[0].create_table_query,
            })
        },
        answers(StartupStep::CheckGsfaLayout, r),
{
    if rows.len() == 0 {
        let message = {
            let mut m = "table ".to_owned();
            m.append(table);
            m.append(" returned no definition from system.tables");
            m
        };
        return StartupReply::Failed(ProcessingError::database_msg(message));
    }
    let mut rows = rows;
    let first = rows.remove(0);
    StartupReply::Definition { engine: first.engine, create_table_query: first.create_table_query }
}

/// Every table is checked, one after the other, before anything else is asked.
pub proof fn law_every_table_is_checked(c: ClickHouseClient, table: StartupTable)
    ensures
        step_after_table(c, StartupTable::Gsfa) == Ok::<StartupStep, Seq<char>>(
            StartupStep::CheckTable(StartupTable::Signatures),
        ),
        step_after_table(c, StartupTable::Signatures) == Ok::<StartupStep, Seq<char>>(
            StartupStep::CheckTable(StartupTable::TokenOwnerActivity),
        ),
        step_after_table(c, StartupTable::TokenOwnerActivity) == Ok::<StartupStep, Seq<char>>(
            StartupStep::CheckTable(StartupTable::BlocksMetadata),
        ),
        step_after_table(c, StartupTable::BlocksMetadata) == Ok::<StartupStep, Seq<char>>(
            StartupStep::CheckTable(StartupTable::Transactions),
        ),
        !(step_after_table(c, StartupTable::Transactions) matches Ok(next) && next is CheckTable),
        step_after_table(c, table) is Err ==> table is Transactions,
{
}

/// Queries go to the shards themselves only where shard routing is configured; without any, the shards
/// are not asked for at all.
pub proof fn law_shards_need_routing(c: ClickHouseClient)
    ensures
        step_after_readonly(c) is Err <==> c.routing_policy.scope is ShardDirect && c.shard_routing is None,
        step_after_readonly(c) == Ok::<StartupStep, Seq<char>>(StartupStep::BuildTopology)
            <==> c.shard_routing is Some,
        c.allow_query_settings ==> step_after_tables(c) == Ok::<StartupStep, Seq<char>>(
            StartupStep::DetectReadonly,
        ),
        !c.allow_query_settings ==> step_after_tables(c) == step_after_readonly(c),
{
}

/// Once the shards can be reached, each of their tables that is configured is validated, and no other.
/// Where queries do not go to the shards themselves, only the hot address history is.
pub proof fn law_configured_tables_are_validated(c: ClickHouseClient)
    ensures
        ({
            let direct_scope = c.routing_policy.scope is ShardDirect;
            let gsfa = c.shard_routing matches Some(r) && r.gsfa_local_table is Some;
            let signatures = c.shard_routing matches Some(r) && r.signatures_local_table is Some;
            let owners = c.shard_routing matches Some(r) && r.token_owner_activity_local_table is Some;
            let hot = client::hot_routing_configured(c.gsfa_hot_addresses@);
            &&& step_after_access(c) is ValidateGsfaLocal <==> direct_scope && gsfa
            &&& step_after_gsfa(c) is ValidateSignaturesLocal <==> signatures
            &&& step_after_signatures(c) is ValidateTokenOwnerLocal <==> owners
            &&& step_after_token_owner(c) is ValidateHotLocal <==> hot
            &&& step_after_token_owner(c) is DiscoverModuli <==> !hot
            &&& !signatures ==> step_after_gsfa(c) == step_after_signatures(c)
            &&& !owners ==> step_after_signatures(c) == step_after_token_owner(c)
            &&& direct_scope && !gsfa ==> step_after_access(c) == step_after_gsfa(c)
            &&& !direct_scope ==> step_after_access(c) == step_after_token_owner(c)
        }),
{
}

/// The bucket of an address is the remainder of its hash, and so one of the buckets that there are.
pub proof fn law_bucket_is_the_remainder_of_the_hash(pubkey: Seq<u8>, modulus: u64)
    requires
        modulus > 0,
    ensures
        address_bucket(pubkey, modulus) < modulus,
        (hashing::cityhash(pubkey) - address_bucket(pubkey, modulus)) % modulus as int == 0,
{
    let h = hashing::cityhash(pubkey) as int;
    let m = modulus as int;
    vstd::arithmetic::div_mod::lemma_fundamental_div_mod(h, m);
    vstd::arithmetic::div_mod::lemma_mod_multiples_basic(h / m, m);
    assert(h - h % m == h / m * m) by (nonlinear_arith)
        requires
            h == m * (h / m) + h % m,
    ;
}

/// Shards are held against the distributed table of the same data, and against its own number of
/// buckets.
pub proof fn law_shards_are_held_against_their_table(c: ClickHouseClient, d: ModuliDiscovery)
    ensures
        expected_on_shards(c, d) matches Some((dataset, table, modulus, local)) ==> {
            &&& d.step is GsfaShards ==> table == c.gsfa_table@ && modulus == d.gsfa
            &&& d.step is SignaturesShards ==> table == c.signature_statuses_table@ && modulus
                == d.signatures
            &&& d.step is TokenOwnerShards ==> table == c.token_owner_activity_table@ && d.token_owner
                == Some(modulus)
            &&& d.step is HotShards ==> table == c.gsfa_hot_table@ && d.hot == Some(modulus) && local
                == c.gsfa_hot_local_table@
            &&& d.step is GsfaShards || d.step is SignaturesShards || d.step is TokenOwnerShards
                || d.step is HotShards
        },
{
}

/// A number of buckets is remembered for the table that was asked for, and what was known before stays.
pub proof fn law_modulus_is_remembered_for_its_table(
    c: ClickHouseClient,
    d: ModuliDiscovery,
    modulus: u64,
)
    ensures
        ({
            let known = modulus_known(c, d, modulus);
            &&& known.gsfa == (if d.step is Gsfa {
                modulus
            } else {
                d.gsfa
            })
            &&& known.signatures == (if d.step is Signatures {
                modulus
            } else {
                d.signatures
            })
            &&& known.token_owner == (if d.step is TokenOwner {
                Some(modulus)
            } else {
                d.token_owner
            })
            &&& known.hot == (if d.step is Hot {
                Some(modulus)
            } else {
                d.hot
            })
            &&& known.step != d.step || d.step is Finished
        }),
{
}

/// Each table is asked for by its own bucket column, and a table of shards on the shards.
pub proof fn law_moduli_are_asked_for_by_their_columns(c: ClickHouseClient, step: ModulusStep)
    ensures
        modulus_question_of(c, step) matches Some((table, column, on_shards)) ==> {
            &&& on_shards <==> step is GsfaShards || step is SignaturesShards || step is TokenOwnerShards
                || step is HotShards
            &&& column is Address <==> step is Gsfa || step is Hot || step is GsfaShards
                || step is HotShards
            &&& column is Signature <==> step is Signatures || step is SignaturesShards
            &&& column is Owner <==> step is TokenOwner || step is TokenOwnerShards
            &&& step is Gsfa ==> table == c.gsfa_table@
            &&& step is Signatures ==> table == c.signature_statuses_table@
            &&& step is TokenOwner ==> table == c.token_owner_activity_table@
            &&& step is Hot ==> table == c.gsfa_hot_table@
            &&& step is HotShards ==> table == c.gsfa_hot_local_table@
            &&& step is GsfaShards ==> (c.gsfa_router matches Some(router) && table == router.local_table@)
            &&& step is SignaturesShards ==> (c.signatures_local_table matches Some(t) && table == t@)
            &&& step is TokenOwnerShards ==> (c.token_owner_activity_local_table matches Some(t) && table
                == t@)
        },
{
}

/// Shards are asked for the numbers of their buckets only where they are known, and, but for the hot
/// address history, only where queries go to them.
pub proof fn law_moduli_of_shards_need_shards(c: ClickHouseClient, d: ModuliDiscovery)
    ensures
        ({
            let direct_scope = c.routing_policy.scope is ShardDirect && c.shard_topology is Some;
            &&& modulus_after_tables(c, d) is GsfaShards <==> direct_scope && c.gsfa_router is Some
            &&& modulus_after_gsfa_shards(c, d) is SignaturesShards <==> direct_scope
                && c.signatures_local_table is Some
            &&& modulus_after_signatures_shards(c, d) is TokenOwnerShards <==> direct_scope
                && d.token_owner is Some && c.token_owner_activity_local_table is Some
            &&& modulus_before_hot_shards(c, d) is HotShards <==> c.shard_topology is Some && d.hot is Some
            &&& modulus_after_token_owner(c, d) is Hot <==> client::hot_routing_configured(
                c.gsfa_hot_addresses@,
            )
        }),
{
}

/// The activity of token owners counts as available exactly where its table can be read, settings are no
/// longer sent where the server only reads, and a table of shards that does not fit is given up.
pub proof fn law_replies_are_taken_over(
    c: ClickHouseClient,
    reply: StartupReply,
    mode: u8,
    t: ShardTopology,
)
    ensures
        startup_effect(
            c,
            StartupStep::CheckTable(StartupTable::TokenOwnerActivity),
            reply,
        ).token_owner_activity_available <==> reply is Confirmed,
        startup_effect(c, StartupStep::DetectReadonly, StartupReply::Readonly(mode)).allow_query_settings
            <==> c.allow_query_settings && mode == 0,
        reply is Failed ==> startup_effect(
            c,
            StartupStep::ValidateSignaturesLocal,
            reply,
        ).signatures_local_table is None,
        reply is Failed ==> startup_effect(
            c,
            StartupStep::ValidateTokenOwnerLocal,
            reply,
        ).token_owner_activity_local_table is None,
        c.routing_policy.transport is Tcp ==> startup_effect(
            c,
            StartupStep::BuildTopology,
            StartupReply::Topology(t),
        ).found_topology == Some(t),
        !(c.routing_policy.transport is Tcp) ==> startup_effect(
            c,
            StartupStep::BuildTopology,
            StartupReply::Topology(t),
        ).shard_topology == Some(t),
        startup_effect(c, StartupStep::CheckTcpAccess, StartupReply::Confirmed).shard_topology
            == c.found_topology,
{
}

/// The service does not start without its tables, but for the activity of token owners; nor without the
/// shards where something needs them; nor without the hot address history where it is configured.
pub proof fn law_service_needs_its_tables(
    c: ClickHouseClient,
    table: StartupTable,
    e: ProcessingError,
)
    ensures
        startup_verdict(c, StartupStep::CheckTable(table), StartupReply::QueryFailed) is Next ==> table
            is TokenOwnerActivity,
        startup_verdict(c, StartupStep::CheckTable(table), StartupReply::Failed(e)) is Next ==> table
            is TokenOwnerActivity,
        !(table is TokenOwnerActivity) ==> startup_verdict(
            c,
            StartupStep::CheckTable(table),
            StartupReply::Failed(e),
        ) == StartupVerdict::Passed(e),
        startup_verdict(
            c,
            StartupStep::CheckTable(StartupTable::TokenOwnerActivity),
            StartupReply::QueryFailed,
        ) is Next,
        startup_verdict(c, StartupStep::BuildTopology, StartupReply::Failed(e)) is Next <==> !(
        c.routing_policy.scope is ShardDirect) && !client::hot_routing_configured(c.gsfa_hot_addresses@)
            && !(c.shard_routing matches Some(r) && r.topology_config_path is Some),
        startup_verdict(c, StartupStep::CheckTcpAccess, StartupReply::Failed(e))
            == StartupVerdict::Passed(e),
        startup_verdict(c, StartupStep::ValidateHotLocal, StartupReply::Failed(e)) is Database,
        startup_verdict(c, StartupStep::ValidateGsfaLocal, StartupReply::Confirmed)
            == StartupVerdict::Next(StartupStep::CheckGsfaLayout),
        startup_verdict(c, StartupStep::ValidateSignaturesLocal, StartupReply::Failed(e)) is Next,
        startup_verdict(c, StartupStep::ValidateTokenOwnerLocal, StartupReply::Failed(e)) is Next,
{
}

/// Each table is checked by its own name.
pub proof fn law_tables_are_checked_by_name(c: ClickHouseClient)
    ensures
        startup_table(c, StartupTable::Gsfa) == c.gsfa_table@,
        startup_table(c, StartupTable::Signatures) == c.signature_statuses_table@,
        startup_table(c, StartupTable::TokenOwnerActivity) == c.token_owner_activity_table@,
        startup_table(c, StartupTable::BlocksMetadata) == c.blocks_metadata_table@,
        startup_table(c, StartupTable::Transactions) == c.transaction_table@,
{
}

/// The rows of a hot address are counted by its bucket and the address.
pub proof fn law_hot_rows_are_counted_by_address(table: Seq<char>, bucket: u64, pubkey: Seq<u8>)
    ensures
        sql::reads_as(hot_count_query(table, bucket, pubkey), seq![
            "SELECT"@,
            "COUNT(*)"@,
            "FROM"@,
            table,
            "PREWHERE"@,
            "addr_bucket = "@ + text::dec(bucket as nat),
            "AND"@,
            "address = toFixedString(unhex('"@ + text::hex_upper(pubkey) + "'), 32)"@,
        ]),
{
    let words = sql::first("SELECT"@);
    let words = sql::next(words, -1, "COUNT(*)"@);
    let words = sql::next(words, -1, "FROM"@);
    let words = sql::next(words, -1, table);
    let words = sql::next(words, -1, "PREWHERE"@);
    let words = sql::next(words, -1, "addr_bucket = "@ + text::dec(bucket as nat));
    let words = sql::next(words, -1, "AND"@);
    let words = sql::next(words, -1, "address = toFixedString(unhex('"@ + text::hex_upper(pubkey) + "'), 32)"@);
    assert(sql::reads_as(hot_count_query(table, bucket, pubkey), words.1)) by {
        assert("SELECT COUNT(*) FROM "@ == "SELECT"@ + sql::gap(-1) + "COUNT(*)"@ + sql::gap(-1) + "FROM"@ + sql::gap(-1)) by {
            reveal_strlit("SELECT COUNT(*) FROM ");
            reveal_strlit("SELECT");
            reveal_strlit("COUNT(*)");
            reveal_strlit("FROM");
        }
        assert(" PREWHERE addr_bucket = "@ == sql::gap(-1) + "PREWHERE"@ + sql::gap(-1) + "addr_bucket = "@) by {
            reveal_strlit(" PREWHERE addr_bucket = ");
            reveal_strlit("PREWHERE");
            reveal_strlit("addr_bucket = ");
        }
        assert(" AND address = toFixedString(unhex('"@ == sql::gap(-1) + "AND"@ + sql::gap(-1) + "address = toFixedString(unhex('"@) by {
            reveal_strlit(" AND address = toFixedString(unhex('");
            reveal_strlit("AND");
            reveal_strlit("address = toFixedString(unhex('");
        }
        broadcast use sql::lemma_joined_first;

        sql::lemma_same_text(hot_count_query(table, bucket, pubkey), words);
    }
    assert(words.1 =~= seq![
        "SELECT"@,
        "COUNT(*)"@,
        "FROM"@,
        table,
        "PREWHERE"@,
        "addr_bucket = "@ + text::dec(bucket as nat),
        "AND"@,
        "address = toFixedString(unhex('"@ + text::hex_upper(pubkey) + "'), 32)"@,
    ]);
}

} // verus!
