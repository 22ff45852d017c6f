//! Reads that were abandoned, and the probes that watch them.
use std::sync::Arc;

use superbank::clickhouse::disconnect::{
    cluster_name, discovery_sql, execution_limit_secs, macro_sql, probe_batches, probe_settings,
    probe_sql, quoted, resolve_cluster, table, validate_observation, validate_topology,
    ClusterName, DiscoveryRow, DisconnectGuard, DisconnectState, InitializationBackoff,
    PendingRead, ProbeRow, VerificationTimeouts,
};
use superbank::processing::ProcessingError;
use superbank::time::Duration;
use tokio::sync::{OwnedSemaphorePermit, Semaphore};

fn pending(
    state: &mut DisconnectState<OwnedSemaphorePermit>,
    semaphore: &Arc<Semaphore>,
    id: &str,
    now: Duration,
) {
    state.insert(PendingRead {
        query_id: id.to_string(),
        permit: semaphore.clone().try_acquire_owned().unwrap(),
        abandoned_at: now,
        quiet_observations: 0,
        unconfirmed: false,
    });
}

fn message<T>(result: Result<T, ProcessingError>) -> String {
    match result {
        Ok(_) => panic!("an error was expected"),
        Err(error) => error.message(),
    }
}

#[test]
fn discovery_rejects_missing_ambiguous_or_outside_coordinator() {
    let row = |node: &str, expected, coordinator| DiscoveryRow {
        node: node.into(),
        expected,
        coordinator,
    };
    assert!(validate_topology(&vec![row("a", 0, 0), row("a", 1, 1)], true).is_ok());
    assert!(validate_topology(&vec![row("a", 0, 0), row("a", 2, 1)], true).is_err());
    assert!(
        validate_topology(&vec![row("a", 0, 0), row("a", 0, 0), row("a", 2, 1)], true).is_err()
    );
    assert!(validate_topology(&vec![row("a", 0, 0), row("gateway", 1, 1)], true).is_err());
    assert!(validate_topology(&Vec::new(), true).is_err());
}

#[test]
fn each_wrong_discovery_has_its_message() {
    let row = |node: &str, expected, coordinator| DiscoveryRow {
        node: node.into(),
        expected,
        coordinator,
    };
    assert_eq!(
        message(validate_topology(&vec![row("a", 1, 1), row("a", 1, 1)], true)),
        "duplicate verification coordinator"
    );
    assert_eq!(
        message(validate_topology(&vec![row("a", 0, 0), row("a", 0, 0)], true)),
        "ambiguous verification replica identity"
    );
    assert_eq!(
        message(validate_topology(&vec![row("", 0, 0)], true)),
        "ambiguous verification replica identity"
    );
    assert_eq!(
        message(validate_topology(&Vec::new(), true)),
        "incomplete primary disconnect verification topology"
    );
    assert_eq!(
        validate_topology(&vec![row("only", 1, 1)], false).unwrap(),
        vec!["only".to_string()]
    );
}

#[test]
fn probes_require_complete_sentinels_and_track_initial_ids() {
    let expected = vec!["a".to_string(), "b".to_string()];
    let row = |node: &str, id: &str| ProbeRow {
        node: node.into(),
        active_id: id.into(),
    };
    assert!(validate_observation(&vec![row("a", ""), row("b", "q")], &expected).is_err());
    assert!(validate_observation(&vec![row("a", ""), row("new", "")], &expected).is_err());
    let active =
        validate_observation(&vec![row("a", ""), row("b", ""), row("b", "q")], &expected).unwrap();
    assert_eq!(active, vec!["q".to_string()]);
    let sql = probe_sql(Some("rbx2"), &["q".into()]);
    assert!(sql.contains("initial_query_id"));
    assert!(!sql.contains("KILL"));
    assert_eq!(quoted("a'\\b"), "'a\\'\\\\b'");
}

#[test]
fn each_wrong_observation_has_its_message() {
    let expected = vec!["a".to_string(), "b".to_string()];
    let row = |node: &str, id: &str| ProbeRow {
        node: node.into(),
        active_id: id.into(),
    };
    assert_eq!(
        message(validate_observation(&vec![row("new", "")], &expected)),
        "primary verification topology changed"
    );
    assert_eq!(
        message(validate_observation(&vec![row("a", "")], &expected)),
        "incomplete primary verification coverage"
    );
    let active = validate_observation(
        &vec![row("a", ""), row("b", ""), row("a", "q"), row("b", "q"), row("b", "p")],
        &expected,
    )
    .unwrap();
    assert_eq!(active, vec!["q".to_string(), "p".to_string()]);
}

#[test]
fn errors_and_active_work_reset_quiet_new_ids_do_not_inherit_observations() {
    let now = Duration::from_secs(100);
    let mut state = DisconnectState::new();
    let semaphore = Arc::new(Semaphore::new(2));
    pending(&mut state, &semaphore, "old", now);
    let old = vec!["old".to_string()];
    let quiet = Some(Vec::new());
    state.apply_observation(&old, &quiet, now);
    state.apply_observation(&old, &None, now);
    state.apply_observation(&old, &quiet, now);
    assert_eq!(semaphore.available_permits(), 1);
    state.apply_observation(&old, &Some(vec!["old".to_string()]), now);
    state.apply_observation(&old, &quiet, now);
    pending(&mut state, &semaphore, "new", now);
    state.apply_observation(&old, &quiet, now);
    assert_eq!(semaphore.available_permits(), 1);
    let new = vec!["new".to_string()];
    state.apply_observation(&new, &quiet, now);
    assert_eq!(semaphore.available_permits(), 1);
    state.apply_observation(&new, &quiet, now);
    assert_eq!(semaphore.available_permits(), 2);
}

#[test]
fn a_read_is_released_at_the_second_quiet_probe_of_it_in_a_row() {
    let now = Duration::from_secs(100);
    let mut state = DisconnectState::new();
    let semaphore = Arc::new(Semaphore::new(2));
    pending(&mut state, &semaphore, "q", now);
    let q = vec!["q".to_string()];
    let other = vec!["other".to_string()];
    let quiet = Some(Vec::new());
    let seen = Some(q.clone());
    for (ids, active, kept) in [
        (&q, &quiet, true),
        (&other, &seen, true),
        (&q, &seen, true),
        (&q, &quiet, true),
        (&q, &None, true),
        (&q, &quiet, true),
        (&other, &None, true),
        (&q, &quiet, false),
        (&q, &quiet, false),
    ] {
        state.apply_observation(ids, active, now);
        assert_eq!(!state.pending.is_empty(), kept);
    }
}

#[test]
fn unconfirmed_work_retains_admission_until_recovery() {
    let now = Duration::from_secs(100);
    let mut state = DisconnectState::new();
    let semaphore = Arc::new(Semaphore::new(1));
    pending(&mut state, &semaphore, "q", Duration::from_secs(94));
    let ids = vec!["q".to_string()];
    assert_eq!(
        state.apply_observation(&ids, &None, now),
        Duration::from_secs(1)
    );
    assert_eq!(semaphore.available_permits(), 0);
    assert!(state.pending[0].unconfirmed);
    state.apply_observation(&ids, &Some(Vec::new()), now);
    assert_eq!(semaphore.available_permits(), 0);
    state.apply_observation(&ids, &Some(Vec::new()), now);
    assert_eq!(semaphore.available_permits(), 1);
}

#[test]
fn missing_runtime_retains_admission_until_owner_shutdown() {
    let mut state = DisconnectState::new();
    let semaphore = Arc::new(Semaphore::new(1));
    let guard = DisconnectGuard {
        query_id: "q".into(),
        permit: Some(semaphore.clone().try_acquire_owned().unwrap()),
        submitted: true,
    };
    guard.abandon(&mut state, Duration::from_secs(1));
    assert_eq!(semaphore.available_permits(), 0);
    drop(state);
    assert_eq!(semaphore.available_permits(), 1);
}

#[test]
fn successful_guard_releases_without_probe() {
    let mut state = DisconnectState::new();
    let semaphore = Arc::new(Semaphore::new(1));
    let mut guard = DisconnectGuard {
        query_id: "q".into(),
        permit: Some(semaphore.clone().try_acquire_owned().unwrap()),
        submitted: true,
    };
    guard.disarm();
    guard.abandon(&mut state, Duration::from_secs(1));
    assert_eq!(semaphore.available_permits(), 1);
    assert!(state.pending.is_empty());
}

#[test]
fn an_unsubmitted_read_is_not_watched() {
    let mut state = DisconnectState::new();
    let guard = DisconnectGuard::arm_ready(true, "q".to_string(), 7u32).unwrap();
    guard.abandon(&mut state, Duration::from_secs(1));
    assert!(state.pending.is_empty());
    assert_eq!(
        message(DisconnectGuard::arm_ready(false, "q".to_string(), 7u32)),
        "ClickHouse read cancellation is not initialized"
    );
}

#[test]
fn a_submitted_read_is_watched_under_its_name() {
    let mut state = DisconnectState::new();
    for id in ["b", "a", "c"] {
        let mut guard = DisconnectGuard::arm_ready(true, id.to_string(), 7u32).unwrap();
        guard.submitted();
        guard.abandon(&mut state, Duration::from_secs(1));
    }
    assert_eq!(
        state.pending_ids(),
        vec!["a".to_string(), "b".to_string(), "c".to_string()]
    );
}

#[test]
fn probes_are_less_frequent_once_every_read_was_reported() {
    let mut state = DisconnectState::new();
    assert_eq!(state.next_probe_after(), Duration::from_secs(1));
    let mut guard = DisconnectGuard::arm_ready(true, "q".to_string(), 7u32).unwrap();
    guard.submitted();
    guard.abandon(&mut state, Duration::from_secs(10));
    assert_eq!(state.next_probe_after(), Duration::from_millis(250));
    let ids = vec!["q".to_string()];
    assert_eq!(
        state.apply_observation(&ids, &None, Duration::from_millis(14_999)),
        Duration::from_millis(250)
    );
    assert_eq!(
        state.apply_observation(&ids, &None, Duration::from_secs(15)),
        Duration::from_secs(1)
    );
}

#[test]
fn cluster_macros_are_resolved_before_topology_lookup() {
    assert_eq!(
        macro_sql("prefix-{cluster}-{zone}").unwrap(),
        "SELECT concat('prefix-', getMacro('cluster'), '-', getMacro('zone'), '') AS cluster FROM system.one"
    );
    assert!(macro_sql("{unclosed").is_err());
    assert!(macro_sql("{}").is_err());
    assert!(macro_sql("{{nested}").is_err());
}

#[test]
fn each_wrong_macro_has_its_message() {
    assert_eq!(message(macro_sql("{unclosed")), "unclosed ClickHouse cluster macro");
    assert_eq!(message(macro_sql("a{}")), "invalid ClickHouse cluster macro");
    assert_eq!(message(macro_sql("{{nested}")), "invalid ClickHouse cluster macro");
}

#[test]
fn cluster_names_without_macros_are_taken_as_they_are() {
    assert!(matches!(cluster_name(None), Ok(ClusterName::Absent)));
    match cluster_name(Some("rbx2")) {
        Ok(ClusterName::Literal(name)) => assert_eq!(name, "rbx2"),
        _ => panic!("a name was expected"),
    }
    match cluster_name(Some("{cluster}")) {
        Ok(ClusterName::Resolve(sql)) => assert_eq!(
            sql,
            "SELECT concat('', getMacro('cluster'), '') AS cluster FROM system.one"
        ),
        _ => panic!("a query was expected"),
    }
    assert!(cluster_name(Some("{")).is_err());
}

#[test]
fn a_resolved_cluster_is_one_name() {
    assert_eq!(resolve_cluster(vec!["c1".to_string()]).unwrap(), "c1");
    assert_eq!(
        message(resolve_cluster(Vec::new())),
        "empty ClickHouse cluster macro resolution"
    );
    assert_eq!(
        message(resolve_cluster(vec![String::new(), "c".to_string()])),
        "empty ClickHouse cluster macro resolution"
    );
    assert_eq!(
        message(resolve_cluster(vec!["a".to_string(), "b".to_string()])),
        "ambiguous ClickHouse cluster macro resolution"
    );
}

#[test]
fn system_tables_are_read_on_all_replicas_of_a_cluster() {
    assert_eq!(table(None, "one"), "system.one");
    assert_eq!(
        table(Some("it's"), "processes"),
        "clusterAllReplicas('it\\'s', system.processes)"
    );
    assert_eq!(
        discovery_sql(None),
        "SELECT hostName() AS node, toUInt64(1) AS expected, toUInt8(1) AS coordinator FROM system.one"
    );
    assert_eq!(
        discovery_sql(Some("c")),
        "SELECT hostName() AS node, toUInt64(0) AS expected, toUInt8(0) AS coordinator FROM clusterAllReplicas('c', system.one) UNION ALL SELECT hostName() AS node, ifNull((SELECT count() FROM system.clusters WHERE cluster = 'c'), toUInt64(0)) AS expected, toUInt8(1) AS coordinator FROM system.one"
    );
    assert_eq!(
        probe_sql(None, &["p".to_string(), "q".to_string()]),
        "SELECT hostName() AS node, '' AS active_id FROM system.one UNION ALL SELECT hostName() AS node, if(query_id IN ('p', 'q'), query_id, initial_query_id) AS active_id FROM system.processes WHERE query_id IN ('p', 'q') OR initial_query_id IN ('p', 'q')"
    );
}

#[test]
fn execution_settings_round_milliseconds_up_at_boundaries() {
    for (millis, seconds) in [
        (999, 1),
        (1000, 1),
        (1001, 2),
        (10_000, 10),
        (10_001, 11),
    ] {
        assert_eq!(execution_limit_secs(Duration::from_millis(millis)), seconds);
        let settings = probe_settings("id", Duration::from_millis(millis));
        let limit = seconds.to_string();
        assert!(settings.contains(&("max_execution_time".to_string(), limit.clone())));
        assert!(settings.contains(&("max_execution_time_leaf".to_string(), limit)));
        assert!(settings.contains(&("readonly".to_string(), "2".to_string())));
        assert!(settings.contains(&("query_id".to_string(), "id".to_string())));
        assert_eq!(settings.len(), 14);
    }
}

#[test]
fn probes_may_take_ten_seconds_by_default() {
    let timeouts = VerificationTimeouts::default();
    assert_eq!(timeouts.startup, Duration::from_secs(10));
    assert_eq!(timeouts.runtime, Duration::from_secs(10));
}

#[test]
fn reads_are_watched_in_batches() {
    let ids: Vec<String> = (0..300).map(|n| n.to_string()).collect();
    let batches = probe_batches(&ids);
    assert_eq!(
        batches.iter().map(Vec::len).collect::<Vec<_>>(),
        vec![128, 128, 44]
    );
    assert_eq!(batches.concat(), ids);
    assert!(probe_batches(&Vec::new()).is_empty());
}

#[test]
fn a_failed_preparation_delays_the_next() {
    let mut backoff = InitializationBackoff::none();
    assert!(backoff.begin(Duration::from_secs(5)).is_ok());
    backoff.ended(false, Duration::from_secs(5));
    assert_eq!(
        message(backoff.begin(Duration::from_millis(5_999))),
        "primary disconnect verification initialization is backing off"
    );
    assert!(backoff.begin(Duration::from_secs(6)).is_ok());
    backoff.ended(true, Duration::from_secs(6));
    assert!(backoff.begin(Duration::from_secs(6)).is_ok());
}
