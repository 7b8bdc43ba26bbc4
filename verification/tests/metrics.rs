use pgmux::admin::metrics::Metrics;

fn value(metrics: &Metrics, name: &str) -> f64 {
    let families = metrics.registry.gather();
    let family = families.iter().find(|f| f.get_name() == name).unwrap();
    let metric = &family.get_metric()[0];
    if metric.has_counter() {
        metric.get_counter().get_value()
    } else {
        metric.get_gauge().get_value()
    }
}

#[test]
fn all_metrics_are_registered() {
    let metrics = Metrics::new();
    for gauges in [&metrics.db_size_bytes, &metrics.db_size_limit_bytes, &metrics.db_over_limit] {
        gauges.handle.with_label_values(&["tenant_42"]).set(1.0);
    }
    let families = metrics.registry.gather();
    let found: Vec<(&str, &str)> =
        families.iter().map(|f| (f.get_name(), f.get_help())).collect();
    assert_eq!(
        found,
        vec![
            ("pgmux_client_connections_active", "Currently active client connections"),
            ("pgmux_client_connections_total", "Total client connections accepted"),
            (
                "pgmux_db_over_limit",
                "Whether database is over its size limit (1=over, 0=ok)"
            ),
            ("pgmux_db_size_bytes", "Current database size in bytes"),
            ("pgmux_db_size_limit_bytes", "Configured database size limit in bytes"),
            ("pgmux_pool_hits_total", "Connections served from pool"),
            (
                "pgmux_pool_misses_total",
                "Connections that required new backend connection"
            ),
            ("pgmux_pool_timeouts_total", "Connection acquire timeouts"),
            (
                "pgmux_queries_read_only_enforced",
                "Queries where read-only was enforced due to size limit"
            ),
            ("pgmux_queries_total", "Total queries proxied"),
            ("pgmux_server_connection_errors_total", "Total server connection errors"),
            ("pgmux_server_connections_active", "Currently active server connections"),
            ("pgmux_server_connections_total", "Total server connections created"),
        ]
    );
}

#[test]
fn the_registry_shows_what_the_handles_count() {
    let metrics = Metrics::new();
    assert_eq!(value(&metrics, "pgmux_queries_total"), 0.0);
    metrics.queries_total.handle.inc_by(3);
    metrics.client_connections_active.handle.set(7);
    metrics.db_size_bytes.handle.with_label_values(&["tenant_42"]).set(2.5);
    assert_eq!(value(&metrics, "pgmux_queries_total"), 3.0);
    assert_eq!(value(&metrics, "pgmux_client_connections_active"), 7.0);
    assert_eq!(value(&metrics, "pgmux_db_size_bytes"), 2.5);
    assert_eq!(value(&metrics, "pgmux_pool_hits_total"), 0.0);
}

#[test]
fn each_field_feeds_its_own_metric() {
    let metrics = Metrics::new();
    let counters = [
        (&metrics.client_connections_total, "pgmux_client_connections_total"),
        (&metrics.server_connections_total, "pgmux_server_connections_total"),
        (&metrics.server_connection_errors_total, "pgmux_server_connection_errors_total"),
        (&metrics.pool_hits_total, "pgmux_pool_hits_total"),
        (&metrics.pool_misses_total, "pgmux_pool_misses_total"),
        (&metrics.pool_timeouts_total, "pgmux_pool_timeouts_total"),
        (&metrics.queries_total, "pgmux_queries_total"),
        (&metrics.queries_read_only_enforced, "pgmux_queries_read_only_enforced"),
    ];
    for (i, (counter, name)) in counters.iter().enumerate() {
        counter.handle.inc_by(i as u64 + 1);
        assert_eq!(value(&metrics, name), i as f64 + 1.0);
    }
    metrics.server_connections_active.handle.set(-4);
    assert_eq!(value(&metrics, "pgmux_server_connections_active"), -4.0);
}

#[test]
fn sizes_are_kept_per_database() {
    let metrics = Metrics::new();
    metrics.db_over_limit.handle.with_label_values(&["a"]).set(1.0);
    metrics.db_over_limit.handle.with_label_values(&["b"]).set(0.0);
    let families = metrics.registry.gather();
    let family = families.iter().find(|f| f.get_name() == "pgmux_db_over_limit").unwrap();
    let labels: Vec<(&str, &str)> = family
        .get_metric()
        .iter()
        .map(|m| (m.get_label()[0].get_name(), m.get_label()[0].get_value()))
        .collect();
    assert_eq!(labels, vec![("database", "a"), ("database", "b")]);
}

#[test]
fn every_metric_starts_at_zero() {
    let metrics = Metrics::new();
    let families = metrics.registry.gather();
    // A set of gauges without a gauge is not shown.
    assert_eq!(families.len(), 10);
    for family in &families {
        assert_eq!(value(&metrics, family.get_name()), 0.0);
    }
}

#[test]
fn registries_are_independent() {
    let one = Metrics::new();
    let two = Metrics::new();
    one.pool_hits_total.handle.inc();
    assert_eq!(value(&one, "pgmux_pool_hits_total"), 1.0);
    assert_eq!(value(&two, "pgmux_pool_hits_total"), 0.0);
}

fn id<C: prometheus::core::Collector>(metric: &C) -> u64 {
    metric.desc()[0].id
}

/// The FNV-1a hash.
fn fnv(bytes: &[u8]) -> u64 {
    bytes.iter().fold(0xcbf29ce484222325, |hash: u64, byte| {
        (hash ^ *byte as u64).wrapping_mul(0x100000001b3)
    })
}

#[test]
fn metrics_are_told_apart_by_the_hashes_of_their_names() {
    let metrics = Metrics::new();
    let ids = [
        (id(&metrics.client_connections_total.handle), 0xad0adb3cb6443fd4),
        (id(&metrics.client_connections_active.handle), 0xeb0f710656f99516),
        (id(&metrics.server_connections_total.handle), 0x5a42fd364d91b270),
        (id(&metrics.db_size_bytes.handle), 0x146dc46eb99d2558),
        (id(&metrics.queries_total.handle), 0xde496ed080626cb1),
    ];
    for (id, expected) in ids {
        assert_eq!(id, expected);
    }
    for (id, name) in [
        (id(&metrics.pool_hits_total.handle), &b"pgmux_pool_hits_total\xff"[..]),
        (id(&metrics.db_over_limit.handle), &b"pgmux_db_over_limit\xff"[..]),
    ] {
        assert_eq!(id, fnv(name));
    }
}

#[test]
fn a_metric_cannot_be_registered_twice() {
    let metrics = Metrics::new();
    let again = metrics.queries_total.handle.clone();
    assert!(metrics.registry.register(Box::new(again)).is_err());
    let other = prometheus::IntCounter::new("pgmux_other", "Another counter").unwrap();
    assert!(metrics.registry.register(Box::new(other)).is_ok());
}
