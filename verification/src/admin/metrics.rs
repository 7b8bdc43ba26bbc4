//! The metrics of the service, kept in `prometheus` collectors.
//!
//! The metric types of `prometheus` are generic over a trait of that crate, which Verus cannot
//! declare. So each is wrapped in a type of this module, opaque but for its description; its `handle`
//! is there for the code that counts.

use prometheus::Registry;
use vstd::prelude::*;

use super::ids::{
    lemma_client_connections_active, lemma_client_connections_total, lemma_db_over_limit,
    lemma_db_size_bytes, lemma_db_size_limit_bytes, lemma_pool_hits_total, lemma_pool_misses_total,
    lemma_pool_timeouts_total, lemma_queries_read_only_enforced, lemma_queries_total,
    lemma_server_connection_errors_total, lemma_server_connections_active,
    lemma_server_connections_total, metric_id,
};

verus! {

/// An integer counter of the `prometheus` crate. Clones of the handle share one value.
#[verifier::external_body]
pub struct IntCounter {
    pub handle: prometheus::IntCounter,
}

/// An integer gauge of the `prometheus` crate. Clones of the handle share one value.
#[verifier::external_body]
pub struct IntGauge {
    pub handle: prometheus::IntGauge,
}

/// A set of gauges of the `prometheus` crate, one for each value of its labels. Clones of the handle
/// share one set.
#[verifier::external_body]
pub struct GaugeVec {
    pub handle: prometheus::GaugeVec,
}

/// The registry of the `prometheus` crate: a handle that its clones share, opaque but for
/// [`collectors_of`].
#[verifier::external_type_specification]
#[verifier::external_body]
pub struct ExRegistry(Registry);

/// The error of the `prometheus` crate; it is carried through to the caller.
#[verifier::external_type_specification]
#[verifier::external_body]
pub struct ExPrometheusError(prometheus::Error);

/// A registry that is being filled. It is the only handle to what it holds: it cannot be cloned, and
/// the handle inside comes out only through [`hand_out`], which ends the filling.
#[verifier::external_body]
pub struct Filling {
    inner: Registry,
}

/// What a metric says of itself: its name, its help text, the names of its labels, and the labels
/// with their values that are the same for all its values.
#[verifier::ext_equal]
pub struct Description {
    pub name: Seq<char>,
    pub help: Seq<char>,
    pub labels: Seq<Seq<char>>,
    pub constant_labels: Seq<(Seq<char>, Seq<char>)>,
}

/// A metric without labels.
pub open spec fn plain(name: &str, help: &str) -> Description {
    Description { name: name@, help: help@, labels: seq![], constant_labels: seq![] }
}

/// A metric with one label.
pub open spec fn labelled(name: &str, help: &str, label: &str) -> Description {
    Description { name: name@, help: help@, labels: seq![label@], constant_labels: seq![] }
}

/// A metric with a value for each database.
pub open spec fn per_database(name: &str, help: &str) -> Description {
    labelled(name, help, "database")
}

/// A letter or an underscore.
pub open spec fn is_name_start(c: char) -> bool {
    'a' <= c <= 'z' || 'A' <= c <= 'Z' || c == '_'
}

/// Whether `prometheus` takes a text as the name of a label.
pub open spec fn valid_label_name(name: Seq<char>) -> bool {
    &&& name.len() > 0
    &&& is_name_start(name[0])
    &&& forall|i: int|
        0 <= i < name.len() ==> is_name_start(#[trigger] name[i]) || '0' <= name[i] <= '9'
}

/// Whether `prometheus` takes a text as the name of a metric, which may hold colons.
pub open spec fn valid_metric_name(name: Seq<char>) -> bool {
    &&& name.len() > 0
    &&& is_name_start(name[0]) || name[0] == ':'
    &&& forall|i: int|
        0 <= i < name.len() ==> is_name_start(#[trigger] name[i]) || name[i] == ':' || '0'
            <= name[i] <= '9'
}

/// Whether `prometheus` takes a description without constant labels: valid names, no label twice, and
/// a help text.
pub open spec fn valid_description(description: Description) -> bool {
    &&& valid_metric_name(description.name)
    &&& description.help.len() > 0
    &&& forall|i: int|
        0 <= i < description.labels.len() ==> valid_label_name(#[trigger] description.labels[i])
    &&& description.labels.no_duplicates()
    &&& description.constant_labels.len() == 0
}

/// The description of a counter.
pub uninterp spec fn counter_description(counter: IntCounter) -> Description;

/// The description of a gauge.
pub uninterp spec fn gauge_description(gauge: IntGauge) -> Description;

/// The description of a set of gauges.
pub uninterp spec fn gauge_vec_description(gauges: GaugeVec) -> Description;

/// The value that a counter had when it was made.
pub uninterp spec fn counter_start(counter: IntCounter) -> u64;

/// The value that a gauge had when it was made.
pub uninterp spec fn gauge_start(gauge: IntGauge) -> i64;

/// The label values for which a set of gauges held a gauge when it was made.
pub uninterp spec fn gauge_vec_start(gauges: GaugeVec) -> Set<Seq<Seq<char>>>;

/// A metric that can be registered.
pub enum Collector {
    Counter(IntCounter),
    Gauge(IntGauge),
    GaugeVec(GaugeVec),
}

impl Collector {
    /// The description of the metric.
    pub open spec fn description(self) -> Description {
        match self {
            Collector::Counter(counter) => counter_description(counter),
            Collector::Gauge(gauge) => gauge_description(gauge),
            Collector::GaugeVec(gauges) => gauge_vec_description(gauges),
        }
    }

    /// Whether the metric was made with nothing counted: at zero, or with no gauge in the set.
    pub open spec fn starts_at_zero(self) -> bool {
        match self {
            Collector::Counter(counter) => counter_start(counter) == 0,
            Collector::Gauge(gauge) => gauge_start(gauge) == 0,
            Collector::GaugeVec(gauges) => gauge_vec_start(gauges) == Set::<Seq<Seq<char>>>::empty(),
        }
    }
}

/// The metrics that a registry which is being filled collects from, in the order in which they were
/// registered.
pub uninterp spec fn filled_with(registry: Filling) -> Seq<Collector>;

/// The metrics that the registry behind a handle had been filled with when the handle was handed out,
/// in the order in which they were registered. What is done through the handle later, or through a
/// clone of it, is no part of this.
pub uninterp spec fn collectors_of(registry: Registry) -> Seq<Collector>;

/// Whether a registry with these metrics takes one more, with this number.
pub open spec fn admits(collectors: Seq<Collector>, id: u64) -> bool {
    forall|i: int|
        0 <= i < collectors.len() ==> metric_id((#[trigger] collectors[i]).description().name)
            != id
}

/// `IntCounter::new`: succeeds on a valid name and a help text that is not empty, and describes the
/// counter by them. The counter starts at zero.
#[verifier::external_body]
pub(crate) fn new_counter(name: &str, help: &str) -> (result: Result<IntCounter, prometheus::Error>)
    ensures
        result is Ok <==> valid_description(plain(name, help)),
        result matches Ok(counter) ==> counter_description(counter) == plain(name, help),
        result matches Ok(counter) ==> counter_start(counter) == 0,
{
    Ok(IntCounter { handle: prometheus::IntCounter::new(name, help)? })
}

/// `IntGauge::new`: succeeds on a valid name and a help text that is not empty, and describes the
/// gauge by them. The gauge starts at zero.
#[verifier::external_body]
pub(crate) fn new_gauge(name: &str, help: &str) -> (result: Result<IntGauge, prometheus::Error>)
    ensures
        result is Ok <==> valid_description(plain(name, help)),
        result matches Ok(gauge) ==> gauge_description(gauge) == plain(name, help),
        result matches Ok(gauge) ==> gauge_start(gauge) == 0,
{
    Ok(IntGauge { handle: prometheus::IntGauge::new(name, help)? })
}

/// `GaugeVec::new` with the options of `Opts::new` and one label: succeeds on valid names and a help
/// text that is not empty, and describes the set of gauges by them. The set starts with no gauge.
#[verifier::external_body]
pub(crate) fn new_gauge_vec(name: &str, help: &str, label: &str) -> (result: Result<
    GaugeVec,
    prometheus::Error,
>)
    ensures
        result is Ok <==> valid_description(labelled(name, help, label)),
        result matches Ok(gauges) ==> gauge_vec_description(gauges) == labelled(name, help, label),
        result matches Ok(gauges) ==> gauge_vec_start(gauges) == Set::<Seq<Seq<char>>>::empty(),
{
    Ok(GaugeVec { handle: prometheus::GaugeVec::new(prometheus::Opts::new(name, help), &[label])? })
}

/// `Registry::new`: nothing is registered yet.
#[verifier::external_body]
pub(crate) fn new_registry() -> (registry: Filling)
    ensures
        filled_with(registry) == Seq::<Collector>::empty(),
{
    Filling { inner: Registry::new() }
}

/// The handle to a `Registry` that has been filled. Nothing is done to the registry; its metrics are
/// those that it was filled with.
#[verifier::external_body]
pub(crate) fn hand_out(registry: Filling) -> (handle: Registry)
    ensures
        collectors_of(handle) == filled_with(registry),
{
    registry.inner
}

/// `Registry::register` with a clone of a counter, which shares its value: the metric is added unless
/// one with the same number is registered. With constant labels the number would be another one.
#[verifier::external_body]
pub(crate) fn register_counter(registry: &mut Filling, counter: &IntCounter) -> (result: Result<
    (),
    prometheus::Error,
>)
    requires
        counter_description(*counter).constant_labels.len() == 0,
    ensures
        result is Ok <==> admits(
            filled_with(*old(registry)),
            metric_id(counter_description(*counter).name),
        ),
        result is Ok ==> filled_with(*final(registry)) == filled_with(*old(registry)).push(
            Collector::Counter(*counter),
        ),
        result is Err ==> filled_with(*final(registry)) == filled_with(*old(registry)),
{
    registry.inner.register(Box::new(counter.handle.clone()))
}

/// `Registry::register` with a clone of a gauge, which shares its value: the metric is added unless
/// one with the same number is registered. With constant labels the number would be another one.
#[verifier::external_body]
pub(crate) fn register_gauge(registry: &mut Filling, gauge: &IntGauge) -> (result: Result<
    (),
    prometheus::Error,
>)
    requires
        gauge_description(*gauge).constant_labels.len() == 0,
    ensures
        result is Ok <==> admits(
            filled_with(*old(registry)),
            metric_id(gauge_description(*gauge).name),
        ),
        result is Ok ==> filled_with(*final(registry)) == filled_with(*old(registry)).push(
            Collector::Gauge(*gauge),
        ),
        result is Err ==> filled_with(*final(registry)) == filled_with(*old(registry)),
{
    registry.inner.register(Box::new(gauge.handle.clone()))
}

/// `Registry::register` with a clone of a set of gauges, which shares its values: the metric is added
/// unless one with the same number is registered. With constant labels the number would be another one.
#[verifier::external_body]
pub(crate) fn register_gauge_vec(registry: &mut Filling, gauges: &GaugeVec) -> (result: Result<
    (),
    prometheus::Error,
>)
    requires
        gauge_vec_description(*gauges).constant_labels.len() == 0,
    ensures
        result is Ok <==> admits(
            filled_with(*old(registry)),
            metric_id(gauge_vec_description(*gauges).name),
        ),
        result is Ok ==> filled_with(*final(registry)) == filled_with(*old(registry)).push(
            Collector::GaugeVec(*gauges),
        ),
        result is Err ==> filled_with(*final(registry)) == filled_with(*old(registry)),
{
    registry.inner.register(Box::new(gauges.handle.clone()))
}

/// All application metrics.
pub struct Metrics {
    pub registry: Registry,

    // Client metrics
    pub client_connections_total: IntCounter,
    pub client_connections_active: IntGauge,

    // Server/pool metrics
    pub server_connections_total: IntCounter,
    pub server_connections_active: IntGauge,
    pub server_connection_errors_total: IntCounter,
    pub pool_hits_total: IntCounter,
    pub pool_misses_total: IntCounter,
    pub pool_timeouts_total: IntCounter,

    // DB size metrics
    pub db_size_bytes: GaugeVec,
    pub db_size_limit_bytes: GaugeVec,
    pub db_over_limit: GaugeVec,

    // Query metrics
    pub queries_total: IntCounter,
    pub queries_read_only_enforced: IntCounter,
}

/// The descriptions of all metrics, in the order in which they are registered.
pub open spec fn all_descriptions() -> Seq<Description> {
    seq![
        plain("pgmux_client_connections_total", "Total client connections accepted"),
        plain("pgmux_client_connections_active", "Currently active client connections"),
        plain("pgmux_server_connections_total", "Total server connections created"),
        plain("pgmux_server_connections_active", "Currently active server connections"),
        plain("pgmux_server_connection_errors_total", "Total server connection errors"),
        plain("pgmux_pool_hits_total", "Connections served from pool"),
        plain("pgmux_pool_misses_total", "Connections that required new backend connection"),
        plain("pgmux_pool_timeouts_total", "Connection acquire timeouts"),
        per_database("pgmux_db_size_bytes", "Current database size in bytes"),
        per_database("pgmux_db_size_limit_bytes", "Configured database size limit in bytes"),
        per_database("pgmux_db_over_limit", "Whether database is over its size limit (1=over, 0=ok)"),
        plain("pgmux_queries_total", "Total queries proxied"),
        plain("pgmux_queries_read_only_enforced", "Queries where read-only was enforced due to size limit"),
    ]
}

/// Every metric has a description that `prometheus` takes.
pub proof fn law_descriptions_valid()
    ensures
        forall|i: int|
            0 <= i < all_descriptions().len() ==> valid_description(#[trigger] all_descriptions()[i]),
{
    assert(valid_label_name("database"@)) by {
        reveal_strlit("database");
    }
    assert(valid_description(all_descriptions()[0])) by {
        reveal_strlit("pgmux_client_connections_total");
        reveal_strlit("Total client connections accepted");
    }
    assert(valid_description(all_descriptions()[1])) by {
        reveal_strlit("pgmux_client_connections_active");
        reveal_strlit("Currently active client connections");
    }
    assert(valid_description(all_descriptions()[2])) by {
        reveal_strlit("pgmux_server_connections_total");
        reveal_strlit("Total server connections created");
    }
    assert(valid_description(all_descriptions()[3])) by {
        reveal_strlit("pgmux_server_connections_active");
        reveal_strlit("Currently active server connections");
    }
    assert(valid_description(all_descriptions()[4])) by {
        reveal_strlit("pgmux_server_connection_errors_total");
        reveal_strlit("Total server connection errors");
    }
    assert(valid_description(all_descriptions()[5])) by {
        reveal_strlit("pgmux_pool_hits_total");
        reveal_strlit("Connections served from pool");
    }
    assert(valid_description(all_descriptions()[6])) by {
        reveal_strlit("pgmux_pool_misses_total");
        reveal_strlit("Connections that required new backend connection");
    }
    assert(valid_description(all_descriptions()[7])) by {
        reveal_strlit("pgmux_pool_timeouts_total");
        reveal_strlit("Connection acquire timeouts");
    }
    assert(valid_description(all_descriptions()[8])) by {
        reveal_strlit("pgmux_db_size_bytes");
        reveal_strlit("Current database size in bytes");
    }
    assert(valid_description(all_descriptions()[9])) by {
        reveal_strlit("pgmux_db_size_limit_bytes");
        reveal_strlit("Configured database size limit in bytes");
    }
    assert(valid_description(all_descriptions()[10])) by {
        reveal_strlit("pgmux_db_over_limit");
        reveal_strlit("Whether database is over its size limit (1=over, 0=ok)");
    }
    assert(valid_description(all_descriptions()[11])) by {
        reveal_strlit("pgmux_queries_total");
        reveal_strlit("Total queries proxied");
    }
    assert(valid_description(all_descriptions()[12])) by {
        reveal_strlit("pgmux_queries_read_only_enforced");
        reveal_strlit("Queries where read-only was enforced due to size limit");
    }
}

/// The metrics differ in their numbers, so a registry takes no two of them for the same.
pub proof fn law_ids_distinct()
    ensures
        forall|i: int, j: int|
            0 <= i < j < all_descriptions().len() ==> metric_id(
                (#[trigger] all_descriptions()[i]).name,
            ) != metric_id((#[trigger] all_descriptions()[j]).name),
{
    lemma_client_connections_total();
    lemma_client_connections_active();
    lemma_server_connections_total();
    lemma_server_connections_active();
    lemma_server_connection_errors_total();
    lemma_pool_hits_total();
    lemma_pool_misses_total();
    lemma_pool_timeouts_total();
    lemma_db_size_bytes();
    lemma_db_size_limit_bytes();
    lemma_db_over_limit();
    lemma_queries_total();
    lemma_queries_read_only_enforced();
}

/// The metrics differ in their names.
pub proof fn law_names_distinct()
    ensures
        forall|i: int, j: int|
            0 <= i < j < all_descriptions().len() ==> (#[trigger] all_descriptions()[i]).name != (
            #[trigger] all_descriptions()[j]).name,
{
    law_ids_distinct();
}

/// The name of every metric starts with `pgmux_`.
pub proof fn law_names_prefixed()
    ensures
        forall|i: int|
            0 <= i < all_descriptions().len() ==> "pgmux_"@.is_prefix_of(
                (#[trigger] all_descriptions()[i]).name,
            ),
{
    reveal_strlit("pgmux_");
    assert("pgmux_"@.is_prefix_of(all_descriptions()[0].name)) by {
        reveal_strlit("pgmux_client_connections_total");
    }
    assert("pgmux_"@.is_prefix_of(all_descriptions()[1].name)) by {
        reveal_strlit("pgmux_client_connections_active");
    }
    assert("pgmux_"@.is_prefix_of(all_descriptions()[2].name)) by {
        reveal_strlit("pgmux_server_connections_total");
    }
    assert("pgmux_"@.is_prefix_of(all_descriptions()[3].name)) by {
        reveal_strlit("pgmux_server_connections_active");
    }
    assert("pgmux_"@.is_prefix_of(all_descriptions()[4].name)) by {
        reveal_strlit("pgmux_server_connection_errors_total");
    }
    assert("pgmux_"@.is_prefix_of(all_descriptions()[5].name)) by {
        reveal_strlit("pgmux_pool_hits_total");
    }
    assert("pgmux_"@.is_prefix_of(all_descriptions()[6].name)) by {
        reveal_strlit("pgmux_pool_misses_total");
    }
    assert("pgmux_"@.is_prefix_of(all_descriptions()[7].name)) by {
        reveal_strlit("pgmux_pool_timeouts_total");
    }
    assert("pgmux_"@.is_prefix_of(all_descriptions()[8].name)) by {
        reveal_strlit("pgmux_db_size_bytes");
    }
    assert("pgmux_"@.is_prefix_of(all_descriptions()[9].name)) by {
        reveal_strlit("pgmux_db_size_limit_bytes");
    }
    assert("pgmux_"@.is_prefix_of(all_descriptions()[10].name)) by {
        reveal_strlit("pgmux_db_over_limit");
    }
    assert("pgmux_"@.is_prefix_of(all_descriptions()[11].name)) by {
        reveal_strlit("pgmux_queries_total");
    }
    assert("pgmux_"@.is_prefix_of(all_descriptions()[12].name)) by {
        reveal_strlit("pgmux_queries_read_only_enforced");
    }
}

/// Whether the first `count` metrics are registered.
spec fn registered(registry: Filling, count: int) -> bool {
    let collectors = filled_with(registry);
    &&& collectors.len() == count
    &&& forall|i: int|
        0 <= i < count ==> (#[trigger] collectors[i]).description() == all_descriptions()[i]
}

/// The next metric can be registered.
proof fn lemma_admits(registry: Filling, count: int)
    requires
        0 <= count < all_descriptions().len(),
        registered(registry, count),
    ensures
        admits(filled_with(registry), metric_id(all_descriptions()[count].name)),
{
    law_ids_distinct();
    let collectors = filled_with(registry);
    assert forall|i: int| 0 <= i < collectors.len() implies metric_id(
        (#[trigger] collectors[i]).description().name,
    ) != metric_id(all_descriptions()[count].name) by {
        assert(metric_id(all_descriptions()[i].name) != metric_id(all_descriptions()[count].name));
    }
}

/// Registers the `count`-th metric.
fn add_counter(registry: &mut Filling, counter: &IntCounter, Ghost(count): Ghost<int>)
    requires
        0 <= count < all_descriptions().len(),
        registered(*old(registry), count),
        counter_description(*counter) == all_descriptions()[count],
    ensures
        registered(*final(registry), count + 1),
        filled_with(*final(registry)) == filled_with(*old(registry)).push(
            Collector::Counter(*counter),
        ),
{
    proof {
        lemma_admits(*registry, count);
    }
    register_counter(registry, counter).unwrap();
}

/// Registers the `count`-th metric.
fn add_gauge(registry: &mut Filling, gauge: &IntGauge, Ghost(count): Ghost<int>)
    requires
        0 <= count < all_descriptions().len(),
        registered(*old(registry), count),
        gauge_description(*gauge) == all_descriptions()[count],
    ensures
        registered(*final(registry), count + 1),
        filled_with(*final(registry)) == filled_with(*old(registry)).push(
            Collector::Gauge(*gauge),
        ),
{
    proof {
        lemma_admits(*registry, count);
    }
    register_gauge(registry, gauge).unwrap();
}

/// Registers the `count`-th metric.
fn add_gauge_vec(registry: &mut Filling, gauges: &GaugeVec, Ghost(count): Ghost<int>)
    requires
        0 <= count < all_descriptions().len(),
        registered(*old(registry), count),
        gauge_vec_description(*gauges) == all_descriptions()[count],
    ensures
        registered(*final(registry), count + 1),
        filled_with(*final(registry)) == filled_with(*old(registry)).push(
            Collector::GaugeVec(*gauges),
        ),
{
    proof {
        lemma_admits(*registry, count);
    }
    register_gauge_vec(registry, gauges).unwrap();
}

/// No two fields of complete metrics hold the same handle, so what is counted in one is not counted in
/// another, and the registry collects from each once.
pub proof fn law_fields_apart(metrics: Metrics)
    requires
        metrics.is_complete(),
    ensures
        metrics.collectors().no_duplicates(),
        collectors_of(metrics.registry).no_duplicates(),
{
    law_names_distinct();
    let collectors = metrics.collectors();
    assert forall|i: int, j: int|
        0 <= i < collectors.len() && 0 <= j < collectors.len() && i != j implies collectors[i]
        != collectors[j] by {
        lemma_described(metrics, i);
        lemma_described(metrics, j);
        if i < j {
            assert(all_descriptions()[i].name != all_descriptions()[j].name);
        } else {
            assert(all_descriptions()[j].name != all_descriptions()[i].name);
        }
    }
}

/// Each field of complete metrics counts under its own name, which is that of the field behind `pgmux_`,
/// with its help text; the metrics on databases have a value for each database.
pub proof fn law_fields_named(metrics: Metrics)
    requires
        metrics.is_complete(),
    ensures
        counter_description(metrics.client_connections_total) == (Description {
            name: "pgmux_client_connections_total"@,
            help: "Total client connections accepted"@,
            labels: seq![],
            constant_labels: seq![],
        }),
        gauge_description(metrics.client_connections_active) == (Description {
            name: "pgmux_client_connections_active"@,
            help: "Currently active client connections"@,
            labels: seq![],
            constant_labels: seq![],
        }),
        counter_description(metrics.server_connections_total) == (Description {
            name: "pgmux_server_connections_total"@,
            help: "Total server connections created"@,
            labels: seq![],
            constant_labels: seq![],
        }),
        gauge_description(metrics.server_connections_active) == (Description {
            name: "pgmux_server_connections_active"@,
            help: "Currently active server connections"@,
            labels: seq![],
            constant_labels: seq![],
        }),
        counter_description(metrics.server_connection_errors_total) == (Description {
            name: "pgmux_server_connection_errors_total"@,
            help: "Total server connection errors"@,
            labels: seq![],
            constant_labels: seq![],
        }),
        counter_description(metrics.pool_hits_total) == (Description {
            name: "pgmux_pool_hits_total"@,
            help: "Connections served from pool"@,
            labels: seq![],
            constant_labels: seq![],
        }),
        counter_description(metrics.pool_misses_total) == (Description {
            name: "pgmux_pool_misses_total"@,
            help: "Connections that required new backend connection"@,
            labels: seq![],
            constant_labels: seq![],
        }),
        counter_description(metrics.pool_timeouts_total) == (Description {
            name: "pgmux_pool_timeouts_total"@,
            help: "Connection acquire timeouts"@,
            labels: seq![],
            constant_labels: seq![],
        }),
        gauge_vec_description(metrics.db_size_bytes) == (Description {
            name: "pgmux_db_size_bytes"@,
            help: "Current database size in bytes"@,
            labels: seq!["database"@],
            constant_labels: seq![],
        }),
        gauge_vec_description(metrics.db_size_limit_bytes) == (Description {
            name: "pgmux_db_size_limit_bytes"@,
            help: "Configured database size limit in bytes"@,
            labels: seq!["database"@],
            constant_labels: seq![],
        }),
        gauge_vec_description(metrics.db_over_limit) == (Description {
            name: "pgmux_db_over_limit"@,
            help: "Whether database is over its size limit (1=over, 0=ok)"@,
            labels: seq!["database"@],
            constant_labels: seq![],
        }),
        counter_description(metrics.queries_total) == (Description {
            name: "pgmux_queries_total"@,
            help: "Total queries proxied"@,
            labels: seq![],
            constant_labels: seq![],
        }),
        counter_description(metrics.queries_read_only_enforced) == (Description {
            name: "pgmux_queries_read_only_enforced"@,
            help: "Queries where read-only was enforced due to size limit"@,
            labels: seq![],
            constant_labels: seq![],
        }),
{
    lemma_described(metrics, 0);
    lemma_described(metrics, 1);
    lemma_described(metrics, 2);
    lemma_described(metrics, 3);
    lemma_described(metrics, 4);
    lemma_described(metrics, 5);
    lemma_described(metrics, 6);
    lemma_described(metrics, 7);
    lemma_described(metrics, 8);
    lemma_described(metrics, 9);
    lemma_described(metrics, 10);
    lemma_described(metrics, 11);
    lemma_described(metrics, 12);
}

/// The registry of complete metrics collects from every field.
pub proof fn law_fields_collected(metrics: Metrics)
    requires
        metrics.is_complete(),
    ensures
        collectors_of(metrics.registry).len() == 13,
        collectors_of(metrics.registry).contains(Collector::Counter(metrics.client_connections_total)),
        collectors_of(metrics.registry).contains(Collector::Gauge(metrics.client_connections_active)),
        collectors_of(metrics.registry).contains(Collector::Counter(metrics.server_connections_total)),
        collectors_of(metrics.registry).contains(Collector::Gauge(metrics.server_connections_active)),
        collectors_of(metrics.registry).contains(Collector::Counter(metrics.server_connection_errors_total)),
        collectors_of(metrics.registry).contains(Collector::Counter(metrics.pool_hits_total)),
        collectors_of(metrics.registry).contains(Collector::Counter(metrics.pool_misses_total)),
        collectors_of(metrics.registry).contains(Collector::Counter(metrics.pool_timeouts_total)),
        collectors_of(metrics.registry).contains(Collector::GaugeVec(metrics.db_size_bytes)),
        collectors_of(metrics.registry).contains(Collector::GaugeVec(metrics.db_size_limit_bytes)),
        collectors_of(metrics.registry).contains(Collector::GaugeVec(metrics.db_over_limit)),
        collectors_of(metrics.registry).contains(Collector::Counter(metrics.queries_total)),
        collectors_of(metrics.registry).contains(Collector::Counter(metrics.queries_read_only_enforced)),
{
    assert(collectors_of(metrics.registry)[0] == metrics.collectors()[0]);
    assert(collectors_of(metrics.registry)[1] == metrics.collectors()[1]);
    assert(collectors_of(metrics.registry)[2] == metrics.collectors()[2]);
    assert(collectors_of(metrics.registry)[3] == metrics.collectors()[3]);
    assert(collectors_of(metrics.registry)[4] == metrics.collectors()[4]);
    assert(collectors_of(metrics.registry)[5] == metrics.collectors()[5]);
    assert(collectors_of(metrics.registry)[6] == metrics.collectors()[6]);
    assert(collectors_of(metrics.registry)[7] == metrics.collectors()[7]);
    assert(collectors_of(metrics.registry)[8] == metrics.collectors()[8]);
    assert(collectors_of(metrics.registry)[9] == metrics.collectors()[9]);
    assert(collectors_of(metrics.registry)[10] == metrics.collectors()[10]);
    assert(collectors_of(metrics.registry)[11] == metrics.collectors()[11]);
    assert(collectors_of(metrics.registry)[12] == metrics.collectors()[12]);
}

/// Where all metrics start at zero, each field does.
pub proof fn law_fields_start_at_zero(metrics: Metrics)
    requires
        forall|i: int|
            0 <= i < metrics.collectors().len() ==> (#[trigger] metrics.collectors()[i]).starts_at_zero(),
    ensures
        counter_start(metrics.client_connections_total) == 0,
        gauge_start(metrics.client_connections_active) == 0,
        counter_start(metrics.server_connections_total) == 0,
        gauge_start(metrics.server_connections_active) == 0,
        counter_start(metrics.server_connection_errors_total) == 0,
        counter_start(metrics.pool_hits_total) == 0,
        counter_start(metrics.pool_misses_total) == 0,
        counter_start(metrics.pool_timeouts_total) == 0,
        gauge_vec_start(metrics.db_size_bytes) == Set::<Seq<Seq<char>>>::empty(),
        gauge_vec_start(metrics.db_size_limit_bytes) == Set::<Seq<Seq<char>>>::empty(),
        gauge_vec_start(metrics.db_over_limit) == Set::<Seq<Seq<char>>>::empty(),
        counter_start(metrics.queries_total) == 0,
        counter_start(metrics.queries_read_only_enforced) == 0,
{
    assert(metrics.collectors()[0].starts_at_zero());
    assert(metrics.collectors()[1].starts_at_zero());
    assert(metrics.collectors()[2].starts_at_zero());
    assert(metrics.collectors()[3].starts_at_zero());
    assert(metrics.collectors()[4].starts_at_zero());
    assert(metrics.collectors()[5].starts_at_zero());
    assert(metrics.collectors()[6].starts_at_zero());
    assert(metrics.collectors()[7].starts_at_zero());
    assert(metrics.collectors()[8].starts_at_zero());
    assert(metrics.collectors()[9].starts_at_zero());
    assert(metrics.collectors()[10].starts_at_zero());
    assert(metrics.collectors()[11].starts_at_zero());
    assert(metrics.collectors()[12].starts_at_zero());
}

/// None of the metrics can be registered a second time with what the registry was handed out with: each
/// of them is in it.
pub proof fn law_all_registered(metrics: Metrics, i: int)
    requires
        metrics.is_complete(),
        0 <= i < metrics.collectors().len(),
    ensures
        collectors_of(metrics.registry).contains(metrics.collectors()[i]),
        !admits(
            collectors_of(metrics.registry),
            metric_id(metrics.collectors()[i].description().name),
        ),
{
    assert(collectors_of(metrics.registry)[i] == metrics.collectors()[i]);
}

/// The description of a field.
proof fn lemma_described(metrics: Metrics, i: int)
    requires
        metrics.is_complete(),
        0 <= i < metrics.collectors().len(),
    ensures
        metrics.collectors()[i].description() == all_descriptions()[i],
{
    let described = metrics.collectors().map_values(|c: Collector| c.description());
    assert(described[i] == metrics.collectors()[i].description());
}

impl Metrics {
    /// The handles in the order in which they are registered.
    pub open spec fn collectors(self) -> Seq<Collector> {
        seq![
            Collector::Counter(self.client_connections_total),
            Collector::Gauge(self.client_connections_active),
            Collector::Counter(self.server_connections_total),
            Collector::Gauge(self.server_connections_active),
            Collector::Counter(self.server_connection_errors_total),
            Collector::Counter(self.pool_hits_total),
            Collector::Counter(self.pool_misses_total),
            Collector::Counter(self.pool_timeouts_total),
            Collector::GaugeVec(self.db_size_bytes),
            Collector::GaugeVec(self.db_size_limit_bytes),
            Collector::GaugeVec(self.db_over_limit),
            Collector::Counter(self.queries_total),
            Collector::Counter(self.queries_read_only_enforced),
        ]
    }

    /// Whether the registry was handed out with the very handles that the fields hold, each with the
    /// description of its field.
    pub open spec fn is_complete(self) -> bool {
        &&& collectors_of(self.registry) == self.collectors()
        &&& self.collectors().map_values(|c: Collector| c.description()) == all_descriptions()
    }

    /// Creates all metrics and registers them, so that the registry collects from the very handles
    /// that the fields hold. Nothing has been counted in any of them.
    pub fn new() -> (metrics: Self)
        ensures
            metrics.is_complete(),
            forall|i: int|
                0 <= i < metrics.collectors().len() ==> (
                #[trigger] metrics.collectors()[i]).starts_at_zero(),
    {
        proof {
            law_descriptions_valid();
        }
        let ghost all = all_descriptions();
        let mut registry = new_registry();

        assert(valid_description(all[0]));
        let client_connections_total = new_counter(
            "pgmux_client_connections_total",
            "Total client connections accepted",
        ).unwrap();
        assert(valid_description(all[1]));
        let client_connections_active = new_gauge(
            "pgmux_client_connections_active",
            "Currently active client connections",
        ).unwrap();
        assert(valid_description(all[2]));
        let server_connections_total = new_counter(
            "pgmux_server_connections_total",
            "Total server connections created",
        ).unwrap();
        assert(valid_description(all[3]));
        let server_connections_active = new_gauge(
            "pgmux_server_connections_active",
            "Currently active server connections",
        ).unwrap();
        assert(valid_description(all[4]));
        let server_connection_errors_total = new_counter(
            "pgmux_server_connection_errors_total",
            "Total server connection errors",
        ).unwrap();
        assert(valid_description(all[5]));
        let pool_hits_total = new_counter(
            "pgmux_pool_hits_total",
            "Connections served from pool",
        ).unwrap();
        assert(valid_description(all[6]));
        let pool_misses_total = new_counter(
            "pgmux_pool_misses_total",
            "Connections that required new backend connection",
        ).unwrap();
        assert(valid_description(all[7]));
        let pool_timeouts_total = new_counter(
            "pgmux_pool_timeouts_total",
            "Connection acquire timeouts",
        ).unwrap();
        assert(valid_description(all[8]));
        let db_size_bytes = new_gauge_vec(
            "pgmux_db_size_bytes",
            "Current database size in bytes",
            "database",
        ).unwrap();
        assert(valid_description(all[9]));
        let db_size_limit_bytes = new_gauge_vec(
            "pgmux_db_size_limit_bytes",
            "Configured database size limit in bytes",
            "database",
        ).unwrap();
        assert(valid_description(all[10]));
        let db_over_limit = new_gauge_vec(
            "pgmux_db_over_limit",
            "Whether database is over its size limit (1=over, 0=ok)",
            "database",
        ).unwrap();
        assert(valid_description(all[11]));
        let queries_total = new_counter(
            "pgmux_queries_total",
            "Total queries proxied",
        ).unwrap();
        assert(valid_description(all[12]));
        let queries_read_only_enforced = new_counter(
            "pgmux_queries_read_only_enforced",
            "Queries where read-only was enforced due to size limit",
        ).unwrap();

        // Register all metrics
        add_counter(&mut registry, &client_connections_total, Ghost(0));
        add_gauge(&mut registry, &client_connections_active, Ghost(1));
        add_counter(&mut registry, &server_connections_total, Ghost(2));
        add_gauge(&mut registry, &server_connections_active, Ghost(3));
        add_counter(&mut registry, &server_connection_errors_total, Ghost(4));
        add_counter(&mut registry, &pool_hits_total, Ghost(5));
        add_counter(&mut registry, &pool_misses_total, Ghost(6));
        add_counter(&mut registry, &pool_timeouts_total, Ghost(7));
        add_gauge_vec(&mut registry, &db_size_bytes, Ghost(8));
        add_gauge_vec(&mut registry, &db_size_limit_bytes, Ghost(9));
        add_gauge_vec(&mut registry, &db_over_limit, Ghost(10));
        add_counter(&mut registry, &queries_total, Ghost(11));
        add_counter(&mut registry, &queries_read_only_enforced, Ghost(12));

        let metrics = Metrics {
            registry: hand_out(registry),
            client_connections_total,
            client_connections_active,
            server_connections_total,
            server_connections_active,
            server_connection_errors_total,
            pool_hits_total,
            pool_misses_total,
            pool_timeouts_total,
            db_size_bytes,
            db_size_limit_bytes,
            db_over_limit,
            queries_total,
            queries_read_only_enforced,
        };
        assert(collectors_of(metrics.registry) =~= metrics.collectors());
        assert(metrics.collectors().map_values(|c: Collector| c.description()) =~= all);
        metrics
    }
}

} // verus!
