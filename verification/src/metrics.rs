//! Metrics in the Prometheus text format.

use vstd::prelude::*;
use vstd::string::*;

verus! {

/// Failure of the metrics crate; opaque here.
#[verifier::external_type_specification]
#[verifier::external_body]
pub struct ExMetricsError(prometheus::Error);

/// A character that a metric name may start with: an ASCII letter, `_` or `:`.
pub open spec fn starts_name(c: char) -> bool {
    'a' <= c <= 'z' || 'A' <= c <= 'Z' || c == '_' || c == ':'
}

/// A metric name: not empty, and of letters, `_`, `:` and, but for its start, digits.
pub open spec fn is_metric_name(name: Seq<char>) -> bool {
    &&& name.len() > 0
    &&& starts_name(name[0])
    &&& forall|i: int|
        0 < i < name.len() ==> starts_name(#[trigger] name[i]) || '0' <= name[i] <= '9'
}

/// The text of a counter without labels.
pub uninterp spec fn counter_text(name: Seq<char>, help: Seq<char>, value: u64) -> Seq<char>;

/// The text of a gauge without labels.
pub uninterp spec fn gauge_text(name: Seq<char>, help: Seq<char>, value: i64) -> Seq<char>;

/// Calls `prometheus::TextEncoder::encode_to_string` on an `IntCounter` of the given name,
/// help and value. It fails exactly if the name is no metric name or the help is empty; the
/// text depends on the three arguments alone and is called [`counter_text`].
#[verifier::external_body]
fn encode_counter(name: &str, help: &str, value: u64) -> (text: Result<String, prometheus::Error>)
    ensures
        text is Ok <==> (is_metric_name(name@) && help@.len() > 0),
        text matches Ok(t) ==> t@ == counter_text(name@, help@, value),
{
    let counter = prometheus::IntCounter::new(name, help)?;
    counter.inc_by(value);
    let families = prometheus::core::Collector::collect(&counter);
    prometheus::TextEncoder::new().encode_to_string(&families)
}

/// Calls `prometheus::TextEncoder::encode_to_string` on an `IntGauge` of the given name,
/// help and value. It fails exactly if the name is no metric name or the help is empty; the
/// text depends on the three arguments alone and is called [`gauge_text`].
#[verifier::external_body]
fn encode_gauge(name: &str, help: &str, value: i64) -> (text: Result<String, prometheus::Error>)
    ensures
        text is Ok <==> (is_metric_name(name@) && help@.len() > 0),
        text matches Ok(t) ==> t@ == gauge_text(name@, help@, value),
{
    let gauge = prometheus::IntGauge::new(name, help)?;
    gauge.set(value);
    let families = prometheus::core::Collector::collect(&gauge);
    prometheus::TextEncoder::new().encode_to_string(&families)
}

/// The text of a counter whose name and help are in order.
fn counter(name: &str, help: &str, value: u64) -> (text: String)
    requires
        is_metric_name(name@),
        help@.len() > 0,
    ensures
        text@ == counter_text(name@, help@, value),
{
    match encode_counter(name, help, value) {
        Ok(text) => text,
        Err(_) => String::new(),
    }
}

/// The text of a gauge whose name and help are in order.
fn gauge(name: &str, help: &str, value: i64) -> (text: String)
    requires
        is_metric_name(name@),
        help@.len() > 0,
    ensures
        text@ == gauge_text(name@, help@, value),
{
    match encode_gauge(name, help, value) {
        Ok(text) => text,
        Err(_) => String::new(),
    }
}

/// The numbers that a server reports.
pub struct Counts {
    pub active_connections: i64,
    pub connections_created: u64,
    pub connections_reused: u64,
    pub requests_failed: u64,
    pub requests_successful: u64,
    pub requests_total: u64,
}

/// The text of each metric, from the numbers and from the text of the histogram of
/// request durations.
pub struct MetricTexts {
    pub active_connections: String,
    pub connections_created: String,
    pub connections_reused: String,
    pub request_duration: String,
    pub requests_failed: String,
    pub requests_successful: String,
    pub requests_total: String,
}

/// The metrics one after the other, in the order of their names.
pub fn metrics_page(texts: &MetricTexts) -> (page: String)
    ensures
        page@ == texts.active_connections@ + texts.connections_created@ + texts.connections_reused@
            + texts.request_duration@ + texts.requests_failed@ + texts.requests_successful@
            + texts.requests_total@,
{
    texts.active_connections.clone().concat(texts.connections_created.as_str()).concat(
        texts.connections_reused.as_str(),
    ).concat(texts.request_duration.as_str()).concat(texts.requests_failed.as_str()).concat(
        texts.requests_successful.as_str(),
    ).concat(texts.requests_total.as_str())
}

/// The part of the page that reports on connections.
pub open spec fn connections_page(counts: Counts) -> Seq<char> {
    gauge_text(
        "pool_active_connections"@,
        "Active connections"@,
        counts.active_connections,
    ) + counter_text(
        "pool_connections_created"@,
        "Total connections created"@,
        counts.connections_created,
    ) + counter_text(
        "pool_connections_reused"@,
        "Total connections reused"@,
        counts.connections_reused,
    )
}

/// The page that reports `counts` and the text of the duration histogram.
pub open spec fn page_of(counts: Counts, request_duration: Seq<char>) -> Seq<char> {
    connections_page(counts) + request_duration + counter_text(
        "proxy_requests_failed"@,
        "Failed requests"@,
        counts.requests_failed,
    ) + counter_text(
        "proxy_requests_successful"@,
        "Successful requests"@,
        counts.requests_successful,
    ) + counter_text("proxy_requests_total"@, "Total requests"@, counts.requests_total)
}

/// What the page says: each number under its own name and help, in the order of the names, and
/// the text of the histogram as it came in between.
pub proof fn page_names_every_number(counts: Counts, request_duration: Seq<char>)
    ensures
        page_of(counts, request_duration) == gauge_text(
            "pool_active_connections"@,
            "Active connections"@,
            counts.active_connections,
        ) + counter_text(
            "pool_connections_created"@,
            "Total connections created"@,
            counts.connections_created,
        ) + counter_text(
            "pool_connections_reused"@,
            "Total connections reused"@,
            counts.connections_reused,
        ) + request_duration + counter_text(
            "proxy_requests_failed"@,
            "Failed requests"@,
            counts.requests_failed,
        ) + counter_text(
            "proxy_requests_successful"@,
            "Successful requests"@,
            counts.requests_successful,
        ) + counter_text("proxy_requests_total"@, "Total requests"@, counts.requests_total),
{
}

/// The positions in a short text, one by one.
proof fn lemma_short_positions(i: int)
    ensures
        0 <= i < 26 ==> i == 0 || i == 1 || i == 2 || i == 3 || i == 4 || i == 5 || i == 6 || i == 7
            || i == 8 || i == 9 || i == 10 || i == 11 || i == 12 || i == 13 || i == 14 || i == 15
            || i == 16 || i == 17 || i == 18 || i == 19 || i == 20 || i == 21 || i == 22 || i == 23
            || i == 24 || i == 25,
{
}

/// The names and the help texts are in order.
proof fn lemma_names_in_order()
    ensures
        is_metric_name("pool_active_connections"@),
        is_metric_name("pool_connections_created"@),
        is_metric_name("pool_connections_reused"@),
        is_metric_name("proxy_requests_failed"@),
        is_metric_name("proxy_requests_successful"@),
        is_metric_name("proxy_requests_total"@),
        "Active connections"@.len() > 0,
        "Total connections created"@.len() > 0,
        "Total connections reused"@.len() > 0,
        "Failed requests"@.len() > 0,
        "Successful requests"@.len() > 0,
        "Total requests"@.len() > 0,
{
    reveal_strlit("pool_active_connections");
    reveal_strlit("pool_connections_created");
    reveal_strlit("pool_connections_reused");
    reveal_strlit("proxy_requests_failed");
    reveal_strlit("proxy_requests_successful");
    reveal_strlit("proxy_requests_total");
    reveal_strlit("Active connections");
    reveal_strlit("Total connections created");
    reveal_strlit("Total connections reused");
    reveal_strlit("Failed requests");
    reveal_strlit("Successful requests");
    reveal_strlit("Total requests");
    let names = seq![
        "pool_active_connections"@,
        "pool_connections_created"@,
        "pool_connections_reused"@,
        "proxy_requests_failed"@,
        "proxy_requests_successful"@,
        "proxy_requests_total"@,
    ];
    assert forall|n: int, i: int| 0 <= n < 6 && 0 < i < names[n].len() implies starts_name(
        #[trigger] names[n][i],
    ) by {
        lemma_short_positions(i);
    }
    assert forall|n: int| 0 <= n < 6 implies is_metric_name(#[trigger] names[n]) by {}
    assert(is_metric_name(names[0]) && is_metric_name(names[1]) && is_metric_name(names[2])
        && is_metric_name(names[3]) && is_metric_name(names[4]) && is_metric_name(names[5]));
}

/// Reports `counts` and the text of the duration histogram.
pub fn render(counts: &Counts, request_duration: &str) -> (page: String)
    ensures
        page@ == page_of(*counts, request_duration@),
{
    proof {
        lemma_names_in_order();
    }
    metrics_page(
        &MetricTexts {
            active_connections: gauge(
                "pool_active_connections",
                "Active connections",
                counts.active_connections,
            ),
            connections_created: counter(
                "pool_connections_created",
                "Total connections created",
                counts.connections_created,
            ),
            connections_reused: counter(
                "pool_connections_reused",
                "Total connections reused",
                counts.connections_reused,
            ),
            request_duration: request_duration.to_string(),
            requests_failed: counter(
                "proxy_requests_failed",
                "Failed requests",
                counts.requests_failed,
            ),
            requests_successful: counter(
                "proxy_requests_successful",
                "Successful requests",
                counts.requests_successful,
            ),
            requests_total: counter(
                "proxy_requests_total",
                "Total requests",
                counts.requests_total,
            ),
        },
    )
}

} // verus!
