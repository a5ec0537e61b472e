//! Counters and gauges together with the registry that exposes them as text.
//!
//! An exposition owns its registry and the handle of every metric in it, so what is counted
//! or set is what the text shows.

use prometheus_client::encoding::text::{encode_eof, encode_registry};
use prometheus_client::metrics::counter::Counter;
use prometheus_client::metrics::family::Family;
use prometheus_client::metrics::gauge::Gauge;
use prometheus_client::registry::Registry;
use vstd::prelude::*;

use crate::text::{decimal, signed_decimal};

verus! {

/// `std::fmt::Error`: text could not be written.
#[verifier::external_type_specification]
#[verifier::external_body]
pub struct ExFormatError(std::fmt::Error);

/// The handles that a metric may have: a counter, a gauge, or a `Family` of either, with one
/// for each label set. The registry has the one that suits the kind of the metric.
#[derive(Debug, Default)]
#[verifier::external_body]
struct Slot {
    counter: Counter,
    gauge: Gauge,
    counters: Family<Vec<(String, String)>, Counter>,
    gauges: Family<Vec<(String, String)>, Gauge>,
}

/// `prometheus_client::registry::Registry` with the handles of its metrics, in the order of
/// registration. Nothing else has these handles.
#[derive(Debug)]
#[verifier::external_body]
pub struct Exposition {
    registry: Registry,
    slots: Vec<Slot>,
}

/// Label names with their values, in order.
pub type Labels = Seq<(Seq<char>, Seq<char>)>;

/// The value of a metric.
pub enum MetricValue {
    /// A value that is only increased.
    Counter {
        /// How often it was increased.
        count: u64,
    },
    /// A value that is set.
    Gauge {
        /// What it was set to.
        number: i64,
    },
    /// A counter for each label set.
    Counters {
        /// The count of each label set.
        counts: Map<Labels, u64>,
    },
    /// A gauge for each label set.
    Gauges {
        /// The number of each label set.
        numbers: Map<Labels, i64>,
    },
}

/// A metric of an exposition.
pub struct MetricEntry {
    /// Name of the metric.
    pub name: Seq<char>,
    /// Help text of the metric.
    pub help: Seq<char>,
    /// Its value.
    pub value: MetricValue,
}

/// The metrics of an exposition, in the order of registration.
pub uninterp spec fn shown(exposition: Exposition) -> Seq<MetricEntry>;

/// The metrics after one of them got another value.
pub open spec fn revalued(
    entries: Seq<MetricEntry>,
    index: int,
    value: MetricValue,
) -> Seq<MetricEntry> {
    entries.update(index, MetricEntry { value, ..entries[index] })
}

/// A new metric. Its help text gets a full stop.
pub open spec fn metric(name: Seq<char>, help: Seq<char>, value: MetricValue) -> MetricEntry {
    MetricEntry { name, help: help.push('.'), value }
}

/// A 64-bit count after `amount` more, which starts again at zero when it overflows.
pub open spec fn increased(count: u64, amount: u64) -> u64 {
    ((count + amount) % 0x1_0000_0000_0000_0000) as u64
}

/// The count of one label set after one more. A label set that was not there counts from
/// zero.
pub open spec fn counted(counts: Map<Labels, u64>, labels: Labels) -> Map<Labels, u64> {
    counts.insert(
        labels,
        increased(
            if counts.contains_key(labels) {
                counts[labels]
            } else {
                0
            },
            1,
        ),
    )
}

/// The counts of a family without label sets.
pub open spec fn no_counts() -> Map<Labels, u64> {
    Map::empty()
}

/// The values of a family without label sets.
pub open spec fn no_values() -> Map<Labels, i64> {
    Map::empty()
}

/// A label as text.
pub open spec fn label_text(label: (Seq<char>, Seq<char>)) -> Seq<char> {
    label.0 + "=\""@ + label.1 + "\""@
}

/// Labels as text, with commas between them.
pub open spec fn labels_text(labels: Labels) -> Seq<char>
    decreases labels.len(),
{
    if labels.len() == 0 {
        Seq::empty()
    } else if labels.len() == 1 {
        label_text(labels[0])
    } else {
        labels_text(labels.drop_last()) + ","@ + label_text(labels.last())
    }
}

/// The line for the value of a counter, where `labels` stands behind the name.
pub open spec fn counter_line(name: Seq<char>, labels: Seq<char>, count: u64) -> Seq<char> {
    name + "_total"@ + labels + " "@ + decimal(count as nat) + "\n"@
}

/// The line for the value of a gauge, where `labels` stands behind the name.
pub open spec fn gauge_line(name: Seq<char>, labels: Seq<char>, number: i64) -> Seq<char> {
    name + labels + " "@ + signed_decimal(number as int) + "\n"@
}

/// The lines that introduce a metric of some type.
pub open spec fn introduction(entry: MetricEntry, kind: Seq<char>) -> Seq<char> {
    "# HELP "@ + entry.name + " "@ + entry.help + "\n"@ + "# TYPE "@ + entry.name + " "@ + kind
        + "\n"@
}

/// The label sets of a metric. A metric that is no family has the empty one alone, which is
/// not written.
pub open spec fn label_sets(entry: MetricEntry) -> Set<Labels> {
    match entry.value {
        MetricValue::Counters { counts } => counts.dom(),
        MetricValue::Gauges { numbers } => numbers.dom(),
        _ => Set::empty().insert(Seq::empty()),
    }
}

/// The line for one label set of a metric.
pub open spec fn value_line(entry: MetricEntry, labels: Labels) -> Seq<char> {
    let braced = "{"@ + labels_text(labels) + "}"@;
    match entry.value {
        MetricValue::Counter { count } => counter_line(entry.name, Seq::empty(), count),
        MetricValue::Gauge { number } => gauge_line(entry.name, Seq::empty(), number),
        MetricValue::Counters { counts } => counter_line(entry.name, braced, counts[labels]),
        MetricValue::Gauges { numbers } => gauge_line(entry.name, braced, numbers[labels]),
    }
}

/// The type of a metric.
pub open spec fn kind_text(value: MetricValue) -> Seq<char> {
    match value {
        MetricValue::Counter { .. } => "counter"@,
        MetricValue::Counters { .. } => "counter"@,
        MetricValue::Gauge { .. } => "gauge"@,
        MetricValue::Gauges { .. } => "gauge"@,
    }
}

/// Whether a sequence holds each label set of a metric once.
pub open spec fn lists_label_sets(order: Seq<Labels>, entry: MetricEntry) -> bool {
    &&& order.no_duplicates()
    &&& order.to_set() == label_sets(entry)
}

/// The lines for some label sets of a metric, in their order.
pub open spec fn value_lines(entry: MetricEntry, order: Seq<Labels>) -> Seq<char>
    decreases order.len(),
{
    if order.len() == 0 {
        Seq::empty()
    } else {
        value_lines(entry, order.drop_last()) + value_line(entry, order.last())
    }
}

/// The text of a metric whose label sets come in a given order. A family without label sets
/// has none.
pub open spec fn metric_text(entry: MetricEntry, order: Seq<Labels>) -> Seq<char> {
    if order.len() == 0 {
        Seq::empty()
    } else {
        introduction(entry, kind_text(entry.value)) + value_lines(entry, order)
    }
}

/// The texts of some metrics, one after the other. The label sets of each come in a given
/// order.
pub open spec fn metrics_text(entries: Seq<MetricEntry>, orders: Seq<Seq<Labels>>) -> Seq<char>
    decreases entries.len(),
{
    if entries.len() == 0 {
        Seq::empty()
    } else {
        metrics_text(entries.drop_last(), orders.drop_last()) + metric_text(
            entries.last(),
            orders.last(),
        )
    }
}

/// Whether there is an order of the label sets for each metric.
pub open spec fn orders_of(orders: Seq<Seq<Labels>>, entries: Seq<MetricEntry>) -> bool {
    &&& orders.len() == entries.len()
    &&& forall|i: int| 0 <= i < entries.len() ==> lists_label_sets(#[trigger] orders[i], entries[i])
}

/// Whether a text exposes these metrics, for some order of the label sets of each.
pub open spec fn exposes(text: Seq<char>, entries: Seq<MetricEntry>) -> bool {
    exists|orders: Seq<Seq<Labels>>| #[trigger]
        orders_of(orders, entries) && text == metrics_text(entries, orders)
}

/// `Registry::default`: no metrics.
#[verifier::external_body]
pub(crate) fn new_exposition() -> (exposition: Exposition)
    ensures
        shown(exposition) == Seq::<MetricEntry>::empty(),
{
    Exposition { registry: Registry::default(), slots: Vec::new() }
}

/// `Registry::register` of a new `Counter`: one more metric, a counter at zero.
#[verifier::external_body]
pub(crate) fn add_counter(exposition: &mut Exposition, name: &str, help: &str)
    ensures
        shown(*final(exposition)) == shown(*old(exposition)).push(
            metric(name@, help@, MetricValue::Counter { count: 0 }),
        ),
{
    let slot = Slot::default();
    exposition.registry.register(name, help, slot.counter.clone());
    exposition.slots.push(slot);
}

/// `Registry::register` of a new `Gauge`: one more metric, a gauge at zero.
#[verifier::external_body]
pub(crate) fn add_gauge(exposition: &mut Exposition, name: &str, help: &str)
    ensures
        shown(*final(exposition)) == shown(*old(exposition)).push(
            metric(name@, help@, MetricValue::Gauge { number: 0 }),
        ),
{
    let slot = Slot::default();
    exposition.registry.register(name, help, slot.gauge.clone());
    exposition.slots.push(slot);
}

/// `Registry::register` of a new `Family` of counters: one more metric, without label sets.
#[verifier::external_body]
pub(crate) fn add_counters(exposition: &mut Exposition, name: &str, help: &str)
    ensures
        shown(*final(exposition)) == shown(*old(exposition)).push(
            metric(name@, help@, MetricValue::Counters { counts: no_counts() }),
        ),
{
    let slot = Slot::default();
    exposition.registry.register(name, help, slot.counters.clone());
    exposition.slots.push(slot);
}

/// `Registry::register` of a new `Family` of gauges: one more metric, without label sets.
#[verifier::external_body]
pub(crate) fn add_gauges(exposition: &mut Exposition, name: &str, help: &str)
    ensures
        shown(*final(exposition)) == shown(*old(exposition)).push(
            metric(name@, help@, MetricValue::Gauges { numbers: no_values() }),
        ),
{
    let slot = Slot::default();
    exposition.registry.register(name, help, slot.gauges.clone());
    exposition.slots.push(slot);
}

/// `Counter::inc_by`: `amount` more. The other metrics stay as they are.
#[verifier::external_body]
pub(crate) fn counter_inc_by(exposition: &mut Exposition, index: usize, amount: u64)
    requires
        index < shown(*old(exposition)).len(),
        shown(*old(exposition))[index as int].value is Counter,
    ensures
        shown(*final(exposition)) == revalued(
            shown(*old(exposition)),
            index as int,
            MetricValue::Counter {
                count: increased(shown(*old(exposition))[index as int].value->count, amount),
            },
        ),
    no_unwind
{
    exposition.slots[index].counter.inc_by(amount);
}

/// `Gauge::set`: the gauge has this value. The other metrics stay as they are.
#[verifier::external_body]
pub(crate) fn gauge_set(exposition: &mut Exposition, index: usize, number: i64)
    requires
        index < shown(*old(exposition)).len(),
        shown(*old(exposition))[index as int].value is Gauge,
    ensures
        shown(*final(exposition)) == revalued(
            shown(*old(exposition)),
            index as int,
            MetricValue::Gauge { number },
        ),
    no_unwind
{
    exposition.slots[index].gauge.set(number);
}

/// `Gauge::get`: the value that the gauge has.
#[verifier::external_body]
pub(crate) fn gauge_get(exposition: &Exposition, index: usize) -> (number: i64)
    requires
        index < shown(*exposition).len(),
        shown(*exposition)[index as int].value is Gauge,
    ensures
        number == shown(*exposition)[index as int].value->number,
{
    exposition.slots[index].gauge.get()
}

/// `Family::get_or_create` and `Counter::inc`: one more for this label set, which counts
/// from zero when it was not there. The other label sets and metrics stay as they are.
#[verifier::external_body]
pub(crate) fn counters_inc(
    exposition: &mut Exposition,
    index: usize,
    labels: &Vec<(String, String)>,
)
    requires
        index < shown(*old(exposition)).len(),
        shown(*old(exposition))[index as int].value is Counters,
    ensures
        shown(*final(exposition)) == revalued(
            shown(*old(exposition)),
            index as int,
            MetricValue::Counters {
                counts: counted(
                    shown(*old(exposition))[index as int].value->counts,
                    labels.deep_view(),
                ),
            },
        ),
    no_unwind
{
    exposition.slots[index].counters.get_or_create(labels).inc();
}

/// `Family::get_or_create` and `Gauge::set`: this label set has this value. The other label
/// sets and metrics stay as they are.
#[verifier::external_body]
pub(crate) fn gauges_set(
    exposition: &mut Exposition,
    index: usize,
    labels: &Vec<(String, String)>,
    number: i64,
)
    requires
        index < shown(*old(exposition)).len(),
        shown(*old(exposition))[index as int].value is Gauges,
    ensures
        shown(*final(exposition)) == revalued(
            shown(*old(exposition)),
            index as int,
            MetricValue::Gauges {
                numbers: shown(*old(exposition))[index as int].value->numbers.insert(
                    labels.deep_view(),
                    number,
                ),
            },
        ),
    no_unwind
{
    exposition.slots[index].gauges.get_or_create(labels).set(number);
}

/// `Family::remove`: this label set is no longer there. The other label sets and metrics
/// stay as they are.
#[verifier::external_body]
pub(crate) fn gauges_remove(
    exposition: &mut Exposition,
    index: usize,
    labels: &Vec<(String, String)>,
)
    requires
        index < shown(*old(exposition)).len(),
        shown(*old(exposition))[index as int].value is Gauges,
    ensures
        shown(*final(exposition)) == revalued(
            shown(*old(exposition)),
            index as int,
            MetricValue::Gauges {
                numbers: shown(*old(exposition))[index as int].value->numbers.remove(
                    labels.deep_view(),
                ),
            },
        ),
    no_unwind
{
    exposition.slots[index].gauges.remove(labels);
}

/// `encoding::text::encode_registry`: the text that exposes the metrics, in order. The label
/// sets of a family come in the order of a hash map, so each call has an order of its own.
/// Label values are written as they are. The encoders of counters, gauges and families pass
/// on the errors of the writer and make none of their own, and `fmt::Write` for `String`
/// never returns an error, so there always is a text.
#[verifier::external_body]
pub(crate) fn encode_metrics(exposition: &Exposition) -> (text: Result<String, std::fmt::Error>)
    ensures
        text is Ok,
        exposes(text->Ok_0@, shown(*exposition)),
{
    let mut output = String::new();
    encode_registry(&mut output, &exposition.registry)?;
    Ok(output)
}

/// `encoding::text::encode_eof`: the marker of the end, behind the text so far. `fmt::Write`
/// for `String` never returns an error.
#[verifier::external_body]
pub(crate) fn encode_end(text: &mut String) -> (result: Result<(), std::fmt::Error>)
    ensures
        result is Ok,
        final(text)@ == old(text)@ + "# EOF\n"@,
{
    encode_eof(text)
}

} // verus!
