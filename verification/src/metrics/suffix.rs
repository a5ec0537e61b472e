//! Counters get the suffix of their kind once.

use vstd::prelude::*;

use crate::exposition::{
    counter_line, exposes, gauge_line, introduction, kind_text, label_sets, label_text,
    labels_text, lists_label_sets, metric_text, metrics_text, orders_of, value_line, value_lines,
    Labels, MetricEntry, MetricValue,
};
use crate::metrics::lines::{
    lemma_introduction_ends, lemma_metrics_text_ends, lemma_orders_of_front, lemma_value_lines_end,
};
use crate::metrics::{exposed, initial, is_scrape, MetricsView};
use crate::text::{decimal, digit, signed_decimal};

verus! {

/// Whether a word stands at a place of a text.
pub open spec fn occurs_at(text: Seq<char>, word: Seq<char>, at: int) -> bool {
    &&& 0 <= at
    &&& at + word.len() <= text.len()
    &&& text.subrange(at, at + word.len()) == word
}

/// Whether a word stands somewhere in a text.
pub open spec fn occurs(text: Seq<char>, word: Seq<char>) -> bool {
    exists|at: int| occurs_at(text, word, at)
}

/// Whether a text has the suffix of a counter twice in a row somewhere.
pub open spec fn doubled(text: Seq<char>) -> bool {
    occurs(text, "_total_total"@)
}

spec fn suffix_char(c: char) -> bool {
    c == '_' || c == 't' || c == 'o' || c == 'a' || c == 'l'
}

/// Whether no `_to` begins in `text` at `from` or later.
spec fn clean_from(text: Seq<char>, from: int) -> bool
    decreases text.len() - from,
{
    from + 2 >= text.len() || (!(text[from] == '_' && text[from + 1] == 't' && text[from + 2]
        == 'o') && clean_from(text, from + 1))
}

proof fn lemma_occurrence(text: Seq<char>, at: int)
    requires
        occurs_at(text, "_total_total"@, at),
    ensures
        0 <= at,
        at + 12 <= text.len(),
        text[at] == '_',
        text[at + 1] == 't',
        text[at + 2] == 'o',
        text[at + 6] == '_',
        text[at + 11] == 'l',
        forall|i: int| at <= i < at + 12 ==> suffix_char(#[trigger] text[i]),
        forall|i: int|
            at <= i < at + 12 && #[trigger] text[i] == '_' ==> i == at || i == at + 6,
{
    reveal_strlit("_total_total");
    let word = "_total_total"@;
    let part = text.subrange(at, at + word.len());
    assert(word.len() == 12);
    assert forall|i: int| 0 <= i < 12 implies #[trigger] text[at + i] == word[i] by {
        assert(part[i] == word[i]);
    }
    assert(text[at + 0] == word[0]);
    assert(text[at + 1] == word[1]);
    assert(text[at + 2] == word[2]);
    assert(text[at + 6] == word[6]);
    assert(text[at + 11] == word[11]);
    assert forall|i: int| at <= i < at + 12 implies suffix_char(#[trigger] text[i]) && (text[i]
        == '_' ==> i == at || i == at + 6) by {
        let k = i - at;
        assert(text[at + k] == word[k]);
        assert(k == 0 || k == 1 || k == 2 || k == 3 || k == 4 || k == 5 || k == 6 || k == 7 || k
            == 8 || k == 9 || k == 10 || k == 11);
    }
}

proof fn lemma_clean_is_not_doubled(text: Seq<char>)
    requires
        clean_from(text, 0),
    ensures
        !doubled(text),
{
    if doubled(text) {
        let at = choose|at: int| occurs_at(text, "_total_total"@, at);
        lemma_occurrence(text, at);
        lemma_clean_later(text, 0, at);
    }
}

proof fn lemma_clean_later(text: Seq<char>, from: int, at: int)
    requires
        clean_from(text, from),
        from <= at,
        at + 2 < text.len(),
    ensures
        !(text[at] == '_' && text[at + 1] == 't' && text[at + 2] == 'o'),
    decreases at - from,
{
    if from < at {
        lemma_clean_later(text, from + 1, at);
    }
}

proof fn lemma_joined(front: Seq<char>, back: Seq<char>)
    requires
        !doubled(front),
        !doubled(back),
        front.len() == 0 || back.len() == 0 || !suffix_char(front.last()) || !suffix_char(
            back.first(),
        ),
    ensures
        !doubled(front + back),
{
    let all = front + back;
    if doubled(all) {
        let at = choose|at: int| occurs_at(all, "_total_total"@, at);
        lemma_occurrence(all, at);
        reveal_strlit("_total_total");
        if at + 12 <= front.len() {
            assert(all.subrange(at, at + 12) =~= front.subrange(at, at + 12));
            assert(occurs_at(front, "_total_total"@, at));
        } else if at >= front.len() {
            let inner = at - front.len();
            assert(all.subrange(at, at + 12) =~= back.subrange(inner, inner + 12));
            assert(occurs_at(back, "_total_total"@, inner));
        } else {
            assert(suffix_char(all[front.len() - 1]));
            assert(suffix_char(all[front.len() as int]));
        }
    }
}

proof fn lemma_suffixed_once(name: Seq<char>)
    requires
        !doubled(name),
        name.len() > 0,
        name.last() != 'l',
    ensures
        !doubled(name + "_total"@),
{
    let all = name + "_total"@;
    if doubled(all) {
        let at = choose|at: int| occurs_at(all, "_total_total"@, at);
        lemma_occurrence(all, at);
        reveal_strlit("_total");
        reveal_strlit("_total_total");
        if at + 12 <= name.len() {
            assert(all.subrange(at, at + 12) =~= name.subrange(at, at + 12));
            assert(occurs_at(name, "_total_total"@, at));
        } else {
            assert(all[name.len() as int] == '_');
            assert(at + 6 == name.len());
            lemma_occurrence_middle(all, at);
            assert(all[at + 5] == name.last());
        }
    }
}

proof fn lemma_occurrence_middle(text: Seq<char>, at: int)
    requires
        occurs_at(text, "_total_total"@, at),
    ensures
        text[at + 5] == 'l',
{
    reveal_strlit("_total_total");
    assert(text.subrange(at, at + "_total_total"@.len())[5] == "_total_total"@[5]);
}

proof fn lemma_decimal_is_not_doubled(value: nat)
    ensures
        !doubled(decimal(value)),
        decimal(value).len() > 0,
        !suffix_char(decimal(value).last()),
        !suffix_char(decimal(value).first()),
    decreases value,
{
    let last = seq![digit(value as int % 10)];
    assert(!doubled(last)) by {
        assert(clean_from(last, 0));
        lemma_clean_is_not_doubled(last);
    }
    if value >= 10 {
        lemma_decimal_is_not_doubled(value / 10);
        lemma_joined(decimal(value / 10), last);
        assert(decimal(value / 10) + last =~= decimal(value));
    } else {
        assert(last =~= decimal(value));
    }
}

proof fn lemma_signed_is_not_doubled(value: int)
    ensures
        !doubled(signed_decimal(value)),
{
    if value < 0 {
        lemma_decimal_is_not_doubled((-value) as nat);
        reveal_strlit("-");
        lemma_clean_is_not_doubled("-"@);
        lemma_joined("-"@, decimal((-value) as nat));
    } else {
        lemma_decimal_is_not_doubled(value as nat);
    }
}

/// Whether no part of a label has the suffix twice in a row.
pub open spec fn tidy_labels(labels: Labels) -> bool {
    forall|i: int| 0 <= i < labels.len() ==> tidy_label(#[trigger] labels[i])
}

/// Whether neither name nor value of a label has the suffix twice in a row.
pub open spec fn tidy_label(label: (Seq<char>, Seq<char>)) -> bool {
    !doubled(label.0) && !doubled(label.1)
}

spec fn tidy(entry: MetricEntry) -> bool {
    &&& entry.name.len() > 0
    &&& entry.name.last() != 'l'
    &&& !doubled(entry.name)
    &&& !doubled(entry.help)
}

/// Whether all label sets that a metric shows are tidy.
pub open spec fn tidy_label_sets(entry: MetricEntry) -> bool {
    forall|labels: Labels| #[trigger] label_sets(entry).contains(labels) ==> tidy_labels(labels)
}

proof fn lemma_punctuation()
    ensures
        !doubled(" "@),
        !doubled("\n"@),
        !doubled("{"@),
        !doubled("}"@),
        !doubled(","@),
        !doubled("\""@),
        !doubled("=\""@),
        !doubled("# HELP "@),
        !doubled("# TYPE "@),
        !doubled("# EOF\n"@),
        !doubled("counter"@),
        !doubled("gauge"@),
{
    reveal_with_fuel(clean_from, 10);
    reveal_strlit(" ");
    lemma_clean_is_not_doubled(" "@);
    reveal_strlit("\n");
    lemma_clean_is_not_doubled("\n"@);
    reveal_strlit("{");
    lemma_clean_is_not_doubled("{"@);
    reveal_strlit("}");
    lemma_clean_is_not_doubled("}"@);
    reveal_strlit(",");
    lemma_clean_is_not_doubled(","@);
    reveal_strlit("\"");
    lemma_clean_is_not_doubled("\""@);
    reveal_strlit("=\"");
    lemma_clean_is_not_doubled("=\""@);
    reveal_strlit("# HELP ");
    lemma_clean_is_not_doubled("# HELP "@);
    reveal_strlit("# TYPE ");
    lemma_clean_is_not_doubled("# TYPE "@);
    reveal_strlit("# EOF\n");
    lemma_clean_is_not_doubled("# EOF\n"@);
    reveal_strlit("counter");
    lemma_clean_is_not_doubled("counter"@);
    reveal_strlit("gauge");
    lemma_clean_is_not_doubled("gauge"@);
}

proof fn lemma_label_is_not_doubled(label: (Seq<char>, Seq<char>))
    requires
        tidy_label(label),
    ensures
        !doubled(label_text(label)),
        label_text(label).len() > 0,
        label_text(label).last() == '"',
{
    lemma_punctuation();
    reveal_strlit("=\"");
    reveal_strlit("\"");
    lemma_joined(label.0, "=\""@);
    lemma_joined(label.0 + "=\""@, label.1);
    lemma_joined(label.0 + "=\""@ + label.1, "\""@);
}

proof fn lemma_labels_are_not_doubled(labels: Labels)
    requires
        tidy_labels(labels),
    ensures
        !doubled(labels_text(labels)),
    decreases labels.len(),
{
    if labels.len() == 0 {
        lemma_clean_is_not_doubled(labels_text(labels));
    } else {
        assert(tidy_label(labels[labels.len() - 1]));
        lemma_label_is_not_doubled(labels.last());
        if labels.len() > 1 {
            assert forall|i: int| 0 <= i < labels.drop_last().len() implies tidy_label(
                #[trigger] labels.drop_last()[i],
            ) by {
                assert(tidy_label(labels[i]));
            }
            lemma_labels_are_not_doubled(labels.drop_last());
            lemma_punctuation();
            reveal_strlit(",");
            lemma_joined(labels_text(labels.drop_last()), ","@);
            lemma_joined(
                labels_text(labels.drop_last()) + ","@,
                label_text(labels.last()),
            );
        }
    }
}

/// The labels behind a name: none, or some in braces.
proof fn lemma_braced_is_not_doubled(labels: Labels)
    requires
        tidy_labels(labels),
    ensures
        !doubled("{"@ + labels_text(labels) + "}"@),
        ("{"@ + labels_text(labels) + "}"@).first() == '{',
{
    lemma_punctuation();
    reveal_strlit("{");
    reveal_strlit("}");
    lemma_labels_are_not_doubled(labels);
    lemma_joined("{"@, labels_text(labels));
    lemma_joined("{"@ + labels_text(labels), "}"@);
}

proof fn lemma_counter_line_is_not_doubled(name: Seq<char>, labels: Seq<char>, count: u64)
    requires
        !doubled(name),
        name.len() > 0,
        name.last() != 'l',
        !doubled(labels),
        labels.len() == 0 || labels.first() == '{',
    ensures
        !doubled(counter_line(name, labels, count)),
{
    lemma_punctuation();
    reveal_strlit(" ");
    reveal_strlit("\n");
    lemma_suffixed_once(name);
    lemma_joined(name + "_total"@, labels);
    lemma_joined(name + "_total"@ + labels, " "@);
    lemma_decimal_is_not_doubled(count as nat);
    lemma_joined(name + "_total"@ + labels + " "@, decimal(count as nat));
    lemma_joined(name + "_total"@ + labels + " "@ + decimal(count as nat), "\n"@);
}

proof fn lemma_gauge_line_is_not_doubled(name: Seq<char>, labels: Seq<char>, number: i64)
    requires
        !doubled(name),
        !doubled(labels),
        labels.len() == 0 || labels.first() == '{',
    ensures
        !doubled(gauge_line(name, labels, number)),
{
    lemma_punctuation();
    reveal_strlit(" ");
    reveal_strlit("\n");
    lemma_joined(name, labels);
    lemma_joined(name + labels, " "@);
    lemma_signed_is_not_doubled(number as int);
    lemma_joined(name + labels + " "@, signed_decimal(number as int));
    lemma_joined(name + labels + " "@ + signed_decimal(number as int), "\n"@);
}

proof fn lemma_value_line_is_not_doubled(entry: MetricEntry, labels: Labels)
    requires
        tidy(entry),
        tidy_labels(labels),
    ensures
        !doubled(value_line(entry, labels)),
{
    lemma_braced_is_not_doubled(labels);
    lemma_clean_is_not_doubled(Seq::empty());
    let braced = "{"@ + labels_text(labels) + "}"@;
    match entry.value {
        MetricValue::Counter { count } => {
            lemma_counter_line_is_not_doubled(entry.name, Seq::empty(), count);
        },
        MetricValue::Gauge { number } => {
            lemma_gauge_line_is_not_doubled(entry.name, Seq::empty(), number);
        },
        MetricValue::Counters { counts } => {
            lemma_counter_line_is_not_doubled(entry.name, braced, counts[labels]);
        },
        MetricValue::Gauges { numbers } => {
            lemma_gauge_line_is_not_doubled(entry.name, braced, numbers[labels]);
        },
    }
}

proof fn lemma_value_lines_are_not_doubled(entry: MetricEntry, order: Seq<Labels>)
    requires
        tidy(entry),
        forall|i: int| 0 <= i < order.len() ==> tidy_labels(#[trigger] order[i]),
    ensures
        !doubled(value_lines(entry, order)),
    decreases order.len(),
{
    if order.len() == 0 {
        lemma_clean_is_not_doubled(value_lines(entry, order));
    } else {
        let front = value_lines(entry, order.drop_last());
        assert forall|i: int| 0 <= i < order.drop_last().len() implies tidy_labels(
            #[trigger] order.drop_last()[i],
        ) by {
            assert(tidy_labels(order[i]));
        }
        assert(tidy_labels(order[order.len() - 1]));
        lemma_value_lines_are_not_doubled(entry, order.drop_last());
        lemma_value_line_is_not_doubled(entry, order.last());
        lemma_value_lines_end(entry, order.drop_last());
        lemma_joined(front, value_line(entry, order.last()));
    }
}

proof fn lemma_introduction_is_not_doubled(entry: MetricEntry)
    requires
        tidy(entry),
    ensures
        !doubled(introduction(entry, kind_text(entry.value))),
{
    lemma_punctuation();
    reveal_strlit(" ");
    reveal_strlit("\n");
    reveal_strlit("# HELP ");
    reveal_strlit("# TYPE ");
    let kind = kind_text(entry.value);
    let named = "# HELP "@ + entry.name;
    lemma_joined("# HELP "@, entry.name);
    lemma_joined(named, " "@);
    lemma_joined(named + " "@, entry.help);
    lemma_joined(named + " "@ + entry.help, "\n"@);
    let helped = named + " "@ + entry.help + "\n"@;
    lemma_joined(helped, "# TYPE "@);
    lemma_joined(helped + "# TYPE "@, entry.name);
    lemma_joined(helped + "# TYPE "@ + entry.name, " "@);
    lemma_joined(helped + "# TYPE "@ + entry.name + " "@, kind);
    lemma_joined(helped + "# TYPE "@ + entry.name + " "@ + kind, "\n"@);
}

proof fn lemma_metric_text_is_not_doubled(entry: MetricEntry, order: Seq<Labels>)
    requires
        tidy(entry),
        tidy_label_sets(entry),
        lists_label_sets(order, entry),
    ensures
        !doubled(metric_text(entry, order)),
{
    if order.len() == 0 {
        lemma_clean_is_not_doubled(metric_text(entry, order));
    } else {
        assert forall|i: int| 0 <= i < order.len() implies tidy_labels(#[trigger] order[i]) by {
            assert(order.to_set().contains(order[i]));
        }
        lemma_value_lines_are_not_doubled(entry, order);
        lemma_introduction_is_not_doubled(entry);
        lemma_introduction_ends(entry);
        lemma_joined(introduction(entry, kind_text(entry.value)), value_lines(entry, order));
    }
}

proof fn lemma_metrics_text_is_not_doubled(
    entries: Seq<MetricEntry>,
    orders: Seq<Seq<Labels>>,
)
    requires
        orders_of(orders, entries),
        forall|i: int| 0 <= i < entries.len() ==> tidy(#[trigger] entries[i]),
        forall|i: int| 0 <= i < entries.len() ==> tidy_label_sets(#[trigger] entries[i]),
    ensures
        !doubled(metrics_text(entries, orders)),
    decreases entries.len(),
{
    if entries.len() == 0 {
        lemma_clean_is_not_doubled(metrics_text(entries, orders));
    } else {
        lemma_orders_of_front(orders, entries);
        let front = entries.drop_last();
        assert forall|i: int| 0 <= i < front.len() implies tidy(#[trigger] front[i]) by {
            assert(tidy(entries[i]));
        }
        assert forall|i: int| 0 <= i < front.len() implies tidy_label_sets(
            #[trigger] front[i],
        ) by {
            assert(tidy_label_sets(entries[i]));
        }
        lemma_metrics_text_is_not_doubled(front, orders.drop_last());
        lemma_metrics_text_ends(front, orders.drop_last());
        let last = entries.len() - 1;
        assert(tidy(entries[last]));
        assert(tidy_label_sets(entries[last]));
        assert(lists_label_sets(orders[last], entries[last]));
        lemma_metric_text_is_not_doubled(entries[last], orders[last]);
        lemma_joined(
            metrics_text(front, orders.drop_last()),
            metric_text(entries[last], orders[last]),
        );
    }
}

proof fn lemma_tidy(entry: MetricEntry, name: Seq<char>, help: Seq<char>)
    requires
        entry.name == name,
        entry.help == help.push('.'),
        name.len() > 0,
        name.last() != 'l',
        clean_from(name, 0),
        clean_from(help, 0),
    ensures
        tidy(entry),
{
    lemma_clean_is_not_doubled(name);
    lemma_clean_is_not_doubled(help);
    let stop = seq!['.'];
    assert(clean_from(stop, 0));
    lemma_clean_is_not_doubled(stop);
    lemma_joined(help, stop);
    assert(help + stop =~= help.push('.'));
}

proof fn lemma_first_metrics_are_tidy(view: MetricsView)
    ensures
        forall|i: int|
            0 <= i < 9 ==> tidy(#[trigger] exposed(view)[i]),
{
    reveal_with_fuel(clean_from, 60);
    let entries = exposed(view);
    assert(tidy(entries[0])) by {
        reveal_strlit("wattdog_build_info");
        reveal_strlit("Daemon build information");
        lemma_tidy(
            entries[0],
            "wattdog_build_info"@,
            "Daemon build information"@,
        );
    }
    assert(tidy(entries[1])) by {
        reveal_strlit("wattdog_up");
        reveal_strlit("Whether any scanner transport is running");
        lemma_tidy(
            entries[1],
            "wattdog_up"@,
            "Whether any scanner transport is running"@,
        );
    }
    assert(tidy(entries[2])) by {
        reveal_strlit("wattdog_ble_scanner_running");
        reveal_strlit("Whether BLE scanner transport is running");
        lemma_tidy(
            entries[2],
            "wattdog_ble_scanner_running"@,
            "Whether BLE scanner transport is running"@,
        );
    }
    assert(tidy(entries[3])) by {
        reveal_strlit("wattdog_observations_received");
        reveal_strlit("Observed Thornwave advertisements");
        lemma_tidy(
            entries[3],
            "wattdog_observations_received"@,
            "Observed Thornwave advertisements"@,
        );
    }
    assert(tidy(entries[4])) by {
        reveal_strlit("wattdog_observations_dropped");
        reveal_strlit("Observations dropped before processing");
        lemma_tidy(
            entries[4],
            "wattdog_observations_dropped"@,
            "Observations dropped before processing"@,
        );
    }
    assert(tidy(entries[5])) by {
        reveal_strlit("wattdog_writer_dropped_observations");
        reveal_strlit("Observations dropped before Parquet writer enqueue");
        lemma_tidy(
            entries[5],
            "wattdog_writer_dropped_observations"@,
            "Observations dropped before Parquet writer enqueue"@,
        );
    }
    assert(tidy(entries[6])) by {
        reveal_strlit("wattdog_devices_seen");
        reveal_strlit("Number of Thornwave device serials seen");
        lemma_tidy(
            entries[6],
            "wattdog_devices_seen"@,
            "Number of Thornwave device serials seen"@,
        );
    }
    assert(tidy(entries[7])) by {
        reveal_strlit("wattdog_device_info");
        reveal_strlit("Latest Thornwave device identity information");
        lemma_tidy(
            entries[7],
            "wattdog_device_info"@,
            "Latest Thornwave device identity information"@,
        );
    }
    assert(tidy(entries[8])) by {
        reveal_strlit("wattdog_device_observations_received");
        reveal_strlit("Observed advertisements by device");
        lemma_tidy(
            entries[8],
            "wattdog_device_observations_received"@,
            "Observed advertisements by device"@,
        );
    }
}

proof fn lemma_second_metrics_are_tidy(view: MetricsView)
    ensures
        forall|i: int|
            9 <= i < 18 ==> tidy(#[trigger] exposed(view)[i]),
{
    reveal_with_fuel(clean_from, 60);
    let entries = exposed(view);
    assert(tidy(entries[9])) by {
        reveal_strlit("wattdog_parquet_rows_written");
        reveal_strlit("Rows written to Parquet");
        lemma_tidy(
            entries[9],
            "wattdog_parquet_rows_written"@,
            "Rows written to Parquet"@,
        );
    }
    assert(tidy(entries[10])) by {
        reveal_strlit("wattdog_parquet_batches_written");
        reveal_strlit("Record batches written to Parquet");
        lemma_tidy(
            entries[10],
            "wattdog_parquet_batches_written"@,
            "Record batches written to Parquet"@,
        );
    }
    assert(tidy(entries[11])) by {
        reveal_strlit("wattdog_parquet_write_errors");
        reveal_strlit("Parquet write errors");
        lemma_tidy(
            entries[11],
            "wattdog_parquet_write_errors"@,
            "Parquet write errors"@,
        );
    }
    assert(tidy(entries[12])) by {
        reveal_strlit("wattdog_parquet_active_file_open");
        reveal_strlit("Whether a Parquet active file is open");
        lemma_tidy(
            entries[12],
            "wattdog_parquet_active_file_open"@,
            "Whether a Parquet active file is open"@,
        );
    }
    assert(tidy(entries[13])) by {
        reveal_strlit("wattdog_parquet_active_file_rows");
        reveal_strlit("Rows written to current active Parquet file");
        lemma_tidy(
            entries[13],
            "wattdog_parquet_active_file_rows"@,
            "Rows written to current active Parquet file"@,
        );
    }
    assert(tidy(entries[14])) by {
        reveal_strlit("wattdog_parquet_rolls");
        reveal_strlit("Completed Parquet file rolls");
        lemma_tidy(
            entries[14],
            "wattdog_parquet_rolls"@,
            "Completed Parquet file rolls"@,
        );
    }
    assert(tidy(entries[15])) by {
        reveal_strlit("wattdog_state_stale");
        reveal_strlit("Whether latest state input is stale");
        lemma_tidy(
            entries[15],
            "wattdog_state_stale"@,
            "Whether latest state input is stale"@,
        );
    }
    assert(tidy(entries[16])) by {
        reveal_strlit("wattdog_state_ambiguous");
        reveal_strlit("Whether state conditions are ambiguous");
        lemma_tidy(
            entries[16],
            "wattdog_state_ambiguous"@,
            "Whether state conditions are ambiguous"@,
        );
    }
    assert(tidy(entries[17])) by {
        reveal_strlit("wattdog_state_desired");
        reveal_strlit("Desired state: on=1, off=0, unknown=-1");
        lemma_tidy(
            entries[17],
            "wattdog_state_desired"@,
            "Desired state: on=1, off=0, unknown=-1"@,
        );
    }
}

proof fn lemma_third_metrics_are_tidy(view: MetricsView)
    ensures
        forall|i: int|
            18 <= i < 26 ==> tidy(#[trigger] exposed(view)[i]),
{
    reveal_with_fuel(clean_from, 60);
    let entries = exposed(view);
    assert(tidy(entries[18])) by {
        reveal_strlit("wattdog_state_applied");
        reveal_strlit("Applied state: on=1, off=0, unknown=-1");
        lemma_tidy(
            entries[18],
            "wattdog_state_applied"@,
            "Applied state: on=1, off=0, unknown=-1"@,
        );
    }
    assert(tidy(entries[19])) by {
        reveal_strlit("wattdog_state_pending");
        reveal_strlit("Whether an action is pending");
        lemma_tidy(
            entries[19],
            "wattdog_state_pending"@,
            "Whether an action is pending"@,
        );
    }
    assert(tidy(entries[20])) by {
        reveal_strlit("wattdog_state_default");
        reveal_strlit("Configured default state: on=1, off=0");
        lemma_tidy(
            entries[20],
            "wattdog_state_default"@,
            "Configured default state: on=1, off=0"@,
        );
    }
    assert(tidy(entries[21])) by {
        reveal_strlit("wattdog_state_transitions");
        reveal_strlit("State desired transitions");
        lemma_tidy(
            entries[21],
            "wattdog_state_transitions"@,
            "State desired transitions"@,
        );
    }
    assert(tidy(entries[22])) by {
        reveal_strlit("wattdog_http_attempts");
        reveal_strlit("HTTP action attempts");
        lemma_tidy(
            entries[22],
            "wattdog_http_attempts"@,
            "HTTP action attempts"@,
        );
    }
    assert(tidy(entries[23])) by {
        reveal_strlit("wattdog_http_pending");
        reveal_strlit("Whether an HTTP action is pending");
        lemma_tidy(
            entries[23],
            "wattdog_http_pending"@,
            "Whether an HTTP action is pending"@,
        );
    }
    assert(tidy(entries[24])) by {
        reveal_strlit("wattdog_action_wait_timeouts");
        reveal_strlit("JSON waits that reached their deadline");
        lemma_tidy(
            entries[24],
            "wattdog_action_wait_timeouts"@,
            "JSON waits that reached their deadline"@,
        );
    }
    assert(tidy(entries[25])) by {
        reveal_strlit("wattdog_action_sequence_step");
        reveal_strlit("Current action sequence step, none=-1");
        lemma_tidy(
            entries[25],
            "wattdog_action_sequence_step"@,
            "Current action sequence step, none=-1"@,
        );
    }
}

/// A scrape has the suffix of a counter twice in a row only where a label or a further
/// metric brings it along: no metric name ends in the suffix that its counter gets.
pub proof fn law_suffix_is_not_doubled(text: Seq<char>, view: MetricsView, further: Seq<char>)
    requires
        is_scrape(text, view, further),
        !doubled(further),
        forall|i: int|
            0 <= i < exposed(view).len() ==> tidy_label_sets(#[trigger] exposed(view)[i]),
    ensures
        !doubled(text),
{
    let entries = exposed(view);
    let own = choose|own: Seq<char>| #[trigger]
        exposes(own, entries) && text == own + further + "# EOF\n"@;
    let orders = choose|orders: Seq<Seq<Labels>>| #[trigger]
        orders_of(orders, entries) && own == metrics_text(entries, orders);
    lemma_first_metrics_are_tidy(view);
    lemma_second_metrics_are_tidy(view);
    lemma_third_metrics_are_tidy(view);
    assert(entries.len() == 26);
    lemma_metrics_text_is_not_doubled(entries, orders);
    lemma_metrics_text_ends(entries, orders);
    lemma_joined(own, further);
    lemma_punctuation();
    reveal_strlit("# EOF\n");
    lemma_joined(own + further, "# EOF\n"@);
}

/// In the text of a daemon that has just started, the suffix of a counter is nowhere twice
/// in a row, unless the version has it so.
pub proof fn law_new_metrics_have_no_doubled_suffix(text: Seq<char>, version: Seq<char>)
    requires
        is_scrape(text, initial(version), Seq::empty()),
        !doubled(version),
    ensures
        !doubled(text),
{
    let entries = exposed(initial(version));
    assert forall|i: int| 0 <= i < entries.len() implies tidy_label_sets(
        #[trigger] entries[i],
    ) by {
        assert forall|labels: Labels| #[trigger]
            label_sets(entries[i]).contains(labels) implies tidy_labels(labels) by {
            reveal_strlit("version");
            reveal_with_fuel(clean_from, 10);
            lemma_clean_is_not_doubled("version"@);
            assert(labels == seq![("version"@, version)] || labels == Seq::<
                (Seq<char>, Seq<char>),
            >::empty());
        }
    }
    lemma_clean_is_not_doubled(Seq::empty());
    law_suffix_is_not_doubled(text, initial(version), Seq::empty());
}

} // verus!
