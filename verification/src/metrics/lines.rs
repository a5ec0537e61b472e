//! Which lines the text of the metrics has.

use vstd::prelude::*;

use crate::exposition::{
    counter_line, exposes, gauge_line, introduction, kind_text, label_sets, label_text,
    labels_text, lists_label_sets, metric_text, metrics_text, orders_of, value_line, value_lines,
    Labels, MetricEntry, MetricValue,
};
use crate::metrics::board::{
    BUILD_INFO, DEVICES_SEEN, OBSERVATIONS_DROPPED, OBSERVATIONS_RECEIVED,
    PARQUET_ACTIVE_FILE_OPEN, PARQUET_ACTIVE_FILE_ROWS, PARQUET_BATCHES_WRITTEN, PARQUET_ROLLS,
    PARQUET_ROWS_WRITTEN, PARQUET_WRITE_ERRORS, SCANNER_BLE_RUNNING, SCANNER_RUNNING,
    WRITER_DROPPED_OBSERVATIONS,
};
use crate::metrics::{exposed, initial, is_scrape, MetricsView};
use crate::text::decimal;

verus! {

/// Whether a text is empty or ends with the end of a line.
pub open spec fn ends_line(text: Seq<char>) -> bool {
    text.len() == 0 || text.last() == '\n'
}

/// Whether a line stands in a text behind `before`, where a line begins, and in front of
/// `after`.
pub open spec fn stands_between(
    text: Seq<char>,
    before: Seq<char>,
    line: Seq<char>,
    after: Seq<char>,
) -> bool {
    &&& text == before + line + after
    &&& ends_line(before)
    &&& ends_line(line)
}

/// Whether a text has a line, which includes its end.
pub open spec fn has_line(text: Seq<char>, line: Seq<char>) -> bool {
    exists|before: Seq<char>, after: Seq<char>| stands_between(text, before, line, after)
}

proof fn lemma_line_stays(front: Seq<char>, text: Seq<char>, back: Seq<char>, line: Seq<char>)
    requires
        ends_line(front),
        has_line(text, line),
    ensures
        has_line(front + text + back, line),
{
    let (before, after) = choose|before: Seq<char>, after: Seq<char>|
        stands_between(text, before, line, after);
    assert(front + text + back =~= (front + before) + line + (after + back));
    assert(stands_between(front + text + back, front + before, line, after + back));
}

proof fn lemma_ends_joined(front: Seq<char>, back: Seq<char>)
    requires
        ends_line(front),
        ends_line(back),
    ensures
        ends_line(front + back),
{
    if back.len() == 0 {
        assert(front + back =~= front);
    }
}

proof fn lemma_value_line_ends(entry: MetricEntry, labels: Labels)
    ensures
        ends_line(value_line(entry, labels)),
{
    reveal_strlit("\n");
}

pub(crate) proof fn lemma_value_lines_end(entry: MetricEntry, order: Seq<Labels>)
    ensures
        ends_line(value_lines(entry, order)),
    decreases order.len(),
{
    if order.len() > 0 {
        lemma_value_lines_end(entry, order.drop_last());
        lemma_value_line_ends(entry, order.last());
        lemma_ends_joined(
            value_lines(entry, order.drop_last()),
            value_line(entry, order.last()),
        );
    }
}

pub(crate) proof fn lemma_introduction_ends(entry: MetricEntry)
    ensures
        ends_line(introduction(entry, kind_text(entry.value))),
{
    reveal_strlit("\n");
}

pub(crate) proof fn lemma_metrics_text_ends(entries: Seq<MetricEntry>, orders: Seq<Seq<Labels>>)
    requires
        entries.len() == orders.len(),
    ensures
        ends_line(metrics_text(entries, orders)),
    decreases entries.len(),
{
    if entries.len() > 0 {
        let entry = entries.last();
        let order = orders.last();
        lemma_metrics_text_ends(entries.drop_last(), orders.drop_last());
        lemma_introduction_ends(entry);
        lemma_value_lines_end(entry, order);
        lemma_ends_joined(
            introduction(entry, kind_text(entry.value)),
            value_lines(entry, order),
        );
        lemma_ends_joined(
            metrics_text(entries.drop_last(), orders.drop_last()),
            metric_text(entry, order),
        );
    }
}

proof fn lemma_value_lines_have(entry: MetricEntry, order: Seq<Labels>, labels: Labels)
    requires
        order.contains(labels),
    ensures
        has_line(value_lines(entry, order), value_line(entry, labels)),
    decreases order.len(),
{
    let line = value_line(entry, labels);
    let front = value_lines(entry, order.drop_last());
    lemma_value_lines_end(entry, order.drop_last());
    lemma_value_line_ends(entry, labels);
    if order.last() == labels {
        assert(value_lines(entry, order) =~= front + line + Seq::empty());
        assert(stands_between(value_lines(entry, order), front, line, Seq::empty()));
    } else {
        let at = choose|at: int| 0 <= at < order.len() && order[at] == labels;
        assert(order.drop_last()[at] == labels);
        lemma_value_lines_have(entry, order.drop_last(), labels);
        lemma_line_stays(Seq::empty(), front, value_line(entry, order.last()), line);
        assert(Seq::empty() + front + value_line(entry, order.last()) =~= value_lines(
            entry,
            order,
        ));
    }
}

proof fn lemma_metric_text_has(entry: MetricEntry, order: Seq<Labels>, labels: Labels)
    requires
        order.contains(labels),
    ensures
        has_line(metric_text(entry, order), value_line(entry, labels)),
{
    let head = introduction(entry, kind_text(entry.value));
    let lines = value_lines(entry, order);
    lemma_value_lines_have(entry, order, labels);
    lemma_introduction_ends(entry);
    lemma_line_stays(head, lines, Seq::empty(), value_line(entry, labels));
    assert(head + lines + Seq::empty() =~= metric_text(entry, order));
}

pub(crate) proof fn lemma_orders_of_front(orders: Seq<Seq<Labels>>, entries: Seq<MetricEntry>)
    requires
        orders_of(orders, entries),
        entries.len() > 0,
    ensures
        orders_of(orders.drop_last(), entries.drop_last()),
{
    assert forall|i: int| 0 <= i < entries.drop_last().len() implies lists_label_sets(
        #[trigger] orders.drop_last()[i],
        entries.drop_last()[i],
    ) by {
        assert(lists_label_sets(orders[i], entries[i]));
    }
}

proof fn lemma_metrics_text_has(
    entries: Seq<MetricEntry>,
    orders: Seq<Seq<Labels>>,
    index: int,
    labels: Labels,
)
    requires
        orders_of(orders, entries),
        0 <= index < entries.len(),
        label_sets(entries[index]).contains(labels),
    ensures
        has_line(metrics_text(entries, orders), value_line(entries[index], labels)),
    decreases entries.len(),
{
    let front = metrics_text(entries.drop_last(), orders.drop_last());
    let own = metric_text(entries.last(), orders.last());
    let line = value_line(entries[index], labels);
    if index == entries.len() - 1 {
        assert(lists_label_sets(orders[index], entries[index]));
        assert(orders[index].to_set().contains(labels));
        lemma_metric_text_has(entries[index], orders[index], labels);
        lemma_metrics_text_ends(entries.drop_last(), orders.drop_last());
        lemma_line_stays(front, own, Seq::empty(), line);
        assert(front + own + Seq::empty() =~= front + own);
    } else {
        lemma_orders_of_front(orders, entries);
        lemma_metrics_text_has(entries.drop_last(), orders.drop_last(), index, labels);
        lemma_line_stays(Seq::empty(), front, own, line);
        assert(Seq::empty() + front + own =~= front + own);
    }
}

/// A scrape has a line for every metric, and for every label set of a family, with its
/// value.
pub proof fn law_scrape_shows_every_value(
    text: Seq<char>,
    view: MetricsView,
    further: Seq<char>,
    index: int,
    labels: Labels,
)
    requires
        is_scrape(text, view, further),
        0 <= index < exposed(view).len(),
        label_sets(exposed(view)[index]).contains(labels),
    ensures
        has_line(text, value_line(exposed(view)[index], labels)),
{
    let own = choose|own: Seq<char>| #[trigger]
        exposes(own, exposed(view)) && text == own + further + "# EOF\n"@;
    let orders = choose|orders: Seq<Seq<Labels>>| #[trigger]
        orders_of(orders, exposed(view)) && own == metrics_text(exposed(view), orders);
    lemma_metrics_text_has(exposed(view), orders, index, labels);
    let line = value_line(exposed(view)[index], labels);
    lemma_line_stays(Seq::empty(), own, further + "# EOF\n"@, line);
    assert(Seq::empty() + own + (further + "# EOF\n"@) =~= text);
}

proof fn lemma_zero_lines(name: Seq<char>)
    ensures
        gauge_line(name, Seq::empty(), 0) == name + " 0\n"@,
        counter_line(name, Seq::empty(), 0) == name + "_total 0\n"@,
{
    reveal_strlit(" ");
    reveal_strlit("\n");
    reveal_strlit("_total");
    reveal_strlit(" 0\n");
    reveal_strlit("_total 0\n");
    assert(decimal(0) =~= seq!['0']);
    assert(gauge_line(name, Seq::empty(), 0) =~= name + " 0\n"@);
    assert(counter_line(name, Seq::empty(), 0) =~= name + "_total 0\n"@);
}

/// The text of a daemon that has just started shows its version, and zero for each counter
/// and gauge without labels.
pub proof fn law_new_metrics_show_version_and_zeros(
    text: Seq<char>,
    version: Seq<char>,
    further: Seq<char>,
)
    requires
        is_scrape(text, initial(version), further),
    ensures
        has_line(text, "wattdog_build_info{version=\""@ + version + "\"} 1\n"@),
        has_line(text, "wattdog_up 0\n"@),
        has_line(text, "wattdog_ble_scanner_running 0\n"@),
        has_line(text, "wattdog_observations_received_total 0\n"@),
        has_line(text, "wattdog_observations_dropped_total 0\n"@),
        has_line(text, "wattdog_writer_dropped_observations_total 0\n"@),
        has_line(text, "wattdog_devices_seen 0\n"@),
        has_line(text, "wattdog_parquet_rows_written_total 0\n"@),
        has_line(text, "wattdog_parquet_batches_written_total 0\n"@),
        has_line(text, "wattdog_parquet_write_errors_total 0\n"@),
        has_line(text, "wattdog_parquet_active_file_open 0\n"@),
        has_line(text, "wattdog_parquet_active_file_rows 0\n"@),
        has_line(text, "wattdog_parquet_rolls_total 0\n"@),
{
    assert(has_line(text, "wattdog_build_info{version=\""@ + version + "\"} 1\n"@)) by {
        lemma_version_line(version);
        law_scrape_shows_every_value(
            text,
            initial(version),
            further,
            BUILD_INFO as int,
            seq![("version"@, version)],
        );
    }
    lemma_new_gauges_show_zero(text, version, further);
    lemma_new_counters_show_zero(text, version, further);
}

proof fn lemma_zero_is_shown(
    text: Seq<char>,
    version: Seq<char>,
    further: Seq<char>,
    index: int,
    line: Seq<char>,
)
    requires
        is_scrape(text, initial(version), further),
        0 <= index < exposed(initial(version)).len(),
        ({
            let entry = exposed(initial(version))[index];
            ||| entry.value == MetricValue::Gauge { number: 0 } && line == entry.name + " 0\n"@
            ||| entry.value == MetricValue::Counter { count: 0 } && line == entry.name
                + "_total 0\n"@
        }),
    ensures
        has_line(text, line),
{
    lemma_zero_lines(exposed(initial(version))[index].name);
    law_scrape_shows_every_value(text, initial(version), further, index, Seq::empty());
}

proof fn lemma_new_gauges_show_zero(text: Seq<char>, version: Seq<char>, further: Seq<char>)
    requires
        is_scrape(text, initial(version), further),
    ensures
        has_line(text, "wattdog_up 0\n"@),
        has_line(text, "wattdog_ble_scanner_running 0\n"@),
        has_line(text, "wattdog_devices_seen 0\n"@),
        has_line(text, "wattdog_parquet_active_file_open 0\n"@),
        has_line(text, "wattdog_parquet_active_file_rows 0\n"@),
{
    assert("wattdog_up"@ + " 0\n"@ == "wattdog_up 0\n"@) by {
        reveal_strlit(" 0\n");
        reveal_strlit("wattdog_up");
        reveal_strlit("wattdog_up 0\n");
    }
    lemma_zero_is_shown(
        text,
        version,
        further,
        SCANNER_RUNNING as int,
        "wattdog_up 0\n"@,
    );
    assert("wattdog_ble_scanner_running"@ + " 0\n"@ == "wattdog_ble_scanner_running 0\n"@) by {
        reveal_strlit(" 0\n");
        reveal_strlit("wattdog_ble_scanner_running");
        reveal_strlit("wattdog_ble_scanner_running 0\n");
    }
    lemma_zero_is_shown(
        text,
        version,
        further,
        SCANNER_BLE_RUNNING as int,
        "wattdog_ble_scanner_running 0\n"@,
    );
    assert("wattdog_devices_seen"@ + " 0\n"@ == "wattdog_devices_seen 0\n"@) by {
        reveal_strlit(" 0\n");
        reveal_strlit("wattdog_devices_seen");
        reveal_strlit("wattdog_devices_seen 0\n");
    }
    lemma_zero_is_shown(
        text,
        version,
        further,
        DEVICES_SEEN as int,
        "wattdog_devices_seen 0\n"@,
    );
    assert("wattdog_parquet_active_file_open"@ + " 0\n"@
        == "wattdog_parquet_active_file_open 0\n"@) by {
        reveal_strlit(" 0\n");
        reveal_strlit("wattdog_parquet_active_file_open");
        reveal_strlit("wattdog_parquet_active_file_open 0\n");
    }
    lemma_zero_is_shown(
        text,
        version,
        further,
        PARQUET_ACTIVE_FILE_OPEN as int,
        "wattdog_parquet_active_file_open 0\n"@,
    );
    assert("wattdog_parquet_active_file_rows"@ + " 0\n"@
        == "wattdog_parquet_active_file_rows 0\n"@) by {
        reveal_strlit(" 0\n");
        reveal_strlit("wattdog_parquet_active_file_rows");
        reveal_strlit("wattdog_parquet_active_file_rows 0\n");
    }
    lemma_zero_is_shown(
        text,
        version,
        further,
        PARQUET_ACTIVE_FILE_ROWS as int,
        "wattdog_parquet_active_file_rows 0\n"@,
    );
}

proof fn lemma_new_counters_show_zero(text: Seq<char>, version: Seq<char>, further: Seq<char>)
    requires
        is_scrape(text, initial(version), further),
    ensures
        has_line(text, "wattdog_observations_received_total 0\n"@),
        has_line(text, "wattdog_observations_dropped_total 0\n"@),
        has_line(text, "wattdog_writer_dropped_observations_total 0\n"@),
        has_line(text, "wattdog_parquet_rows_written_total 0\n"@),
        has_line(text, "wattdog_parquet_batches_written_total 0\n"@),
        has_line(text, "wattdog_parquet_write_errors_total 0\n"@),
        has_line(text, "wattdog_parquet_rolls_total 0\n"@),
{
    assert("wattdog_observations_received"@ + "_total 0\n"@
        == "wattdog_observations_received_total 0\n"@) by {
        reveal_strlit("_total 0\n");
        reveal_strlit("wattdog_observations_received");
        reveal_strlit("wattdog_observations_received_total 0\n");
    }
    lemma_zero_is_shown(
        text,
        version,
        further,
        OBSERVATIONS_RECEIVED as int,
        "wattdog_observations_received_total 0\n"@,
    );
    assert("wattdog_observations_dropped"@ + "_total 0\n"@
        == "wattdog_observations_dropped_total 0\n"@) by {
        reveal_strlit("_total 0\n");
        reveal_strlit("wattdog_observations_dropped");
        reveal_strlit("wattdog_observations_dropped_total 0\n");
    }
    lemma_zero_is_shown(
        text,
        version,
        further,
        OBSERVATIONS_DROPPED as int,
        "wattdog_observations_dropped_total 0\n"@,
    );
    assert("wattdog_writer_dropped_observations"@ + "_total 0\n"@
        == "wattdog_writer_dropped_observations_total 0\n"@) by {
        reveal_strlit("_total 0\n");
        reveal_strlit("wattdog_writer_dropped_observations");
        reveal_strlit("wattdog_writer_dropped_observations_total 0\n");
    }
    lemma_zero_is_shown(
        text,
        version,
        further,
        WRITER_DROPPED_OBSERVATIONS as int,
        "wattdog_writer_dropped_observations_total 0\n"@,
    );
    assert("wattdog_parquet_rows_written"@ + "_total 0\n"@
        == "wattdog_parquet_rows_written_total 0\n"@) by {
        reveal_strlit("_total 0\n");
        reveal_strlit("wattdog_parquet_rows_written");
        reveal_strlit("wattdog_parquet_rows_written_total 0\n");
    }
    lemma_zero_is_shown(
        text,
        version,
        further,
        PARQUET_ROWS_WRITTEN as int,
        "wattdog_parquet_rows_written_total 0\n"@,
    );
    assert("wattdog_parquet_batches_written"@ + "_total 0\n"@
        == "wattdog_parquet_batches_written_total 0\n"@) by {
        reveal_strlit("_total 0\n");
        reveal_strlit("wattdog_parquet_batches_written");
        reveal_strlit("wattdog_parquet_batches_written_total 0\n");
    }
    lemma_zero_is_shown(
        text,
        version,
        further,
        PARQUET_BATCHES_WRITTEN as int,
        "wattdog_parquet_batches_written_total 0\n"@,
    );
    assert("wattdog_parquet_write_errors"@ + "_total 0\n"@
        == "wattdog_parquet_write_errors_total 0\n"@) by {
        reveal_strlit("_total 0\n");
        reveal_strlit("wattdog_parquet_write_errors");
        reveal_strlit("wattdog_parquet_write_errors_total 0\n");
    }
    lemma_zero_is_shown(
        text,
        version,
        further,
        PARQUET_WRITE_ERRORS as int,
        "wattdog_parquet_write_errors_total 0\n"@,
    );
    assert("wattdog_parquet_rolls"@ + "_total 0\n"@ == "wattdog_parquet_rolls_total 0\n"@) by {
        reveal_strlit("_total 0\n");
        reveal_strlit("wattdog_parquet_rolls");
        reveal_strlit("wattdog_parquet_rolls_total 0\n");
    }
    lemma_zero_is_shown(
        text,
        version,
        further,
        PARQUET_ROLLS as int,
        "wattdog_parquet_rolls_total 0\n"@,
    );
}

proof fn lemma_version_line(version: Seq<char>)
    ensures
        value_line(exposed(initial(version))[BUILD_INFO as int], seq![("version"@, version)])
            == "wattdog_build_info{version=\""@ + version + "\"} 1\n"@,
{
    let labels = seq![("version"@, version)];
    let entry = exposed(initial(version))[BUILD_INFO as int];
    reveal_strlit("wattdog_build_info");
    reveal_strlit("version");
    reveal_strlit("{");
    reveal_strlit("}");
    reveal_strlit("=\"");
    reveal_strlit("\"");
    reveal_strlit(" ");
    reveal_strlit("\n");
    reveal_strlit("wattdog_build_info{version=\"");
    reveal_strlit("\"} 1\n");
    assert(decimal(1) =~= seq!['1']);
    assert(labels_text(labels) == label_text(labels[0]));
    assert(value_line(entry, labels) =~= "wattdog_build_info{version=\""@ + version
        + "\"} 1\n"@);
}

} // verus!
