//! The counters and whole-number gauges of the daemon and where each stands in the
//! exposition.

use vstd::prelude::*;

use crate::exposition::{
    add_counter, add_counters, add_gauge, add_gauges, counted, counter_inc_by, counters_inc,
    encode_metrics, exposes, gauge_get, gauge_set, gauges_remove, gauges_set, increased,
    new_exposition, revalued, shown, Exposition, MetricEntry, MetricValue,
};
use crate::metrics::{blank, exposed};

verus! {

/// Place of `wattdog_build_info`.
pub const BUILD_INFO: usize = 0;

/// Place of `wattdog_up`.
pub const SCANNER_RUNNING: usize = 1;

/// Place of `wattdog_ble_scanner_running`.
pub const SCANNER_BLE_RUNNING: usize = 2;

/// Place of `wattdog_observations_received`.
pub const OBSERVATIONS_RECEIVED: usize = 3;

/// Place of `wattdog_observations_dropped`.
pub const OBSERVATIONS_DROPPED: usize = 4;

/// Place of `wattdog_writer_dropped_observations`.
pub const WRITER_DROPPED_OBSERVATIONS: usize = 5;

/// Place of `wattdog_devices_seen`.
pub const DEVICES_SEEN: usize = 6;

/// Place of `wattdog_device_info`.
pub const DEVICE_INFO: usize = 7;

/// Place of `wattdog_device_observations_received`.
pub const DEVICE_OBSERVATIONS_RECEIVED: usize = 8;

/// Place of `wattdog_parquet_rows_written`.
pub const PARQUET_ROWS_WRITTEN: usize = 9;

/// Place of `wattdog_parquet_batches_written`.
pub const PARQUET_BATCHES_WRITTEN: usize = 10;

/// Place of `wattdog_parquet_write_errors`.
pub const PARQUET_WRITE_ERRORS: usize = 11;

/// Place of `wattdog_parquet_active_file_open`.
pub const PARQUET_ACTIVE_FILE_OPEN: usize = 12;

/// Place of `wattdog_parquet_active_file_rows`.
pub const PARQUET_ACTIVE_FILE_ROWS: usize = 13;

/// Place of `wattdog_parquet_rolls`.
pub const PARQUET_ROLLS: usize = 14;

/// Place of `wattdog_state_stale`.
pub const STATE_STALE: usize = 15;

/// Place of `wattdog_state_ambiguous`.
pub const STATE_AMBIGUOUS: usize = 16;

/// Place of `wattdog_state_desired`.
pub const STATE_DESIRED: usize = 17;

/// Place of `wattdog_state_applied`.
pub const STATE_APPLIED: usize = 18;

/// Place of `wattdog_state_pending`.
pub const STATE_PENDING: usize = 19;

/// Place of `wattdog_state_default`.
pub const STATE_DEFAULT: usize = 20;

/// Place of `wattdog_state_transitions`.
pub const STATE_TRANSITIONS: usize = 21;

/// Place of `wattdog_http_attempts`.
pub const HTTP_ATTEMPTS: usize = 22;

/// Place of `wattdog_http_pending`.
pub const HTTP_PENDING: usize = 23;

/// Place of `wattdog_action_wait_timeouts`.
pub const ACTION_WAIT_TIMEOUTS: usize = 24;

/// Place of `wattdog_action_sequence_step`.
pub const ACTION_SEQUENCE_STEP: usize = 25;

/// Number of metrics.
pub const METRIC_COUNT: usize = 26;

/// Every metric before anything was counted or set, in the order of exposition.
pub open spec fn catalogue() -> Seq<MetricEntry> {
    exposed(blank())
}

/// Whether two metrics differ in their values at most.
pub open spec fn same_metric(a: MetricEntry, b: MetricEntry) -> bool {
    &&& a.name == b.name
    &&& a.help == b.help
    &&& a.value is Counter <==> b.value is Counter
    &&& a.value is Gauge <==> b.value is Gauge
    &&& a.value is Counters <==> b.value is Counters
    &&& a.value is Gauges <==> b.value is Gauges
}

/// Whether these are the metrics of the daemon, with any values.
pub open spec fn complete(entries: Seq<MetricEntry>) -> bool {
    &&& entries.len() == METRIC_COUNT
    &&& forall|i: int|
        0 <= i < entries.len() ==> same_metric(#[trigger] entries[i], catalogue()[i])
}

/// The metrics of the daemon.
#[derive(Debug)]
pub struct Board {
    exposition: Exposition,
}

impl Board {
    /// The metrics, in the order of exposition.
    pub closed spec fn entries(&self) -> Seq<MetricEntry> {
        shown(self.exposition)
    }

    #[verifier::type_invariant]
    spec fn holds_the_catalogue(&self) -> bool {
        complete(shown(self.exposition))
    }

    /// Creates and registers every metric.
    pub fn new() -> (board: Self)
        ensures
            board.entries() == catalogue(),
    {
        let mut exposition = new_exposition();
        add_gauges(&mut exposition, "wattdog_build_info", "Daemon build information");
        add_gauge(&mut exposition, "wattdog_up", "Whether any scanner transport is running");
        add_gauge(
            &mut exposition,
            "wattdog_ble_scanner_running",
            "Whether BLE scanner transport is running",
        );
        add_counter(
            &mut exposition,
            "wattdog_observations_received",
            "Observed Thornwave advertisements",
        );
        add_counter(
            &mut exposition,
            "wattdog_observations_dropped",
            "Observations dropped before processing",
        );
        add_counter(
            &mut exposition,
            "wattdog_writer_dropped_observations",
            "Observations dropped before Parquet writer enqueue",
        );
        add_gauge(
            &mut exposition,
            "wattdog_devices_seen",
            "Number of Thornwave device serials seen",
        );
        add_gauges(
            &mut exposition,
            "wattdog_device_info",
            "Latest Thornwave device identity information",
        );
        add_counters(
            &mut exposition,
            "wattdog_device_observations_received",
            "Observed advertisements by device",
        );
        add_counter(&mut exposition, "wattdog_parquet_rows_written", "Rows written to Parquet");
        add_counter(
            &mut exposition,
            "wattdog_parquet_batches_written",
            "Record batches written to Parquet",
        );
        add_counter(&mut exposition, "wattdog_parquet_write_errors", "Parquet write errors");
        add_gauge(
            &mut exposition,
            "wattdog_parquet_active_file_open",
            "Whether a Parquet active file is open",
        );
        add_gauge(
            &mut exposition,
            "wattdog_parquet_active_file_rows",
            "Rows written to current active Parquet file",
        );
        add_counter(&mut exposition, "wattdog_parquet_rolls", "Completed Parquet file rolls");
        add_gauges(&mut exposition, "wattdog_state_stale", "Whether latest state input is stale");
        add_gauges(
            &mut exposition,
            "wattdog_state_ambiguous",
            "Whether state conditions are ambiguous",
        );
        add_gauges(
            &mut exposition,
            "wattdog_state_desired",
            "Desired state: on=1, off=0, unknown=-1",
        );
        add_gauges(
            &mut exposition,
            "wattdog_state_applied",
            "Applied state: on=1, off=0, unknown=-1",
        );
        add_gauges(&mut exposition, "wattdog_state_pending", "Whether an action is pending");
        add_gauges(
            &mut exposition,
            "wattdog_state_default",
            "Configured default state: on=1, off=0",
        );
        add_counters(&mut exposition, "wattdog_state_transitions", "State desired transitions");
        add_counters(&mut exposition, "wattdog_http_attempts", "HTTP action attempts");
        add_gauges(&mut exposition, "wattdog_http_pending", "Whether an HTTP action is pending");
        add_counters(
            &mut exposition,
            "wattdog_action_wait_timeouts",
            "JSON waits that reached their deadline",
        );
        add_gauges(
            &mut exposition,
            "wattdog_action_sequence_step",
            "Current action sequence step, none=-1",
        );
        assert(shown(exposition) =~= catalogue());
        Board { exposition }
    }

    /// Increases a counter.
    pub fn increase(&mut self, index: usize, amount: u64)
        requires
            index < METRIC_COUNT,
            catalogue()[index as int].value is Counter,
        ensures
            complete(old(self).entries()),
            complete(final(self).entries()),
            final(self).entries() == revalued(
                old(self).entries(),
                index as int,
                MetricValue::Counter {
                    count: increased(old(self).entries()[index as int].value->count, amount),
                },
            ),
    {
        proof {
            use_type_invariant(&*self);
        }
        counter_inc_by(&mut self.exposition, index, amount);
    }

    /// Sets a gauge.
    pub fn set(&mut self, index: usize, number: i64)
        requires
            index < METRIC_COUNT,
            catalogue()[index as int].value is Gauge,
        ensures
            complete(old(self).entries()),
            complete(final(self).entries()),
            final(self).entries() == revalued(
                old(self).entries(),
                index as int,
                MetricValue::Gauge { number },
            ),
    {
        proof {
            use_type_invariant(&*self);
        }
        gauge_set(&mut self.exposition, index, number);
    }

    /// Increases the counter of a label set by one.
    pub fn increase_one(&mut self, index: usize, labels: &Vec<(String, String)>)
        requires
            index < METRIC_COUNT,
            catalogue()[index as int].value is Counters,
        ensures
            complete(old(self).entries()),
            complete(final(self).entries()),
            final(self).entries() == revalued(
                old(self).entries(),
                index as int,
                MetricValue::Counters {
                    counts: counted(
                        old(self).entries()[index as int].value->counts,
                        labels.deep_view(),
                    ),
                },
            ),
    {
        proof {
            use_type_invariant(&*self);
        }
        counters_inc(&mut self.exposition, index, labels);
    }

    /// Sets the gauge of a label set.
    pub fn set_one(&mut self, index: usize, labels: &Vec<(String, String)>, number: i64)
        requires
            index < METRIC_COUNT,
            catalogue()[index as int].value is Gauges,
        ensures
            complete(old(self).entries()),
            complete(final(self).entries()),
            final(self).entries() == revalued(
                old(self).entries(),
                index as int,
                MetricValue::Gauges {
                    numbers: old(self).entries()[index as int].value->numbers.insert(
                        labels.deep_view(),
                        number,
                    ),
                },
            ),
    {
        proof {
            use_type_invariant(&*self);
        }
        gauges_set(&mut self.exposition, index, labels, number);
    }

    /// Removes the gauge of a label set.
    pub fn remove_one(&mut self, index: usize, labels: &Vec<(String, String)>)
        requires
            index < METRIC_COUNT,
            catalogue()[index as int].value is Gauges,
        ensures
            complete(old(self).entries()),
            complete(final(self).entries()),
            final(self).entries() == revalued(
                old(self).entries(),
                index as int,
                MetricValue::Gauges {
                    numbers: old(self).entries()[index as int].value->numbers.remove(
                        labels.deep_view(),
                    ),
                },
            ),
    {
        proof {
            use_type_invariant(&*self);
        }
        gauges_remove(&mut self.exposition, index, labels);
    }

    /// Returns what a gauge was set to.
    pub fn get(&self, index: usize) -> (number: i64)
        requires
            index < METRIC_COUNT,
            catalogue()[index as int].value is Gauge,
        ensures
            complete(self.entries()),
            number == self.entries()[index as int].value->number,
    {
        proof {
            use_type_invariant(self);
        }
        gauge_get(&self.exposition, index)
    }

    /// Writes the metrics as text, without the marker of the end.
    pub fn text(&self) -> (text: Result<String, std::fmt::Error>)
        ensures
            text is Ok,
            exposes(text->Ok_0@, self.entries()),
            complete(self.entries()),
    {
        proof {
            use_type_invariant(self);
        }
        encode_metrics(&self.exposition)
    }
}

} // verus!
