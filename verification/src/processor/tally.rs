//! What processing counts.

use vstd::prelude::*;

use crate::metrics::status::went_up;
use crate::metrics::MetricsView;
use crate::processor::{
    offered, one_more, reporting, SampleProcessor, StatusReport, SAMPLE_QUEUE_CAPACITY,
    STATUS_INTERVAL_SECS, WRITER_QUEUE_CAPACITY,
};
use crate::scanner::{enqueued, scanning, sdk_error_text};
use crate::text::lossy_text;

verus! {

/// An observation that the writer queue took changes no metric. One that it did not take is
/// counted as dropped there, and nowhere else.
pub proof fn law_refused_observation_is_counted(metrics: MetricsView, accepted: bool)
    ensures
        ({
            let after = offered(metrics, accepted);
            &&& accepted ==> after == metrics
            &&& !accepted ==> went_up(
                metrics.writer_dropped_observations,
                after.writer_dropped_observations,
                1,
            )
            &&& after == (MetricsView {
                writer_dropped_observations: after.writer_dropped_observations,
                ..metrics
            })
        }),
{
}

/// Each processed observation counts once, and the count never goes back.
pub proof fn law_processed_observations_add_up(count: u64)
    ensures
        count < u64::MAX ==> one_more(count) == count + 1,
        one_more(count) >= count,
        one_more(count) > 0,
{
}

/// Both scanner gauges tell whether scanning is on, and nothing else changes.
pub proof fn law_scanner_gauges_agree(metrics: MetricsView, running: bool)
    ensures
        ({
            let after = scanning(metrics, running);
            &&& after.scanner_running == 1 <==> running
            &&& after.scanner_running == 0 <==> !running
            &&& after.scanner_ble_running == after.scanner_running
            &&& after == (MetricsView {
                scanner_running: after.scanner_running,
                scanner_ble_running: after.scanner_ble_running,
                ..metrics
            })
        }),
{
}

/// An error of the SDK is told in its own words, and is never told without any.
pub proof fn law_sdk_errors_are_told_in_words(message: Option<Seq<u8>>)
    ensures
        message is Some && lossy_text(message->0).len() > 0 ==> sdk_error_text(message)
            == lossy_text(message->0),
        message is None || lossy_text(message->0).len() == 0 ==> sdk_error_text(message)
            == "unknown Thornwave SDK error"@,
        sdk_error_text(message).len() > 0,
{
    reveal_strlit("unknown Thornwave SDK error");
}

/// Each queue holds 2 to the power of 14 observations, and a report is due every half minute.
pub proof fn law_queues_have_room()
    ensures
        SAMPLE_QUEUE_CAPACITY == 128 * 128,
        WRITER_QUEUE_CAPACITY == SAMPLE_QUEUE_CAPACITY,
        STATUS_INTERVAL_SECS * 2 == 60,
{
}

/// A report tells the number of all observations, and whether there are any since the last
/// report: made again at once, it says that there are none. Making it does not change the
/// number.
pub proof fn law_report_tells_what_is_new(processor: SampleProcessor)
    ensures
        ({
            let (after, report) = reporting(processor);
            let (again, second) = reporting(after);
            let count = processor.processed;
            &&& after.processed == count
            &&& count == 0 <==> report is NothingYet
            &&& report matches StatusReport::Processed(told) ==> told == count
            &&& report matches StatusReport::NothingNew(told) ==> told == count
            &&& count > 0 ==> (report is Processed <==> processor.reported != count)
            &&& count > 0 ==> second == StatusReport::NothingNew(count) && again == after
            &&& count == 0 ==> second == report && after == processor
        }),
{
}

/// An advertisement that the sample queue took changes no metric. One that it did not take is
/// counted as dropped there, and nowhere else.
pub proof fn law_refused_advertisement_is_counted(metrics: MetricsView, accepted: bool)
    ensures
        ({
            let after = enqueued(metrics, accepted);
            &&& accepted ==> after == metrics
            &&& !accepted ==> went_up(
                metrics.observations_dropped,
                after.observations_dropped,
                1,
            )
            &&& after == (MetricsView {
                observations_dropped: after.observations_dropped,
                ..metrics
            })
        }),
{
}

} // verus!
