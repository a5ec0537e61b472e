//! What the daemon makes of the Thornwave scanner: its life and its messages.
//!
//! The scanner is synchronous and may block. Whoever holds it calls the SDK and reports
//! here what came of it.

use vstd::prelude::*;

use crate::exposition::increased;
use crate::metrics::{bool_number, Metrics, MetricsView};
use crate::text::{decode_lossy, lossy_text};

verus! {

/// The text for an SDK error: the message of the SDK, unless it gave none.
pub open spec fn sdk_error_text(message: Option<Seq<u8>>) -> Seq<char> {
    match message {
        Some(bytes) => if lossy_text(bytes).len() == 0 {
            "unknown Thornwave SDK error"@
        } else {
            lossy_text(bytes)
        },
        None => "unknown Thornwave SDK error"@,
    }
}

/// The metrics when scanning is on or off.
pub open spec fn scanning(metrics: MetricsView, running: bool) -> MetricsView {
    MetricsView {
        scanner_running: bool_number(running),
        scanner_ble_running: bool_number(running),
        ..metrics
    }
}

/// The metrics after an advertisement was offered to the sample queue. One that did not fit
/// is counted.
pub open spec fn enqueued(metrics: MetricsView, accepted: bool) -> MetricsView {
    if accepted {
        metrics
    } else {
        MetricsView {
            observations_dropped: increased(metrics.observations_dropped, 1),
            ..metrics
        }
    }
}

/// Returns the text for the message that the SDK reports for its last error, if it
/// reports one.
pub fn last_error(message: Option<&[u8]>) -> (text: String)
    ensures
        text@ == sdk_error_text(
            match message {
                Some(bytes) => Some(bytes@),
                None => None,
            },
        ),
{
    match message {
        Some(bytes) => error_or_unknown(decode_lossy(bytes)),
        None => "unknown Thornwave SDK error".to_owned(),
    }
}

/// Returns a decoded SDK message, or a fixed text if it is empty.
pub fn error_or_unknown(message: String) -> (text: String)
    ensures
        message@.len() == 0 ==> text@ == "unknown Thornwave SDK error"@,
        message@.len() > 0 ==> text == message,
{
    if message.as_str().unicode_len() == 0 {
        "unknown Thornwave SDK error".to_owned()
    } else {
        message
    }
}

/// Takes note that there is no scanner. The metrics endpoint remains available.
pub fn scanner_unavailable(metrics: &mut Metrics)
    ensures
        final(metrics)@ == scanning(old(metrics)@, false),
{
    metrics.set_scanner_running(false);
    metrics.set_ble_running(false);
}

/// Takes note whether BLE scanning was started. Returns whether the scanner is to be kept
/// until shutdown.
pub fn ble_start_attempted(metrics: &mut Metrics, started: bool) -> (keep: bool)
    ensures
        keep == started,
        final(metrics)@ == scanning(old(metrics)@, started),
{
    metrics.set_ble_running(started);
    if metrics.any_scanner_transport_running() {
        metrics.set_scanner_running(true);
        true
    } else {
        metrics.set_scanner_running(false);
        false
    }
}

/// Takes note that the scanner was stopped.
pub fn scanner_stopped(metrics: &mut Metrics)
    ensures
        final(metrics)@ == scanning(old(metrics)@, false),
{
    metrics.set_scanner_running(false);
    metrics.set_ble_running(false);
}

/// Takes note whether the sample queue had room for an advertisement. One that did not fit
/// is dropped and counted: the scanner never waits.
pub fn sample_enqueue_attempted(metrics: &mut Metrics, accepted: bool)
    ensures
        final(metrics)@ == enqueued(old(metrics)@, accepted),
{
    if !accepted {
        metrics.observe_scanner_dropped();
    }
}

} // verus!
