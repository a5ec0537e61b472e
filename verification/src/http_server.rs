//! Replies for health checks and Prometheus/OpenMetrics scraping.
//!
//! There are only read-only endpoints. This is intentionally not a control API: no
//! reply changes Thornwave devices or daemon configuration.

use vstd::prelude::*;

use crate::metrics::EncodeError;

verus! {

/// An HTTP reply.
#[derive(Debug)]
pub struct Reply {
    /// HTTP status.
    pub status: u16,
    /// Content type of the body.
    pub content_type: &'static str,
    /// Body.
    pub body: String,
}

impl EncodeError {
    /// Says what went wrong.
    pub fn message(self) -> (message: &'static str)
        ensures
            message@ == "an error occurred when formatting an argument"@,
    {
        "an error occurred when formatting an argument"
    }
}

/// The body of the reply to a health check, which always succeeds.
pub fn healthz() -> (body: &'static str)
    ensures
        body@ == "ok\n"@,
{
    "ok\n"
}

/// Whether a reply is the one to a scrape with this result.
pub open spec fn replies(encoded: Result<String, EncodeError>, reply: Reply) -> bool {
    match encoded {
        Ok(text) => {
            &&& reply.status == 200
            &&& reply.content_type@ == "application/openmetrics-text; version=1.0.0; charset=utf-8"@
            &&& reply.body == text
        },
        Err(_) => {
            &&& reply.status == 500
            &&& reply.content_type@ == "text/plain; charset=utf-8"@
            &&& reply.body@ == "failed to encode metrics: "@
                + "an error occurred when formatting an argument"@ + "\n"@
        },
    }
}

/// A scrape is answered with the metrics exactly if they could be written, and the reply says
/// which: the status reports success and the body is that text, unchanged, in the format of
/// OpenMetrics, or the status reports an error of the server and the body is plain text.
pub proof fn law_reply_tells_whether_there_are_metrics(
    encoded: Result<String, EncodeError>,
    reply: Reply,
)
    requires
        replies(encoded, reply),
    ensures
        reply.status == 200 <==> encoded is Ok,
        reply.status == 500 <==> encoded is Err,
        encoded matches Ok(text) ==> reply.body@ == text@ && reply.content_type@
            == "application/openmetrics-text; version=1.0.0; charset=utf-8"@,
        encoded is Err ==> reply.content_type@ == "text/plain; charset=utf-8"@ && reply.body@
            == "failed to encode metrics: "@ + "an error occurred when formatting an argument"@
            + "\n"@,
{
}

/// The reply to a scrape: the metrics as text, or why there is none.
pub fn metrics_reply(encoded: Result<String, EncodeError>) -> (reply: Reply)
    ensures
        replies(encoded, reply),
{
    match encoded {
        Ok(body) => Reply {
            status: 200,
            content_type: "application/openmetrics-text; version=1.0.0; charset=utf-8",
            body,
        },
        Err(error) => {
            let mut body: String = "failed to encode metrics: ".to_owned();
            body.append(error.message());
            body.append("\n");
            Reply { status: 500, content_type: "text/plain; charset=utf-8", body }
        },
    }
}

} // verus!
