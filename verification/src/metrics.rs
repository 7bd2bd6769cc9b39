//! Gateway counters, rendered in the Prometheus text format.

use vstd::prelude::*;

use crate::text::{append_str, decimal, owned, u64_to_decimal};

verus! {

/// The gateway's counters.
pub struct Metrics {
    pub requests_total: u64,
    pub requests_streaming: u64,
    pub errors_total: u64,
    pub rate_limited_total: u64,
    /// Open server-sent-event connections (a gauge).
    pub active_connections: u64,
}

/// The exposition text for the given counter values.
pub open spec fn exposition(m: Metrics) -> Seq<char> {
    "# HELP tokencamp_requests_total Total requests\n# TYPE tokencamp_requests_total counter\ntokencamp_requests_total "@
        + decimal(m.requests_total as nat)
        + "\n# HELP tokencamp_requests_streaming_total Streaming requests\n# TYPE tokencamp_requests_streaming_total counter\ntokencamp_requests_streaming_total "@
        + decimal(m.requests_streaming as nat)
        + "\n# HELP tokencamp_errors_total Total errors\n# TYPE tokencamp_errors_total counter\ntokencamp_errors_total "@
        + decimal(m.errors_total as nat)
        + "\n# HELP tokencamp_rate_limited_total Rate limit hits\n# TYPE tokencamp_rate_limited_total counter\ntokencamp_rate_limited_total "@
        + decimal(m.rate_limited_total as nat)
        + "\n# HELP tokencamp_active_connections Active SSE connections\n# TYPE tokencamp_active_connections gauge\ntokencamp_active_connections "@
        + decimal(m.active_connections as nat) + "\n"@
}

impl Metrics {
    /// All counters at zero.
    pub fn new() -> (m: Self)
        ensures
            m.requests_total == 0,
            m.requests_streaming == 0,
            m.errors_total == 0,
            m.rate_limited_total == 0,
            m.active_connections == 0,
    {
        Metrics { requests_total: 0, requests_streaming: 0, errors_total: 0, rate_limited_total: 0, active_connections: 0 }
    }

    /// The counters in the Prometheus text format.
    pub fn render(&self) -> (r: String)
        ensures
            r@ == exposition(*self),
    {
        let mut r = owned(
            "# HELP tokencamp_requests_total Total requests\n# TYPE tokencamp_requests_total counter\ntokencamp_requests_total ",
        );
        let v = u64_to_decimal(self.requests_total);
        append_str(&mut r, v.as_str());
        append_str(
            &mut r,
            "\n# HELP tokencamp_requests_streaming_total Streaming requests\n# TYPE tokencamp_requests_streaming_total counter\ntokencamp_requests_streaming_total ",
        );
        let v = u64_to_decimal(self.requests_streaming);
        append_str(&mut r, v.as_str());
        append_str(
            &mut r,
            "\n# HELP tokencamp_errors_total Total errors\n# TYPE tokencamp_errors_total counter\ntokencamp_errors_total ",
        );
        let v = u64_to_decimal(self.errors_total);
        append_str(&mut r, v.as_str());
        append_str(
            &mut r,
            "\n# HELP tokencamp_rate_limited_total Rate limit hits\n# TYPE tokencamp_rate_limited_total counter\ntokencamp_rate_limited_total ",
        );
        let v = u64_to_decimal(self.rate_limited_total);
        append_str(&mut r, v.as_str());
        append_str(
            &mut r,
            "\n# HELP tokencamp_active_connections Active SSE connections\n# TYPE tokencamp_active_connections gauge\ntokencamp_active_connections ",
        );
        let v = u64_to_decimal(self.active_connections);
        append_str(&mut r, v.as_str());
        append_str(&mut r, "\n");
        r
    }
}

} // verus!
