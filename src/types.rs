use vstd::prelude::*;

verus! {

#[verifier::external_type_specification]
#[verifier::external_body]
pub struct ExValue(serde_json::Value);

/// One unit of work: an HTTP call to `endpoint`, with `payload` as a JSON body
/// when present (a POST) and no body otherwise (a GET).
pub struct QueueItem {
    pub endpoint: String,
    pub id: String,
    pub payload: Option<serde_json::Value>,
}

/// The body of a poll of the queue endpoint: a batch of queue items.
pub struct PollQueueItemsResponse {
    pub items: Vec<QueueItem>,
}

/// The outcome of one queue item: the HTTP status its call returned.
#[derive(Clone, Debug)]
pub struct QueueItemFeedback {
    pub id: String,
    pub status: u16,
}

impl PartialEq for QueueItemFeedback {
    fn eq(&self, o: &QueueItemFeedback) -> (r: bool) {
        self.status == o.status && self.id == o.id
    }
}

impl vstd::std_specs::cmp::PartialEqSpecImpl for QueueItemFeedback {
    open spec fn obeys_eq_spec() -> bool {
        true
    }

    open spec fn eq_spec(&self, o: &QueueItemFeedback) -> bool {
        self.id@ == o.id@ && self.status == o.status
    }
}

impl Eq for QueueItemFeedback {}

/// The body of a feedback post to the queue endpoint.
#[derive(Clone, Debug)]
pub struct QueueItemFeedbackRequest {
    pub items: Vec<QueueItemFeedback>,
}

/// The settings of a run; `max_inflight` is the single concurrency budget,
/// and the two durations are whole seconds.
#[derive(Clone, Debug)]
pub struct RunCfg {
    pub auth_token: String,
    pub max_inflight: usize,
    pub remote_url: String,
    pub poll_interval: u64,
    pub default_delay: u64,
}

impl RunCfg {
    /// A usable configuration has room for at least one call in flight.
    pub open spec fn wf(&self) -> bool {
        self.max_inflight >= 1
    }

    /// The `Authorization` header value of every call to the queue endpoint.
    pub fn authorization(&self) -> (r: String)
        ensures
            r@ == "Bearer "@ + self.auth_token@,
    {
        String::from_str("Bearer ").concat(self.auth_token.as_str())
    }

    /// The configuration of a run, or `None` where `max_inflight` leaves no
    /// room for any call.
    pub fn new(
        auth_token: String,
        max_inflight: usize,
        remote_url: String,
        poll_interval: u64,
        default_delay: u64,
    ) -> (r: Option<RunCfg>)
        ensures
            r is Some <==> max_inflight >= 1,
            r matches Some(c) ==> c.wf() && c.auth_token == auth_token && c.max_inflight
                == max_inflight && c.remote_url == remote_url && c.poll_interval == poll_interval
                && c.default_delay == default_delay,
    {
        if max_inflight == 0 {
            None
        } else {
            Some(RunCfg { auth_token, max_inflight, remote_url, poll_interval, default_delay })
        }
    }
}

} // verus!
