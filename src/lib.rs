//! A rate-limited work dispatcher: queue items are pulled from a remote queue,
//! executed as HTTP calls under a global in-flight budget, throttled calls
//! (status 429) hold their slot until a retry deadline, and every other
//! outcome is reported back to the queue as feedback.
//!
//! This crate holds the decisions of that pipeline; the network and the
//! runtime drive it from outside.
pub mod deadline;
pub mod dispatch;
pub mod queue;
pub mod types;

pub use deadline::{get_http_header_deadline, parse_seconds, retry_deadline};
pub use types::{PollQueueItemsResponse, QueueItem, QueueItemFeedback, QueueItemFeedbackRequest, RunCfg};
pub use dispatch::{
    batch_feedback, feedback_request, lemma_batch_order_irrelevant, lemma_in_flight_within_budget,
    outcome_for_response, request_for, ItemRequest, Outcome, SlotEvent, Window, TOO_MANY_REQUESTS,
};
pub use queue::{lemma_batch_passes_in_order, BoundedQueue, FeedEvent};
