//! What the dispatcher decides: which request an item becomes, what a response
//! leads to, and how many calls may be outstanding at once.
use vstd::prelude::*;
use vstd::multiset::Multiset;
use crate::deadline::{retry_deadline, retry_deadline_of};
use crate::types::{QueueItem, QueueItemFeedback, QueueItemFeedbackRequest};

verus! {

/// The status with which an endpoint asks its caller to slow down.
pub const TOO_MANY_REQUESTS: u16 = 429;

/// The HTTP call that a queue item stands for.
pub enum ItemRequest {
    Get { url: String },
    Post { url: String, body: serde_json::Value },
}

/// What follows a response to an item's call.
pub enum Outcome {
    /// Report the status back to the queue.
    Report(QueueItemFeedback),
    /// Throttled: hold the slot until this instant (seconds since the epoch)
    /// and report nothing.
    Backoff { until: u64 },
}

/// A POST of the payload where the item has one, else a GET; no header of
/// the queue's is attached.
pub open spec fn request_of(item: QueueItem) -> ItemRequest {
    match item.payload {
        Some(p) => ItemRequest::Post { url: item.endpoint, body: p },
        None => ItemRequest::Get { url: item.endpoint },
    }
}

/// The feedback an item's response produces: none for a throttled call, else
/// the item's id with the observed status.
pub open spec fn feedback_of(id: Seq<char>, status: u16) -> Option<(Seq<char>, u16)> {
    if status == TOO_MANY_REQUESTS {
        None
    } else {
        Some((id, status))
    }
}

/// The feedback an outcome carries, as a plain value.
pub open spec fn reported(o: Outcome) -> Option<(Seq<char>, u16)> {
    match o {
        Outcome::Report(fb) => Some((fb.id@, fb.status)),
        Outcome::Backoff { .. } => None,
    }
}

pub open spec fn opt_view(v: Option<&str>) -> Option<Seq<char>> {
    match v {
        Some(s) => Some(s@),
        None => None,
    }
}

/// Turns a queue item into the call to make for it.
pub fn request_for(item: QueueItem) -> (r: ItemRequest)
    ensures
        r == request_of(item),
{
    match item.payload {
        Some(p) => ItemRequest::Post { url: item.endpoint, body: p },
        None => ItemRequest::Get { url: item.endpoint },
    }
}

/// Decides what a response with `status` to the call of item `id` leads to,
/// at time `now`: any status but 429 is reported as feedback; a 429 holds the
/// slot until the `Retry-After` deadline, or `default_delay` seconds from now.
pub fn outcome_for_response(
    id: String,
    status: u16,
    retry_after: Option<&str>,
    now: u64,
    default_delay: u64,
) -> (r: Outcome)
    ensures
        reported(r) == feedback_of(id@, status),
        status != TOO_MANY_REQUESTS ==> (r matches Outcome::Report(fb) && fb.id == id),
        status == TOO_MANY_REQUESTS ==> r == (Outcome::Backoff {
            until: retry_deadline_of(opt_view(retry_after), now, default_delay),
        }),
{
    if status != TOO_MANY_REQUESTS {
        Outcome::Report(QueueItemFeedback { id, status })
    } else {
        Outcome::Backoff { until: retry_deadline(retry_after, now, default_delay) }
    }
}

/// The body that reports one feedback record to the queue.
pub fn feedback_request(feedback: QueueItemFeedback) -> (r: QueueItemFeedbackRequest)
    ensures
        r.items@ == seq![feedback],
{
    let mut items: Vec<QueueItemFeedback> = Vec::new();
    items.push(feedback);
    QueueItemFeedbackRequest { items }
}

/// An event of the in-flight window: an item asks for a slot, or an
/// operation (a call or a backoff wait) gives its slot back.
pub enum SlotEvent {
    Offer,
    Release,
}

/// The number of outstanding operations after one event, under a budget of
/// `max`: an item is admitted only while a slot is free.
pub open spec fn after(max: nat, active: nat, e: SlotEvent) -> nat {
    match e {
        SlotEvent::Offer => if active < max { active + 1 } else { active },
        SlotEvent::Release => if active > 0 { (active - 1) as nat } else { 0 },
    }
}

/// The number of outstanding operations after a run of events from `active`.
pub open spec fn after_all(max: nat, active: nat, es: Seq<SlotEvent>) -> nat
    decreases es.len(),
{
    if es.len() == 0 {
        active
    } else {
        after(max, after_all(max, active, es.drop_last()), es.last())
    }
}

/// Admission control: at most `max_inflight` operations outstanding.
pub struct Window {
    max_inflight: usize,
    active: usize,
}

impl Window {
    pub closed spec fn budget(&self) -> nat {
        self.max_inflight as nat
    }

    pub closed spec fn in_flight(&self) -> nat {
        self.active as nat
    }

    pub closed spec fn wf(&self) -> bool {
        1 <= self.max_inflight && self.active <= self.max_inflight
    }

    /// An empty window with room for `max_inflight` operations.
    pub fn new(max_inflight: usize) -> (r: Window)
        requires
            max_inflight >= 1,
        ensures
            r.wf(),
            r.budget() == max_inflight,
            r.in_flight() == 0,
    {
        Window { max_inflight, active: 0 }
    }

    pub fn in_flight_count(&self) -> (r: usize)
        ensures
            r == self.in_flight(),
    {
        self.active
    }

    pub fn has_room(&self) -> (r: bool)
        ensures
            r == (self.in_flight() < self.budget()),
    {
        self.active < self.max_inflight
    }

    /// Takes a slot for a new operation where one is free.
    pub fn try_admit(&mut self) -> (r: bool)
        requires
            old(self).wf(),
        ensures
            final(self).wf(),
            final(self).budget() == old(self).budget(),
            final(self).in_flight() == after(old(self).budget(), old(self).in_flight(), SlotEvent::Offer),
            r == (old(self).in_flight() < old(self).budget()),
    {
        if self.active < self.max_inflight {
            self.active = self.active + 1;
            true
        } else {
            false
        }
    }

    /// Gives back the slot of an operation that finished.
    pub fn release(&mut self)
        requires
            old(self).wf(),
        ensures
            final(self).wf(),
            final(self).budget() == old(self).budget(),
            final(self).in_flight() == after(old(self).budget(), old(self).in_flight(), SlotEvent::Release),
    {
        if self.active > 0 {
            self.active = self.active - 1;
        }
    }
}

/// However items arrive and operations finish, a window with a budget of at
/// least one never has more than its budget outstanding.
pub proof fn lemma_in_flight_within_budget(max: nat, es: Seq<SlotEvent>)
    requires
        max >= 1,
    ensures
        after_all(max, 0, es) <= max,
    decreases es.len(),
{
    if es.len() > 0 {
        lemma_in_flight_within_budget(max, es.drop_last());
    }
}


/// The feedback a batch of items produces when each item's call answers with
/// the status `status` gives it.
pub open spec fn batch_feedback(items: Seq<QueueItem>, status: spec_fn(QueueItem) -> u16) -> Multiset<
    (Seq<char>, u16),
>
    decreases items.len(),
{
    if items.len() == 0 {
        Multiset::empty()
    } else {
        batch_feedback(items.drop_last(), status).add(
            one_feedback(items.last(), status),
        )
    }
}

pub open spec fn one_feedback(item: QueueItem, status: spec_fn(QueueItem) -> u16) -> Multiset<
    (Seq<char>, u16),
> {
    match feedback_of(item.id@, status(item)) {
        Some(f) => Multiset::singleton(f),
        None => Multiset::empty(),
    }
}

proof fn lemma_batch_feedback_remove(s: Seq<QueueItem>, i: int, status: spec_fn(QueueItem) -> u16)
    requires
        0 <= i < s.len(),
    ensures
        batch_feedback(s, status) == batch_feedback(s.remove(i), status).add(
            one_feedback(s[i], status),
        ),
    decreases s.len(),
{
    if i == s.len() - 1 {
        assert(s.remove(i) =~= s.drop_last());
    } else {
        let t = s.drop_last();
        lemma_batch_feedback_remove(t, i, status);
        assert(t.remove(i) =~= s.remove(i).drop_last());
        assert(s.remove(i).last() == s.last());
        assert(t[i] == s[i]);
        assert(batch_feedback(s, status) =~= batch_feedback(s.remove(i), status).add(
            one_feedback(s[i], status),
        ));
    }
}

/// Reordering the items of a batch never changes which feedback the batch
/// produces, for a transport whose status depends on the item alone.
pub proof fn lemma_batch_order_irrelevant(
    a: Seq<QueueItem>,
    b: Seq<QueueItem>,
    status: spec_fn(QueueItem) -> u16,
)
    requires
        a.to_multiset() == b.to_multiset(),
    ensures
        batch_feedback(a, status) == batch_feedback(b, status),
    decreases a.len(),
{
    broadcast use vstd::seq_lib::group_to_multiset_ensures;

    a.to_multiset_ensures();
    b.to_multiset_ensures();
    if a.len() == 0 {
        assert(b.len() == 0);
        assert(b =~= Seq::<QueueItem>::empty());
    } else {
        let x = a.last();
        let n = a.len() - 1;
        assert(a.contains(x)) by {
            assert(a[n] == x);
        }
        assert(a.to_multiset().count(x) > 0);
        assert(b.to_multiset().count(x) > 0);
        assert(b.contains(x));
        let j = choose|j: int| 0 <= j < b.len() && b[j] == x;
        assert(a.remove(n) =~= a.drop_last());
        lemma_batch_order_irrelevant(a.drop_last(), b.remove(j), status);
        lemma_batch_feedback_remove(b, j, status);
    }
}

} // verus!
