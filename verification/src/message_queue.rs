//! An in-process FIFO queue of gateway events, and what the background worker
//! does with each event it takes off the queue.

use crate::clock::now_rfc3339;
use std::collections::VecDeque;
use vstd::prelude::*;

verus! {

/// The event published when a user logs in.
pub const USER_LOGGED_IN: &'static str = "user_logged_in";

/// The event published when a protected endpoint is called.
pub const API_CALLED: &'static str = "api_called";

/// One queued event: its name, its payload (an object of named text fields, in
/// order) and the time it was published.
pub struct Message {
    pub event: String,
    pub data: Vec<(String, String)>,
    pub timestamp: String,
}

/// The value of the first payload field named `key`.
pub open spec fn field_of(data: Seq<(String, String)>, key: Seq<char>) -> Option<String>
    decreases data.len(),
{
    if data.len() == 0 {
        None
    } else if data[0].0@ == key {
        Some(data[0].1)
    } else {
        field_of(data.drop_first(), key)
    }
}

/// The first field named `key` is at position `k`, or no field has that name
/// when `k` is the length.
proof fn lemma_field_of_first(data: Seq<(String, String)>, key: Seq<char>, k: int)
    requires
        0 <= k <= data.len(),
        forall|j: int| 0 <= j < k ==> (#[trigger] data[j]).0@ != key,
        k < data.len() ==> data[k].0@ == key,
    ensures
        field_of(data, key) == if k < data.len() {
            Some(data[k].1)
        } else {
            None
        },
    decreases k,
{
    if k > 0 {
        let rest = data.drop_first();
        assert forall|j: int| 0 <= j < k - 1 implies (#[trigger] rest[j]).0@ != key by {
            assert(rest[j] == data[j + 1]);
        }
        lemma_field_of_first(rest, key, k - 1);
        assert(data[0].0@ != key);
    }
}

/// The value of the first payload field named `key`, if any.
pub fn field_value(data: &Vec<(String, String)>, key: &str) -> (r: Option<String>)
    ensures
        r == field_of(data@, key@),
{
    let name = key.to_owned();
    let n = data.len();
    for k in 0..n
        invariant
            n == data@.len(),
            name@ == key@,
            forall|j: int| 0 <= j < k ==> (#[trigger] data@[j]).0@ != key@,
    {
        if data[k].0 == name {
            proof {
                lemma_field_of_first(data@, key@, k as int);
            }
            return Some(data[k].1.clone());
        }
    }
    proof {
        lemma_field_of_first(data@, key@, n as int);
    }
    None
}

/// What the worker does for one event.
pub enum WorkerAction {
    /// Send a welcome email to the named user (the `username` field).
    SendWelcomeEmail(Option<String>),
    UpdateLastLogin,
    NotifyAdmin,
    /// Record a call of the named endpoint (the `endpoint` field) for analytics.
    LogApiCall(Option<String>),
    /// An event that the worker does not know, by name.
    UnknownEvent(String),
}

/// The worker's plan for `m`: welcome mail, last-login update and admin
/// notice for a login; an analytics record for an API call; a report for any
/// other event.
pub open spec fn spec_plan(m: Message) -> Seq<WorkerAction> {
    if m.event@ == USER_LOGGED_IN@ {
        seq![
            WorkerAction::SendWelcomeEmail(field_of(m.data@, "username"@)),
            WorkerAction::UpdateLastLogin,
            WorkerAction::NotifyAdmin,
        ]
    } else if m.event@ == API_CALLED@ {
        seq![WorkerAction::LogApiCall(field_of(m.data@, "endpoint"@))]
    } else {
        seq![WorkerAction::UnknownEvent(m.event)]
    }
}

/// What the worker does for the event `m`, in order.
pub fn plan_actions(m: &Message) -> (r: Vec<WorkerAction>)
    ensures
        r@ == spec_plan(*m),
{
    let mut r: Vec<WorkerAction> = Vec::new();
    if m.event == USER_LOGGED_IN.to_owned() {
        r.push(WorkerAction::SendWelcomeEmail(field_value(&m.data, "username")));
        r.push(WorkerAction::UpdateLastLogin);
        r.push(WorkerAction::NotifyAdmin);
    } else if m.event == API_CALLED.to_owned() {
        r.push(WorkerAction::LogApiCall(field_value(&m.data, "endpoint")));
    } else {
        r.push(WorkerAction::UnknownEvent(m.event.clone()));
    }
    assert(r@ =~= spec_plan(*m));
    r
}

/// A first-in, first-out queue of events.
pub struct MessageQueue {
    queue: VecDeque<Message>,
}

impl View for MessageQueue {
    type V = Seq<Message>;

    closed spec fn view(&self) -> Seq<Message> {
        self.queue@
    }
}

/// `m` is the event `event` with payload `data`.
pub open spec fn is_event(m: Message, event: Seq<char>, data: Seq<(String, String)>) -> bool {
    m.event@ == event && m.data@ == data
}

/// The queue after one more event was published: the earlier events stay, in
/// order, and `event` with `data` comes last.
pub open spec fn published(
    before: Seq<Message>,
    after: Seq<Message>,
    event: Seq<char>,
    data: Seq<(String, String)>,
) -> bool {
    &&& after.len() == before.len() + 1
    &&& after.drop_last() == before
    &&& is_event(after.last(), event, data)
}

/// What taking the next event off `q` gives: the oldest event and the rest.
pub open spec fn spec_consume(q: Seq<Message>) -> (Option<Message>, Seq<Message>) {
    if q.len() == 0 {
        (None, q)
    } else {
        (Some(q[0]), q.drop_first())
    }
}

impl MessageQueue {
    /// An empty queue.
    pub fn new() -> (r: Self)
        ensures
            r@ == Seq::<Message>::empty(),
    {
        MessageQueue { queue: VecDeque::new() }
    }

    /// Appends the event `event` with payload `data`, stamped `timestamp`.
    pub fn publish_at(&mut self, event: &str, data: Vec<(String, String)>, timestamp: String)
        ensures
            published(old(self)@, final(self)@, event@, data@),
            final(self)@.last().timestamp == timestamp,
    {
        let m = Message { event: event.to_owned(), data, timestamp };
        self.queue.push_back(m);
        assert(self@.drop_last() =~= old(self)@);
    }

    /// Appends the event `event` with payload `data`, stamped with the current time.
    pub fn publish(&mut self, event: &str, data: Vec<(String, String)>)
        ensures
            published(old(self)@, final(self)@, event@, data@),
    {
        let timestamp = now_rfc3339();
        self.publish_at(event, data, timestamp);
    }

    /// Takes the oldest event off the queue; `None` when it is empty.
    pub fn consume(&mut self) -> (r: Option<Message>)
        ensures
            (r, final(self)@) == spec_consume(old(self)@),
    {
        let r = self.queue.pop_front();
        assert(self@ =~= spec_consume(old(self)@).1);
        r
    }

    /// The number of events waiting.
    pub fn len(&self) -> (n: usize)
        ensures
            n == self@.len(),
    {
        self.queue.len()
    }
}

/// Law: the queue is first-in, first-out. Taking the next event after a
/// publication gives the oldest event still waiting, which is the new one only
/// when the queue was empty, and the new event stays behind the others.
pub proof fn lemma_fifo(before: Seq<Message>, after: Seq<Message>, event: Seq<char>, data: Seq<(String, String)>)
    requires
        published(before, after, event, data),
    ensures
        before.len() == 0 ==> (spec_consume(after).0 matches Some(m) && is_event(m, event, data)
            && spec_consume(after).1.len() == 0),
        before.len() > 0 ==> spec_consume(after).0 == Some(before[0]) && published(
            spec_consume(before).1,
            spec_consume(after).1,
            event,
            data,
        ),
{
    if before.len() > 0 {
        assert(after[0] == before[0]);
        assert(spec_consume(after).1.drop_last() =~= spec_consume(before).1);
    }
}

/// One round of the background worker: takes the oldest event off the queue
/// and returns it with what the worker does for it; `None` when the queue is
/// empty.
pub fn worker_step(queue: &mut MessageQueue) -> (r: Option<(Message, Vec<WorkerAction>)>)
    ensures
        final(queue)@ == spec_consume(old(queue)@).1,
        match spec_consume(old(queue)@).0 {
            Some(m) => r matches Some(p) && p.0 == m && p.1@ == spec_plan(m),
            None => r is None,
        },
{
    match queue.consume() {
        Some(m) => {
            let plan = plan_actions(&m);
            Some((m, plan))
        },
        None => None,
    }
}

} // verus!
