//! One step of the notification dispatch loop: from the guard's state and a
//! notification to the guard's next state and the messages to publish.
//!
//! The loop itself waits for notifications and talks to the broker; it hands
//! each notification to [`dispatch`] and publishes what comes back, in order,
//! before it takes the next one. An error ends the loop.

use vstd::prelude::*;
use crate::decode::{error_of, first_absent, payload_outcome, shape_of, DecodeError};
use crate::dedup::{guard_step, DedupGuard};
use crate::event::{ChangeEvent, EventKind, FillKey, FillNotif};
use crate::json::parsed_members;

verus! {

/// The delivery guarantees that a broker offers.
#[derive(Clone, Copy, Debug, PartialEq, Eq, Structural)]
pub enum Delivery {
    AtMostOnce,
    AtLeastOnce,
    ExactlyOnce,
}

/// One message for the broker.
#[derive(Clone, Debug, PartialEq, Eq)]
pub struct Publish {
    pub topic: String,
    pub payload: String,
    pub delivery: Delivery,
    pub retain: bool,
}

/// The topic and the payload of a message.
pub struct Message {
    pub topic: Seq<char>,
    pub payload: Seq<char>,
}

impl View for Publish {
    type V = Message;

    open spec fn view(&self) -> Message {
        Message { topic: self.topic@, payload: self.payload@ }
    }
}

/// The topic and payload of each message of a list.
pub open spec fn messages(v: Seq<Publish>) -> Seq<Message> {
    Seq::new(v.len(), |i: int| v[i]@)
}

/// Whether every message of a list is delivered at least once and not
/// retained by the broker.
pub open spec fn delivered_at_least_once(v: Seq<Publish>) -> bool {
    forall|i: int|
        0 <= i < v.len() ==> (#[trigger] v[i]).delivery == Delivery::AtLeastOnce && !v[i].retain
}

/// The messages of an event: its payload under each of its topics, in the
/// order of the topics.
pub open spec fn messages_of(event: ChangeEvent) -> Seq<Message> {
    Seq::new(
        event.route().topics().len(),
        |i: int| Message { topic: event.route().topics()[i], payload: event.payload_spec() },
    )
}

/// What the dispatch loop does with one event when the guard holds
/// `pending`: the keys that the guard holds afterwards and the messages that
/// are published. Only a fill passes the guard.
pub open spec fn dispatch_step(pending: Set<FillKey>, event: ChangeEvent) -> (
    Set<FillKey>,
    Seq<Message>,
) {
    match event {
        ChangeEvent::Fill(fill) => {
            let step = guard_step(pending, fill.key_spec());
            (
                step.0,
                if step.1 {
                    messages_of(event)
                } else {
                    Seq::empty()
                },
            )
        },
        _ => (pending, messages_of(event)),
    }
}

/// The messages of an event, whatever the guard holds.
pub fn publishes_of(event: &ChangeEvent) -> (out: Vec<Publish>)
    ensures
        messages(out@) == messages_of(*event),
        delivered_at_least_once(out@),
{
    let mut topics = event.topics();
    let ghost all = topics@;
    let mut out: Vec<Publish> = Vec::new();
    let mut i: usize = 0;
    let n = topics.len();
    while i < n
        invariant
            0 <= i <= n,
            n == topics@.len(),
            n == all.len(),
            forall|j: int| i <= j < n ==> topics@[j]@ == all[j]@,
            out@.len() == i,
            forall|j: int|
                0 <= j < i ==> (#[trigger] out@[j]).topic@ == all[j]@ && out@[j].payload@
                    == event.payload_spec() && out@[j].delivery == Delivery::AtLeastOnce
                    && !out@[j].retain,
        decreases n - i,
    {
        let mut topic = String::new();
        std::mem::swap(&mut topic, &mut topics[i]);
        out.push(
            Publish { topic, payload: event.payload(), delivery: Delivery::AtLeastOnce, retain: false },
        );
        i = i + 1;
    }
    proof {
        let want = messages_of(*event);
        assert(crate::topic::texts(all) == event.route().topics());
        assert(want.len() == all.len());
        assert forall|j: int| 0 <= j < want.len() implies messages(out@)[j] == want[j] by {
            assert(crate::topic::texts(all)[j] == all[j]@);
        }
        assert(messages(out@) =~= want);
    }
    out
}

/// Takes one decoded event through the guard and says what is published.
pub fn route_event(guard: &mut DedupGuard, event: &ChangeEvent) -> (out: Vec<Publish>)
    requires
        old(guard).wf(),
    ensures
        final(guard).wf(),
        final(guard)@ == dispatch_step(old(guard)@, *event).0,
        messages(out@) == dispatch_step(old(guard)@, *event).1,
        delivered_at_least_once(out@),
{
    match event {
        ChangeEvent::Fill(fill) => {
            if guard.observe(fill.key()) {
                publishes_of(event)
            } else {
                let out: Vec<Publish> = Vec::new();
                assert(messages(out@) =~= Seq::<Message>::empty());
                out
            }
        },
        _ => publishes_of(event),
    }
}

/// Takes one notification: looks its channel up, decodes its payload, takes
/// the event through the guard and says what is published.
///
/// A notification on a channel that belongs to no kind of event is ignored.
/// A payload that cannot be decoded is an error, and nothing is published
/// for it.
pub fn dispatch(guard: &mut DedupGuard, channel: &str, payload: &str) -> (r: Result<
    Vec<Publish>,
    DecodeError,
>)
    requires
        old(guard).wf(),
    ensures
        final(guard).wf(),
        match EventKind::of_channel_spec(channel@) {
            None => r matches Ok(out) && out@.len() == 0 && final(guard)@ == old(guard)@,
            Some(kind) => {
                &&& payload_outcome(payload@, shape_of(kind), error_of(r))
                &&& r is Err ==> final(guard)@ == old(guard)@
                &&& r matches Ok(out) ==> delivered_at_least_once(out@) && exists|e: ChangeEvent|
                    {
                        &&& e.kind_spec() == kind
                        &&& #[trigger] e.agrees_with(parsed_members(payload@)->0)
                        &&& final(guard)@ == dispatch_step(old(guard)@, e).0
                        &&& messages(out@) == dispatch_step(old(guard)@, e).1
                    }
            },
        },
{
    match EventKind::of_channel(channel) {
        None => Ok(Vec::new()),
        Some(kind) => {
            let event = ChangeEvent::decode(kind, payload)?;
            Ok(route_event(guard, &event))
        },
    }
}

/// Of two fills of one trade that follow each other, exactly one is
/// published, under its maker's topic and then its taker's, and the guard
/// then holds what it held before. Where the two records agree on the
/// routing fields and on the payload, the same two messages go out whichever
/// of them comes first.
pub proof fn lemma_fill_pair_published_once(pending: Set<FillKey>, a: FillNotif, b: FillNotif)
    requires
        a.key_spec() == b.key_spec(),
    ensures
        ({
            let first = dispatch_step(pending, ChangeEvent::Fill(a));
            let second = dispatch_step(first.0, ChangeEvent::Fill(b));
            let published = if pending.contains(a.key_spec()) {
                b
            } else {
                a
            };
            &&& second.0 == pending
            &&& first.1 + second.1 == messages_of(ChangeEvent::Fill(published))
            &&& (first.1 + second.1).len() == 2
            &&& (first.1 + second.1)[0].topic == published.route().topics()[0]
            &&& (first.1 + second.1)[1].topic == published.route().topics()[1]
            &&& (a.route() == b.route() && a.payload_spec() == b.payload_spec()) ==> first.1
                + second.1 == messages_of(ChangeEvent::Fill(a))
        }),
{
    let first = dispatch_step(pending, ChangeEvent::Fill(a));
    let second = dispatch_step(first.0, ChangeEvent::Fill(b));
    let published = if pending.contains(a.key_spec()) {
        b
    } else {
        a
    };
    assert(second.0 =~= pending);
    assert(first.1 + second.1 =~= messages_of(ChangeEvent::Fill(published)));
    if a.route() == b.route() && a.payload_spec() == b.payload_spec() {
        assert(messages_of(ChangeEvent::Fill(a)) =~= messages_of(ChangeEvent::Fill(b)));
    }
}

/// An event of any kind but a fill is published exactly once, under the one
/// topic of its kind, and leaves the guard as it was.
pub proof fn lemma_other_kinds_published_once(pending: Set<FillKey>, event: ChangeEvent)
    requires
        event.kind_spec() != EventKind::Fill,
    ensures
        dispatch_step(pending, event).0 == pending,
        dispatch_step(pending, event).1.len() == 1,
        dispatch_step(pending, event).1[0].topic == event.route().topics()[0],
        dispatch_step(pending, event).1[0].payload == event.payload_spec(),
{
}

} // verus!
