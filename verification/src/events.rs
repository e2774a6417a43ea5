use vstd::prelude::*;

use crate::errors::HostError;
use crate::fragment::FragmentId;
use crate::identity::NodeId;

verus! {

/// The unit handed to the consumer for one inbound message: the originating
/// node and the opaque payload bytes.
pub type RawPacket = (NodeId, Vec<u8>);

/// The single ordered stream the consumer reads: every inbound callback the
/// transport raises is normalized into one of these.
pub enum Event {
    /// A message arrived from a peer.
    MessageReceived(RawPacket),
    /// A peer was discovered, or reported live again.
    NodeDiscovered(NodeId),
    /// A peer was lost.
    NodeLost(NodeId),
    /// A requested fragment was found, with its bytes.
    FragmentFound(FragmentId, Vec<u8>),
    /// A requested fragment could not be found.
    FragmentNotFound(FragmentId),
}

/// Whether an event is the message event carrying exactly this origin and
/// this payload.
pub open spec fn is_message_event(e: Event, origin: Seq<u8>, payload: Seq<u8>) -> bool {
    e matches Event::MessageReceived(p) && p.0@ == origin && p.1@ == payload
}

/// Whether an event is the discovery event for exactly this peer.
pub open spec fn is_discovery_event(e: Event, id: Seq<u8>) -> bool {
    e matches Event::NodeDiscovered(n) && n@ == id
}

/// Whether an event is the loss event for exactly this peer.
pub open spec fn is_loss_event(e: Event, id: Seq<u8>) -> bool {
    e matches Event::NodeLost(n) && n@ == id
}

/// Whether an event is the found-fragment event carrying exactly this
/// identifier and these bytes.
pub open spec fn is_fragment_found_event(e: Event, id: Seq<u8>, data: Seq<u8>) -> bool {
    e matches Event::FragmentFound(f, d) && f@ == id && d@ == data
}

/// Whether an event is the miss event for exactly this fragment identifier.
pub open spec fn is_fragment_miss_event(e: Event, id: Seq<u8>) -> bool {
    e matches Event::FragmentNotFound(f) && f@ == id
}

/// The log `post` is `pre` grown by exactly one event at its end.
pub open spec fn offered_one_more(pre: Seq<Event>, post: Seq<Event>) -> bool {
    post.len() == pre.len() + 1 && post.drop_last() == pre
}

#[verifier::external_type_specification]
#[verifier::external_body]
#[verifier::reject_recursive_types(T)]
pub struct ExSender<T>(std::sync::mpsc::Sender<T>);

/// Relies on std::sync::mpsc::Sender::send: queues the value for the single
/// receiver without blocking; it fails only when the receiving half has
/// disconnected, and the value is then dropped.
#[verifier::external_body]
fn sender_send(tx: &std::sync::mpsc::Sender<Event>, event: Event) -> (delivered: bool) {
    tx.send(event).is_ok()
}

/// Ordered, best-effort handoff from the network callbacks to the single
/// consumer. The sending half lives here; the receiving half stays with the
/// consumer, whose lifetime must exceed the host's running period. The
/// channel keeps a ghost log of every event it was handed, so callers'
/// contracts can say exactly what was offered to the consumer.
pub struct EventChannel {
    tx: std::sync::mpsc::Sender<Event>,
    log: Ghost<Seq<Event>>,
}

impl EventChannel {
    /// Every event this channel was ever handed, in order of offering —
    /// delivered to the consumer or dropped on a failed send alike.
    pub closed spec fn offered(&self) -> Seq<Event> {
        self.log@
    }

    /// Wraps the sending half of the consumer's channel; nothing has been
    /// offered yet.
    pub fn new(tx: std::sync::mpsc::Sender<Event>) -> (r: EventChannel)
        ensures
            r.offered() == Seq::<Event>::empty(),
    {
        EventChannel { tx, log: Ghost(Seq::empty()) }
    }

    /// Hands one event to the consumer: the offered log grows by exactly
    /// that event. Best effort: when the consumer's receiving side is gone,
    /// the event is dropped and the failure is reported; the call never
    /// blocks or aborts the calling thread.
    pub fn send(&mut self, event: Event) -> (r: Result<(), HostError>)
        ensures
            final(self).offered() == old(self).offered().push(event),
            r is Ok || r == Err::<(), HostError>(HostError::ChannelSendFailure),
    {
        self.log = Ghost(self.log@.push(event));
        if sender_send(&self.tx, event) {
            Ok(())
        } else {
            Err(HostError::ChannelSendFailure)
        }
    }
}

} // verus!
