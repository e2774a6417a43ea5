use vstd::prelude::*;

use crate::directory::{PeerDirectory, PeerStatus};
use crate::errors::HostError;
use crate::events::{
    is_discovery_event, is_fragment_found_event, is_fragment_miss_event, is_loss_event,
    is_message_event, offered_one_more, Event, EventChannel,
};
use crate::fragment::FragmentId;
use crate::identity::{NodeId, NodeInfo};
use crate::is_id_len;

verus! {

/// Where the host stands in its life. Before construction it does not exist;
/// `CSHost::new` leaves it initialized.
#[derive(Clone, Copy, Debug, PartialEq, Eq, Structural)]
pub enum LifecycleState {
    /// Identity registered, not yet started.
    Initialized,
    /// Started; inbound callbacks are live.
    Running,
    /// Stopped after running.
    Stopped,
}

/// What `start` leaves behind: a running host, whatever the state was before.
pub open spec fn start_transition(s: LifecycleState) -> LifecycleState {
    LifecycleState::Running
}

/// What `start` answers: `true` exactly when the host was not already running.
pub open spec fn start_accepted(s: LifecycleState) -> bool {
    s !is Running
}

/// What `stop` leaves behind: a running host becomes stopped; any other state
/// is left alone.
pub open spec fn stop_transition(s: LifecycleState) -> LifecycleState {
    if s is Running {
        LifecycleState::Stopped
    } else {
        s
    }
}

/// Two `start` calls in a row answer `true` at most once: whatever the state
/// was, the first call leaves the host running, so the second is refused.
pub proof fn lemma_start_twice(s: LifecycleState)
    ensures
        !start_accepted(start_transition(s)),
{
}

/// `stop` is idempotent, and a host that is not running is left untouched:
/// stopping twice leaves exactly what one stop leaves.
pub proof fn lemma_stop_idempotent(s: LifecycleState)
    ensures
        stop_transition(stop_transition(s)) == stop_transition(s),
        s !is Running ==> stop_transition(s) == s,
{
}

/// The bootstrap entries that pass identifier validation, in their given
/// order: exactly those whose identifier is 32 bytes long.
pub open spec fn valid_entries(infos: Seq<NodeInfo>) -> Seq<NodeInfo>
    decreases infos.len(),
{
    if infos.len() == 0 {
        Seq::empty()
    } else {
        let rest = valid_entries(infos.drop_last());
        if is_id_len(infos.last().id@) {
            rest.push(infos.last())
        } else {
            rest
        }
    }
}

/// The directory after seeding with a list of entries, in order: each entry
/// with a 32-byte identifier other than the host's own is recorded as a known
/// bootstrap contact; every other entry is skipped and changes nothing.
pub open spec fn seeded(
    m: Map<Seq<u8>, PeerStatus>,
    self_id: Seq<u8>,
    infos: Seq<NodeInfo>,
) -> Map<Seq<u8>, PeerStatus>
    decreases infos.len(),
{
    if infos.len() == 0 {
        m
    } else {
        let prev = seeded(m, self_id, infos.drop_last());
        let h = infos.last();
        if is_id_len(h.id@) && h.id@ != self_id {
            prev.insert(h.id@, PeerStatus::Known)
        } else {
            prev
        }
    }
}

/// Seeding never records the host itself: whether the host's own identifier
/// stands in the directory is left unchanged by any seed list.
pub proof fn lemma_seed_excludes_self(
    m: Map<Seq<u8>, PeerStatus>,
    self_id: Seq<u8>,
    infos: Seq<NodeInfo>,
)
    ensures
        seeded(m, self_id, infos).contains_key(self_id) == m.contains_key(self_id),
    decreases infos.len(),
{
    if infos.len() > 0 {
        lemma_seed_excludes_self(m, self_id, infos.drop_last());
    }
}

/// What the router decided for one outbound request: the single transport
/// primitive the caller must now perform, or the rejection.
pub enum RouteDecision {
    /// Deliver the payload to exactly this peer.
    Unicast(NodeId, Vec<u8>),
    /// Deliver the payload to all peers.
    Broadcast(Vec<u8>),
    /// The request named a malformed identifier; nothing is sent.
    Rejected(HostError),
}

/// The process-local peer-to-peer host: it owns the local identity, the peer
/// directory, the lifecycle state, and the sending half of the consumer's
/// event channel. A single instance per process is assumed, and lifecycle
/// calls are serialized by the caller.
pub struct CSHost {
    node_id: NodeId,
    state: LifecycleState,
    directory: PeerDirectory,
    channel: EventChannel,
}

impl CSHost {
    /// The local node's identifier.
    pub closed spec fn id(&self) -> Seq<u8> {
        self.node_id@
    }

    /// Where the host stands in its life.
    pub closed spec fn lifecycle(&self) -> LifecycleState {
        self.state
    }

    /// The peers the host currently knows, with their reachability.
    pub closed spec fn peers(&self) -> Map<Seq<u8>, PeerStatus> {
        self.directory@
    }

    /// Every event this host ever offered to the consumer's channel, in
    /// order — delivered or dropped on a failed send alike.
    pub closed spec fn offered(&self) -> Seq<Event> {
        self.channel.offered()
    }

    /// Builds a host owning the given 32-byte identity, with an empty
    /// directory and nothing offered to the consumer yet; the sending half
    /// of the consumer's channel moves in. An identity of any other length
    /// is rejected and nothing is constructed.
    pub fn new(node_id: &[u8], tx: std::sync::mpsc::Sender<Event>) -> (r: Result<
        CSHost,
        HostError,
    >)
        ensures
            is_id_len(node_id@) ==> (r matches Ok(h) && h.id() == node_id@ && h.lifecycle()
                == LifecycleState::Initialized && h.peers() == Map::<
                Seq<u8>,
                PeerStatus,
            >::empty() && h.offered() == Seq::<Event>::empty()),
            !is_id_len(node_id@) ==> r == Err::<CSHost, HostError>(
                HostError::InvalidIdentifierLength,
            ),
    {
        match NodeId::from_bytes(node_id) {
            Ok(id) => Ok(
                CSHost {
                    node_id: id,
                    state: LifecycleState::Initialized,
                    directory: PeerDirectory::new(),
                    channel: EventChannel::new(tx),
                },
            ),
            Err(e) => Err(e),
        }
    }

    /// Starts the host. Already running: answers `false` with no effect.
    /// Otherwise the host becomes running — the caller then registers the
    /// callback handlers with the transport — and the answer is `true`.
    pub fn start(&mut self) -> (r: bool)
        ensures
            r == start_accepted(old(self).lifecycle()),
            final(self).lifecycle() == start_transition(old(self).lifecycle()),
            final(self).id() == old(self).id(),
            final(self).peers() == old(self).peers(),
            final(self).offered() == old(self).offered(),
    {
        if self.state == LifecycleState::Running {
            return false;
        }
        self.state = LifecycleState::Running;
        true
    }

    /// Stops a running host — the caller then signals the transport to halt.
    /// In any other state this is a no-op; it is safe to call repeatedly.
    pub fn stop(&mut self)
        ensures
            final(self).lifecycle() == stop_transition(old(self).lifecycle()),
            final(self).id() == old(self).id(),
            final(self).peers() == old(self).peers(),
            final(self).offered() == old(self).offered(),
    {
        if self.state == LifecycleState::Running {
            self.state = LifecycleState::Stopped;
        }
    }

    /// Seeds the directory with bootstrap contacts. Each entry is validated
    /// on its own: one whose identifier is not 32 bytes long is skipped and
    /// never aborts the processing of the remainder. The accepted entries
    /// come back, in order, for the caller to hand to the transport as entry
    /// points; each of them, save one naming the host itself, is recorded in
    /// the directory as a known peer. Seeding offers nothing to the
    /// consumer's channel.
    pub fn add_known_hosts(&mut self, hosts: Vec<NodeInfo>) -> (accepted: Vec<NodeInfo>)
        ensures
            accepted@ == valid_entries(hosts@),
            final(self).peers() == seeded(old(self).peers(), old(self).id(), hosts@),
            final(self).id() == old(self).id(),
            final(self).lifecycle() == old(self).lifecycle(),
            final(self).offered() == old(self).offered(),
    {
        let ghost all = hosts@;
        let ghost m0 = self.directory@;
        let ghost sid = self.node_id@;
        let ghost st0 = self.state;
        let ghost off0 = self.channel.offered();
        let mut rest = hosts;
        let _total: usize = rest.len();
        proof {
            assert(all.len() == _total);
        }
        let mut accepted: Vec<NodeInfo> = Vec::new();
        let mut k: usize = 0;
        while rest.len() > 0
            invariant
                k <= all.len(),
                all.len() <= usize::MAX,
                rest@ == all.subrange(k as int, all.len() as int),
                accepted@ == valid_entries(all.take(k as int)),
                self.directory@ == seeded(m0, sid, all.take(k as int)),
                self.node_id@ == sid,
                self.state == st0,
                self.channel.offered() == off0,
            decreases all.len() - k,
        {
            let h = rest.remove(0);
            proof {
                assert(h == all[k as int]);
                assert(rest@ =~= all.subrange(k as int + 1, all.len() as int));
                assert(all.take(k as int + 1).drop_last() =~= all.take(k as int));
                assert(all.take(k as int + 1).last() == all[k as int]);
            }
            match NodeId::from_bytes(h.id.as_slice()) {
                Ok(nid) => {
                    if !nid.same(&self.node_id) {
                        self.directory.upsert(nid, PeerStatus::Known);
                    }
                    accepted.push(h);
                },
                Err(_) => {
                    // invalid identifier length: logged by the caller, skipped here
                },
            }
            k = k + 1;
        }
        proof {
            assert(all.take(all.len() as int) =~= all);
        }
        accepted
    }

    /// Inbound message callback: a malformed origin identifier is a contract
    /// violation — rejected, and nothing is offered to the consumer;
    /// otherwise exactly one message event, carrying this origin and this
    /// payload, is offered, best effort.
    pub fn on_message(&mut self, id: &[u8], payload: Vec<u8>) -> (r: Result<(), HostError>)
        ensures
            final(self).id() == old(self).id(),
            final(self).lifecycle() == old(self).lifecycle(),
            final(self).peers() == old(self).peers(),
            !is_id_len(id@) ==> r == Err::<(), HostError>(HostError::InvalidIdentifierLength)
                && final(self).offered() == old(self).offered(),
            is_id_len(id@) ==> offered_one_more(old(self).offered(), final(self).offered())
                && is_message_event(final(self).offered().last(), id@, payload@) && (r is Ok || r
                == Err::<(), HostError>(HostError::ChannelSendFailure)),
    {
        match NodeId::from_bytes(id) {
            Ok(nid) => {
                let r = self.channel.send(Event::MessageReceived((nid, payload)));
                proof {
                    assert(self.channel.offered().drop_last() =~= old(self).offered());
                }
                r
            },
            Err(e) => Err(e),
        }
    }

    /// Inbound discovery callback: a malformed identifier is rejected, the
    /// directory untouched, nothing offered to the consumer; a report of the
    /// host's own identity is ignored the same way; any other peer is
    /// recorded live and exactly one discovery event for it is offered, best
    /// effort.
    pub fn on_node_found(&mut self, id: &[u8]) -> (r: Result<(), HostError>)
        ensures
            final(self).id() == old(self).id(),
            final(self).lifecycle() == old(self).lifecycle(),
            !is_id_len(id@) ==> r == Err::<(), HostError>(HostError::InvalidIdentifierLength)
                && final(self).peers() == old(self).peers() && final(self).offered() == old(
                self,
            ).offered(),
            is_id_len(id@) && id@ == old(self).id() ==> r is Ok && final(self).peers() == old(
                self,
            ).peers() && final(self).offered() == old(self).offered(),
            is_id_len(id@) && id@ != old(self).id() ==> final(self).peers() == old(
                self,
            ).peers().insert(id@, PeerStatus::Live) && offered_one_more(
                old(self).offered(),
                final(self).offered(),
            ) && is_discovery_event(final(self).offered().last(), id@) && (r is Ok || r
                == Err::<(), HostError>(HostError::ChannelSendFailure)),
    {
        match NodeId::from_bytes(id) {
            Ok(nid) => {
                if nid.same(&self.node_id) {
                    return Ok(());
                }
                let ev_id = nid.dup();
                self.directory.upsert(nid, PeerStatus::Live);
                let r = self.channel.send(Event::NodeDiscovered(ev_id));
                proof {
                    assert(self.channel.offered().drop_last() =~= old(self).offered());
                }
                r
            },
            Err(e) => Err(e),
        }
    }

    /// Inbound loss callback: a malformed identifier is rejected, the
    /// directory untouched, nothing offered to the consumer; a report of the
    /// host's own identity is ignored the same way; any other peer is
    /// removed and exactly one loss event for it is offered, best effort.
    pub fn on_node_lost(&mut self, id: &[u8]) -> (r: Result<(), HostError>)
        ensures
            final(self).id() == old(self).id(),
            final(self).lifecycle() == old(self).lifecycle(),
            !is_id_len(id@) ==> r == Err::<(), HostError>(HostError::InvalidIdentifierLength)
                && final(self).peers() == old(self).peers() && final(self).offered() == old(
                self,
            ).offered(),
            is_id_len(id@) && id@ == old(self).id() ==> r is Ok && final(self).peers() == old(
                self,
            ).peers() && final(self).offered() == old(self).offered(),
            is_id_len(id@) && id@ != old(self).id() ==> final(self).peers() == old(
                self,
            ).peers().remove(id@) && offered_one_more(old(self).offered(), final(self).offered())
                && is_loss_event(final(self).offered().last(), id@) && (r is Ok || r == Err::<
                (),
                HostError,
            >(HostError::ChannelSendFailure)),
    {
        match NodeId::from_bytes(id) {
            Ok(nid) => {
                if nid.same(&self.node_id) {
                    return Ok(());
                }
                self.directory.remove(&nid);
                let r = self.channel.send(Event::NodeLost(nid));
                proof {
                    assert(self.channel.offered().drop_last() =~= old(self).offered());
                }
                r
            },
            Err(e) => Err(e),
        }
    }

    /// Inbound fragment callback: once the identifier's length is validated,
    /// exactly one found-fragment event, carrying this identifier and these
    /// bytes unchanged, is offered to the consumer, best effort; a malformed
    /// identifier is rejected and nothing is offered.
    pub fn on_fragment_found(&mut self, id: &[u8], data: Vec<u8>) -> (r: Result<(), HostError>)
        ensures
            final(self).id() == old(self).id(),
            final(self).lifecycle() == old(self).lifecycle(),
            final(self).peers() == old(self).peers(),
            !is_id_len(id@) ==> r == Err::<(), HostError>(HostError::InvalidIdentifierLength)
                && final(self).offered() == old(self).offered(),
            is_id_len(id@) ==> offered_one_more(old(self).offered(), final(self).offered())
                && is_fragment_found_event(final(self).offered().last(), id@, data@) && (r is Ok
                || r == Err::<(), HostError>(HostError::ChannelSendFailure)),
    {
        match FragmentId::from_bytes(id) {
            Ok(fid) => {
                let r = self.channel.send(Event::FragmentFound(fid, data));
                proof {
                    assert(self.channel.offered().drop_last() =~= old(self).offered());
                }
                r
            },
            Err(e) => Err(e),
        }
    }

    /// Inbound miss callback: once the identifier's length is validated,
    /// exactly one miss event for this identifier is offered to the
    /// consumer, best effort; a malformed identifier is rejected and nothing
    /// is offered.
    pub fn on_fragment_not_found(&mut self, id: &[u8]) -> (r: Result<(), HostError>)
        ensures
            final(self).id() == old(self).id(),
            final(self).lifecycle() == old(self).lifecycle(),
            final(self).peers() == old(self).peers(),
            !is_id_len(id@) ==> r == Err::<(), HostError>(HostError::InvalidIdentifierLength)
                && final(self).offered() == old(self).offered(),
            is_id_len(id@) ==> offered_one_more(old(self).offered(), final(self).offered())
                && is_fragment_miss_event(final(self).offered().last(), id@) && (r is Ok || r
                == Err::<(), HostError>(HostError::ChannelSendFailure)),
    {
        match FragmentId::from_bytes(id) {
            Ok(fid) => {
                let r = self.channel.send(Event::FragmentNotFound(fid));
                proof {
                    assert(self.channel.offered().drop_last() =~= old(self).offered());
                }
                r
            },
            Err(e) => Err(e),
        }
    }

    /// Whether the host is currently running.
    pub fn is_running(&self) -> (r: bool)
        ensures
            r == (self.lifecycle() is Running),
    {
        self.state == LifecycleState::Running
    }

    /// Whether the peer with this identifier is currently in the directory.
    /// A malformed identifier is never in it.
    pub fn knows(&self, node_id: &[u8]) -> (r: bool)
        ensures
            is_id_len(node_id@) ==> r == self.peers().contains_key(node_id@),
            !is_id_len(node_id@) ==> r == false,
    {
        match NodeId::from_bytes(node_id) {
            Ok(nid) => self.directory.contains(&nid),
            Err(_) => false,
        }
    }

    /// The reachability recorded for this peer: `Known` from seeding, `Live`
    /// from discovery, nothing when the peer is not in the directory or the
    /// identifier is malformed.
    pub fn peer_status(&self, node_id: &[u8]) -> (r: Option<PeerStatus>)
        ensures
            is_id_len(node_id@) ==> r == (if self.peers().contains_key(node_id@) {
                Some(self.peers()[node_id@])
            } else {
                None::<PeerStatus>
            }),
            !is_id_len(node_id@) ==> r is None,
    {
        match NodeId::from_bytes(node_id) {
            Ok(nid) => self.directory.status_of(&nid),
            Err(_) => None,
        }
    }

    /// Unicast dispatch: the identifier is validated first — a malformed one
    /// is rejected and never sent downstream — and otherwise the payload is
    /// directed to that peer, unchanged.
    pub fn send_to(node_id: &[u8], data: Vec<u8>) -> (r: RouteDecision)
        ensures
            is_id_len(node_id@) ==> (r matches RouteDecision::Unicast(id, d) && id@ == node_id@
                && d@ == data@),
            !is_id_len(node_id@) ==> r == RouteDecision::Rejected(
                HostError::InvalidIdentifierLength,
            ),
    {
        match NodeId::from_bytes(node_id) {
            Ok(nid) => RouteDecision::Unicast(nid, data),
            Err(e) => RouteDecision::Rejected(e),
        }
    }

    /// Broadcast dispatch: the payload goes to all peers, unchanged; no
    /// identifier is involved, so nothing is validated.
    pub fn broadcast(data: Vec<u8>) -> (r: RouteDecision)
        ensures
            r matches RouteDecision::Broadcast(d) && d@ == data@,
    {
        RouteDecision::Broadcast(data)
    }

    /// Unicast with fallback: a malformed identifier is rejected; a peer
    /// absent from the directory cannot be guaranteed unicast delivery, so
    /// the payload falls back to the broadcast path; a known peer gets the
    /// unicast.
    pub fn send_or_broadcast(&self, node_id: &[u8], data: Vec<u8>) -> (r: RouteDecision)
        ensures
            !is_id_len(node_id@) ==> r == RouteDecision::Rejected(
                HostError::InvalidIdentifierLength,
            ),
            is_id_len(node_id@) && self.peers().contains_key(node_id@) ==> (r matches
                RouteDecision::Unicast(id, d) && id@ == node_id@ && d@ == data@),
            is_id_len(node_id@) && !self.peers().contains_key(node_id@) ==> (r matches
                RouteDecision::Broadcast(d) && d@ == data@),
    {
        match NodeId::from_bytes(node_id) {
            Ok(nid) => {
                if self.directory.contains(&nid) {
                    RouteDecision::Unicast(nid, data)
                } else {
                    RouteDecision::Broadcast(data)
                }
            },
            Err(e) => RouteDecision::Rejected(e),
        }
    }
}

} // verus!
