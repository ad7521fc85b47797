//! The peer registry: the connected peers, each with the channel on which
//! it is sent notifications.

use vstd::prelude::*;
use crate::notify::{wire_text, Notification};

verus! {

/// The sending half of a `tokio` channel without bound.
#[verifier::external_type_specification]
#[verifier::external_body]
#[verifier::reject_recursive_types(T)]
pub struct ExUnboundedSender<T>(tokio::sync::mpsc::UnboundedSender<T>);

/// A JSON value of `serde_json`.
#[verifier::external_type_specification]
#[verifier::external_body]
pub struct ExValue(serde_json::Value);

/// Calls `serde_json::from_str` for a `serde_json::Value`, and hands out the
/// value where the text was read as one. Nothing is assumed of the outcome.
#[verifier::external_body]
fn parse_json(text: &str) -> (value: Option<serde_json::Value>) {
    serde_json::from_str(text).ok()
}

/// Calls `tokio::sync::mpsc::UnboundedSender::send`, and says whether the
/// channel took the value: it does not once the receiving half is closed or
/// dropped. Nothing is assumed of the outcome.
#[verifier::external_body]
fn send_value(
    channel: &tokio::sync::mpsc::UnboundedSender<serde_json::Value>,
    value: serde_json::Value,
) -> (accepted: bool) {
    channel.send(value).is_ok()
}

/// The network address by which a peer is known.
#[derive(Debug, Clone, Copy, PartialEq, Eq, Hash, Structural)]
pub enum PeerAddr {
    /// An IPv4 address, its four bytes as one number, and a port.
    V4 { octets: u32, port: u16 },
    /// An IPv6 address, its sixteen bytes as one number, a port, the flow
    /// information and the scope.
    V6 { segments: u128, port: u16, flowinfo: u32, scope_id: u32 },
}

/// What became of a notification on one peer's channel.
#[derive(Debug, Clone, Copy, PartialEq, Eq, Structural)]
pub struct Delivery {
    pub peer: PeerAddr,
    /// Whether the channel took the notification. It does not once the peer
    /// is gone.
    pub accepted: bool,
}

/// One broadcast: the text that was sent, and what became of it on the
/// channel of each peer, in the order of the registry.
#[derive(Debug)]
pub struct Broadcast {
    pub message: String,
    pub deliveries: Vec<Delivery>,
}

/// The peers of `deliveries`, in order.
pub open spec fn delivery_peers(deliveries: Seq<Delivery>) -> Seq<PeerAddr> {
    Seq::new(deliveries.len(), |i: int| deliveries[i].peer)
}

/// The peers of `deliveries` whose channel did not take the notification, in
/// order.
pub open spec fn refused_peers(deliveries: Seq<Delivery>) -> Seq<PeerAddr>
    decreases deliveries.len(),
{
    if deliveries.len() == 0 {
        Seq::empty()
    } else if deliveries.last().accepted {
        refused_peers(deliveries.drop_last())
    } else {
        refused_peers(deliveries.drop_last()).push(deliveries.last().peer)
    }
}

impl Broadcast {
    /// Whether this is a broadcast of `text` to exactly the peers `order`,
    /// each once and in this order.
    pub open spec fn reached(&self, text: Seq<char>, order: Seq<PeerAddr>) -> bool {
        self.message@ == text && delivery_peers(self.deliveries@) == order
    }

    /// A broadcast of `message` that has reached no peer yet.
    pub fn new(message: String) -> (b: Self)
        ensures
            b.message == message,
            b.deliveries@ == Seq::<Delivery>::empty(),
    {
        Broadcast { message, deliveries: Vec::new() }
    }

    /// Notes what became of the notification on the channel of `peer`.
    pub fn record(&mut self, peer: PeerAddr, accepted: bool)
        ensures
            final(self).message == old(self).message,
            final(self).deliveries@ == old(self).deliveries@.push(Delivery { peer, accepted }),
    {
        self.deliveries.push(Delivery { peer, accepted });
    }

    /// The peers whose channel did not take the notification: they are gone,
    /// and their entries can be removed.
    pub fn refused(&self) -> (peers: Vec<PeerAddr>)
        ensures
            peers@ == refused_peers(self.deliveries@),
    {
        let mut peers: Vec<PeerAddr> = Vec::new();
        let mut i: usize = 0;
        while i < self.deliveries.len()
            invariant
                i <= self.deliveries.len(),
                peers@ == refused_peers(self.deliveries@.take(i as int)),
            decreases self.deliveries.len() - i,
        {
            proof {
                assert(self.deliveries@.take(i + 1).drop_last() =~= self.deliveries@.take(i as int));
            }
            if !self.deliveries[i].accepted {
                peers.push(self.deliveries[i].peer);
            }
            i += 1;
        }
        assert(self.deliveries@.take(i as int) =~= self.deliveries@);
        peers
    }
}

/// A connected peer.
pub struct Peer {
    addr: PeerAddr,
    channel: tokio::sync::mpsc::UnboundedSender<serde_json::Value>,
}

/// The connected peers. No address stands twice.
pub struct PeerRegistry {
    peers: Vec<Peer>,
}

/// The position of `peer` in `order`, if it is there.
pub open spec fn position_of_peer(order: Seq<PeerAddr>, peer: PeerAddr) -> Option<int>
    decreases order.len(),
{
    if order.len() == 0 {
        None
    } else if position_of_peer(order.drop_last(), peer) is Some {
        position_of_peer(order.drop_last(), peer)
    } else if order.last() == peer {
        Some(order.len() - 1)
    } else {
        None
    }
}

/// What `position_of_peer` finds: the first position that holds the peer;
/// and nothing only where no position holds it.
pub proof fn lemma_position_of_peer(order: Seq<PeerAddr>, peer: PeerAddr)
    ensures
        match position_of_peer(order, peer) {
            Some(i) => 0 <= i < order.len() && order[i] == peer && forall|j: int|
                0 <= j < i ==> order[j] != peer,
            None => forall|j: int| 0 <= j < order.len() ==> order[j] != peer,
        },
        position_of_peer(order, peer) is Some <==> order.contains(peer),
    decreases order.len(),
{
    if order.len() > 0 {
        let front = order.drop_last();
        lemma_position_of_peer(front, peer);
        match position_of_peer(front, peer) {
            Some(i) => {
                assert(front[i] == order[i]);
                assert forall|j: int| 0 <= j < i implies order[j] != peer by {
                    assert(front[j] == order[j]);
                }
            },
            None => {
                assert forall|j: int| 0 <= j < order.len() - 1 implies order[j] != peer by {
                    assert(front[j] == order[j]);
                }
            },
        }
    }
    match position_of_peer(order, peer) {
        Some(i) => {
            assert(order[i] == peer);
        },
        None => {
            if order.contains(peer) {
                let k = choose|k: int| 0 <= k < order.len() && order[k] == peer;
                assert(order[k] != peer);
            }
        },
    }
}

/// `order` without `peer`.
pub open spec fn without_peer(order: Seq<PeerAddr>, peer: PeerAddr) -> Seq<PeerAddr> {
    match position_of_peer(order, peer) {
        Some(i) => order.remove(i),
        None => order,
    }
}

/// A peer found in a prefix is found at the same place in the whole.
proof fn lemma_peer_in_prefix(order: Seq<PeerAddr>, peer: PeerAddr, k: int)
    requires
        0 <= k <= order.len(),
        position_of_peer(order.take(k), peer) is Some,
    ensures
        position_of_peer(order, peer) == position_of_peer(order.take(k), peer),
    decreases order.len() - k,
{
    if k < order.len() {
        assert(order.take(k + 1).drop_last() =~= order.take(k));
        lemma_peer_in_prefix(order, peer, k + 1);
    } else {
        assert(order.take(k) =~= order);
    }
}

impl PeerRegistry {
    /// The addresses of the peers, in the order in which they are sent to:
    /// the order in which they were added.
    pub closed spec fn order(&self) -> Seq<PeerAddr> {
        Seq::new(self.peers@.len(), |i: int| self.peers@[i].addr)
    }

    /// The channel of each peer.
    pub closed spec fn channels(&self) -> Map<
        PeerAddr,
        tokio::sync::mpsc::UnboundedSender<serde_json::Value>,
    > {
        Map::new(
            |peer: PeerAddr| self.order().contains(peer),
            |peer: PeerAddr| self.peers@[position_of_peer(self.order(), peer)->0].channel,
        )
    }

    /// The invariant of the registry: no address stands twice.
    pub open spec fn wf(&self) -> bool {
        self.order().no_duplicates()
    }

    /// The registry without peers.
    pub fn new() -> (registry: Self)
        ensures
            registry.wf(),
            registry.order() == Seq::<PeerAddr>::empty(),
            registry.channels() == Map::<
                PeerAddr,
                tokio::sync::mpsc::UnboundedSender<serde_json::Value>,
            >::empty(),
    {
        let registry = PeerRegistry { peers: Vec::new() };
        assert(registry.order() =~= Seq::<PeerAddr>::empty());
        assert(registry.channels() =~= Map::<
            PeerAddr,
            tokio::sync::mpsc::UnboundedSender<serde_json::Value>,
        >::empty());
        registry
    }

    /// The number of peers.
    pub fn len(&self) -> (n: usize)
        ensures
            n == self.order().len(),
    {
        self.peers.len()
    }

    /// The position of `peer`.
    fn find(&self, peer: PeerAddr) -> (found: Option<usize>)
        ensures
            match found {
                Some(i) => position_of_peer(self.order(), peer) == Some(i as int) && i
                    < self.peers@.len(),
                None => position_of_peer(self.order(), peer) is None,
            },
    {
        let mut i: usize = 0;
        while i < self.peers.len()
            invariant
                i <= self.peers.len(),
                self.order().len() == self.peers@.len(),
                position_of_peer(self.order().take(i as int), peer) is None,
            decreases self.peers.len() - i,
        {
            proof {
                assert(self.order().take(i + 1).drop_last() =~= self.order().take(i as int));
                assert(self.order().take(i + 1).last() == self.peers@[i as int].addr);
            }
            if self.peers[i].addr == peer {
                proof {
                    lemma_peer_in_prefix(self.order(), peer, i + 1);
                }
                return Some(i);
            }
            i += 1;
        }
        assert(self.order().take(i as int) =~= self.order());
        None
    }

    /// Whether `peer` is registered.
    pub fn contains(&self, peer: PeerAddr) -> (found: bool)
        ensures
            found == self.order().contains(peer),
    {
        proof {
            lemma_position_of_peer(self.order(), peer);
        }
        self.find(peer).is_some()
    }

    /// Registers `peer` with its channel. A peer that is registered already
    /// keeps its place and gets the new channel.
    pub fn add_peer(
        &mut self,
        peer: PeerAddr,
        snd: tokio::sync::mpsc::UnboundedSender<serde_json::Value>,
    )
        requires
            old(self).wf(),
        ensures
            final(self).wf(),
            final(self).channels() == old(self).channels().insert(peer, snd),
            final(self).order() == if old(self).order().contains(peer) {
                old(self).order()
            } else {
                old(self).order().push(peer)
            },
    {
        proof {
            lemma_position_of_peer(self.order(), peer);
        }
        let ghost before = *self;
        match self.find(peer) {
            Some(i) => {
                self.peers.set(i, Peer { addr: peer, channel: snd });
                proof {
                    assert(self.order() =~= before.order());
                    assert forall|p: PeerAddr| self.order().contains(p) implies #[trigger] self.channels()[p]
                        == before.channels().insert(peer, snd)[p] by {
                        lemma_position_of_peer(before.order(), p);
                    }
                    assert(self.channels() =~= before.channels().insert(peer, snd));
                }
            },
            None => {
                self.peers.push(Peer { addr: peer, channel: snd });
                proof {
                    assert(self.order() =~= before.order().push(peer));
                    assert(self.order().drop_last() =~= before.order());
                    assert forall|p: PeerAddr| #[trigger]
                        self.order().contains(p) <==> (before.order().contains(p) || p == peer) by {
                        if before.order().contains(p) {
                            let k = choose|k: int| 0 <= k < before.order().len() && before.order()[k] == p;
                            assert(self.order()[k] == p);
                        }
                        if p == peer {
                            assert(self.order()[self.order().len() - 1] == p);
                        }
                    }
                    assert forall|p: PeerAddr| self.order().contains(p) implies #[trigger] self.channels()[p]
                        == before.channels().insert(peer, snd)[p] by {
                        lemma_position_of_peer(before.order(), p);
                        lemma_position_of_peer(self.order(), p);
                    }
                    assert(self.channels() =~= before.channels().insert(peer, snd));
                    assert forall|a: int, b: int|
                        0 <= a < self.order().len() && 0 <= b < self.order().len() && a
                            != b implies self.order()[a] != self.order()[b] by {
                        if a < before.order().len() {
                            assert(before.order().contains(before.order()[a]));
                        }
                        if b < before.order().len() {
                            assert(before.order().contains(before.order()[b]));
                        }
                    }
                }
            },
        }
    }

    /// Removes `peer`, if it is registered. The other peers keep their
    /// order.
    pub fn remove_peer(&mut self, peer: PeerAddr)
        requires
            old(self).wf(),
        ensures
            final(self).wf(),
            final(self).channels() == old(self).channels().remove(peer),
            final(self).order() == without_peer(old(self).order(), peer),
    {
        let ghost before = *self;
        proof {
            lemma_position_of_peer(self.order(), peer);
        }
        match self.find(peer) {
            Some(i) => {
                self.peers.remove(i);
                proof {
                    assert(self.order() =~= before.order().remove(i as int));
                    assert forall|a: int, b: int|
                        0 <= a < self.order().len() && 0 <= b < self.order().len() && a
                            != b implies self.order()[a] != self.order()[b] by {
                        let a0 = if a < i { a } else { a + 1 };
                        let b0 = if b < i { b } else { b + 1 };
                        assert(self.order()[a] == before.order()[a0]);
                        assert(self.order()[b] == before.order()[b0]);
                    }
                    assert forall|p: PeerAddr| #[trigger]
                        self.order().contains(p) <==> (before.order().contains(p) && p != peer) by {
                        if self.order().contains(p) {
                            let k = choose|k: int| 0 <= k < self.order().len() && self.order()[k] == p;
                            let k0 = if k < i { k } else { k + 1 };
                            assert(before.order()[k0] == p);
                        }
                        if before.order().contains(p) && p != peer {
                            let k = choose|k: int| 0 <= k < before.order().len() && before.order()[k] == p;
                            let k1 = if k < i { k } else { k - 1 };
                            assert(self.order()[k1] == p);
                        }
                    }
                    assert forall|p: PeerAddr| self.order().contains(p) implies #[trigger] self.channels()[p]
                        == before.channels().remove(peer)[p] by {
                        lemma_position_of_peer(before.order(), p);
                        lemma_position_of_peer(self.order(), p);
                        let k = position_of_peer(self.order(), p)->0;
                        let kb = position_of_peer(before.order(), p)->0;
                        let k0 = if k < i { k } else { k + 1 };
                        assert(before.order()[k0] == p);
                        assert(kb == k0);
                    }
                    assert(self.channels() =~= before.channels().remove(peer));
                }
            },
            None => {
                proof {
                    assert(self.channels() =~= before.channels().remove(peer));
                }
            },
        }
    }

    /// Sends `msg` to every peer, in the order of the registry. A channel
    /// that does not take it is noted in the outcome and holds up no other
    /// peer.
    pub fn broadcast(&self, msg: &Notification) -> (outcome: Broadcast)
        ensures
            outcome.reached(wire_text(msg@), self.order()),
    {
        let text = msg.to_wire();
        let mut outcome = Broadcast::new(text);
        let mut i: usize = 0;
        while i < self.peers.len()
            invariant
                i <= self.peers.len(),
                self.order().len() == self.peers@.len(),
                outcome.message@ == wire_text(msg@),
                outcome.deliveries@.len() == i,
                delivery_peers(outcome.deliveries@) == self.order().take(i as int),
            decreases self.peers.len() - i,
        {
            let accepted = match parse_json(outcome.message.as_str()) {
                Some(value) => send_value(&self.peers[i].channel, value),
                None => false,
            };
            let ghost before = outcome.deliveries@;
            outcome.record(self.peers[i].addr, accepted);
            assert forall|j: int| 0 <= j < i + 1 implies delivery_peers(outcome.deliveries@)[j]
                == self.order().take(i + 1)[j] by {
                if j < i {
                    assert(outcome.deliveries@[j] == before[j]);
                    assert(delivery_peers(before)[j] == self.order().take(i as int)[j]);
                }
            }
            assert(delivery_peers(outcome.deliveries@) =~= self.order().take(i + 1));
            i += 1;
        }
        assert(self.order().take(i as int) =~= self.order());
        outcome
    }
}

} // verus!
