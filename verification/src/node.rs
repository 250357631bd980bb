//! The overlay node: one dispatch point for every substrate event, keeping
//! the live-peer set exact and deciding which dials, address registrations
//! and routing prunes to perform.
//!
//! Peers and addresses appear here as numeric identifiers; the process edge
//! translates the network stack's own identity and address values to and
//! from them, and performs the actions this module decides.

use crate::peers::PeerSet;
use vstd::prelude::*;

verus! {

/// A substrate-level occurrence handed to the dispatcher: the closed set of
/// event kinds the node reacts to, with a catch-all for the rest.
#[derive(Debug)]
pub enum Event {
    /// A listen address was bound (observability only).
    NewListenAddr { addr: u64 },
    /// A connection to the peer is now open.
    ConnectionEstablished { peer: u64 },
    /// The connection to the peer closed.
    ConnectionClosed { peer: u64 },
    /// Local-network discovery reported these (peer, address) pairs.
    Discovered { pairs: Vec<(u64, u64)> },
    /// The peer advertised its own listen addresses in an identify exchange.
    IdentifyReceived { peer: u64, listen_addrs: Vec<u64> },
    /// The routing table changed around this peer (observability only).
    RoutingUpdated { peer: u64 },
    /// A closest-peers query finished with these peers (observability only).
    ClosestPeersFound { peers: Vec<u64> },
    /// A closest-peers query failed (logged and ignored).
    ClosestPeersFailed,
    /// Any other substrate event, ignored without error.
    Other,
}

/// What the node asks the substrate to do in response to an event.
#[derive(Clone, Copy, Debug, PartialEq, Eq, Structural)]
pub enum Action {
    /// Attempt to dial the address to reach the peer; on successful dial
    /// initiation the address is also registered with the routing substrate.
    Dial { peer: u64, addr: u64 },
    /// Register an address the peer advertised with the routing substrate.
    RegisterAddress { peer: u64, addr: u64 },
    /// Drop every routing entry for the peer.
    PruneRouting { peer: u64 },
    /// Close the connection to the peer, best effort.
    Disconnect { peer: u64 },
}

/// The live-peer set after an event: connects add the peer, closes take it
/// out, nothing else touches it.
pub open spec fn connected_after(connected: Set<u64>, event: Event) -> Set<u64> {
    match event {
        Event::ConnectionEstablished { peer } => connected.insert(peer),
        Event::ConnectionClosed { peer } => connected.remove(peer),
        _ => connected,
    }
}

/// The dial attempts a discovery notification produces: one per listed
/// (peer, address) pair whose peer is not live, in notification order.
pub open spec fn discovery_actions(connected: Set<u64>, pairs: Seq<(u64, u64)>) -> Seq<Action>
    decreases pairs.len(),
{
    if pairs.len() == 0 {
        Seq::empty()
    } else {
        discovery_actions(connected, pairs.drop_last()) + (if connected.contains(
            pairs.last().0,
        ) {
            Seq::empty()
        } else {
            seq![Action::Dial { peer: pairs.last().0, addr: pairs.last().1 }]
        })
    }
}

/// The registrations an identify exchange produces: one per advertised
/// address, in advertised order.
pub open spec fn identify_actions(peer: u64, addrs: Seq<u64>) -> Seq<Action> {
    addrs.map_values(|a: u64| (Action::RegisterAddress { peer, addr: a }))
}

/// Every action an event calls for. Only closes, discovery and identify
/// exchanges demand anything; the rest is observability.
pub open spec fn actions_for(connected: Set<u64>, event: Event) -> Seq<Action> {
    match event {
        Event::ConnectionClosed { peer } => seq![Action::PruneRouting { peer }],
        Event::Discovered { pairs } => discovery_actions(connected, pairs@),
        Event::IdentifyReceived { peer, listen_addrs } => identify_actions(peer, listen_addrs@),
        _ => Seq::empty(),
    }
}

/// How often a dial for exactly this peer and address occurs in a list of
/// actions.
pub open spec fn dial_count(actions: Seq<Action>, peer: u64, addr: u64) -> nat
    decreases actions.len(),
{
    if actions.len() == 0 {
        0
    } else {
        dial_count(actions.drop_last(), peer, addr) + (if actions.last() == (Action::Dial {
            peer,
            addr,
        }) {
            1nat
        } else {
            0nat
        })
    }
}

/// How often exactly this (peer, address) pair occurs in a notification.
pub open spec fn occurrence_count(pairs: Seq<(u64, u64)>, peer: u64, addr: u64) -> nat
    decreases pairs.len(),
{
    if pairs.len() == 0 {
        0
    } else {
        occurrence_count(pairs.drop_last(), peer, addr) + (if pairs.last() == (peer, addr) {
            1nat
        } else {
            0nat
        })
    }
}

/// An already-live peer is never dialed: a discovery notification produces
/// no dial at all for a peer in the live set, whatever address it lists.
pub proof fn lemma_discovery_skips_connected(
    connected: Set<u64>,
    pairs: Seq<(u64, u64)>,
    peer: u64,
    addr: u64,
)
    requires
        connected.contains(peer),
    ensures
        !discovery_actions(connected, pairs).contains((Action::Dial { peer, addr })),
        dial_count(discovery_actions(connected, pairs), peer, addr) == 0,
    decreases pairs.len(),
{
    let acts = discovery_actions(connected, pairs);
    if pairs.len() == 0 {
        assert(acts.len() == 0);
    } else {
        let rest = discovery_actions(connected, pairs.drop_last());
        lemma_discovery_skips_connected(connected, pairs.drop_last(), peer, addr);
        if connected.contains(pairs.last().0) {
            assert(acts =~= rest);
        } else {
            let d = Action::Dial { peer: pairs.last().0, addr: pairs.last().1 };
            assert(acts =~= rest.push(d));
            assert(acts.drop_last() =~= rest);
            assert(pairs.last().0 != peer);
            assert forall|i: int| 0 <= i < acts.len() implies acts[i] != (Action::Dial {
                peer,
                addr,
            }) by {
                if i < rest.len() {
                    assert(acts[i] == rest[i]);
                    assert(!rest.contains((Action::Dial { peer, addr })));
                }
            }
        }
    }
}

/// A not-yet-live peer is dialed exactly once per occurrence: the dial
/// actions for a (peer, address) pair number exactly its occurrences in the
/// discovery notification.
pub proof fn lemma_discovery_dials_once_per_occurrence(
    connected: Set<u64>,
    pairs: Seq<(u64, u64)>,
    peer: u64,
    addr: u64,
)
    requires
        !connected.contains(peer),
    ensures
        dial_count(discovery_actions(connected, pairs), peer, addr) == occurrence_count(
            pairs,
            peer,
            addr,
        ),
    decreases pairs.len(),
{
    let acts = discovery_actions(connected, pairs);
    if pairs.len() == 0 {
    } else {
        let rest = discovery_actions(connected, pairs.drop_last());
        lemma_discovery_dials_once_per_occurrence(connected, pairs.drop_last(), peer, addr);
        if connected.contains(pairs.last().0) {
            assert(acts =~= rest);
            assert(pairs.last() != (peer, addr));
        } else {
            let d = Action::Dial { peer: pairs.last().0, addr: pairs.last().1 };
            assert(acts =~= rest.push(d));
            assert(acts.drop_last() =~= rest);
            assert(acts.last() == d);
            assert(d == (Action::Dial { peer, addr }) <==> pairs.last() == (peer, addr));
        }
    }
}

/// After a connection-closed event the peer is out of the live set, and the
/// actions prune its routing entries.
pub proof fn lemma_close_clears_peer(connected: Set<u64>, peer: u64)
    ensures
        !connected_after(connected, (Event::ConnectionClosed { peer })).contains(peer),
        actions_for(connected, (Event::ConnectionClosed { peer })) == seq![
            (Action::PruneRouting { peer }),
        ],
{
}

/// Replaying a connection-established event for an already-live peer leaves
/// the live set exactly as it was, size included.
pub proof fn lemma_established_idempotent(connected: Set<u64>, peer: u64)
    requires
        connected.contains(peer),
    ensures
        connected_after(connected, (Event::ConnectionEstablished { peer })) == connected,
        connected_after(connected, (Event::ConnectionEstablished { peer })).len()
            == connected.len(),
{
    assert(connected.insert(peer) =~= connected);
}

/// Declares `libp2p::Multiaddr`, the multi-protocol address value; opaque
/// here, parsed by the wrapper below and handed back for the dials.
#[verifier::external_type_specification]
#[verifier::external_body]
pub struct ExMultiaddr(libp2p::Multiaddr);

/// The texts the multi-protocol address grammar accepts; names the
/// `Ok`-ness of parsing a given text, a function of the text alone.
pub uninterp spec fn valid_peer_addr_text(s: Seq<char>) -> bool;

/// The address value the parser yields on an accepted text; names the `Ok`
/// result of parsing, a function of the text alone.
pub uninterp spec fn parsed_peer_addr(s: Seq<char>) -> libp2p::Multiaddr;

/// Relies on `<libp2p::Multiaddr as FromStr>::from_str`: it returns `Ok`
/// exactly on the texts the multi-protocol address grammar accepts, and
/// which address it returns is decided by the text alone.
#[verifier::external_body]
fn parse_peer_addr(s: &str) -> (r: Option<libp2p::Multiaddr>)
    ensures
        r is Some <==> valid_peer_addr_text(s@),
        r matches Some(a) ==> a == parsed_peer_addr(s@),
{
    s.parse::<libp2p::Multiaddr>().ok()
}

/// The dials startup owes for the given configured texts: the parse of
/// each well-formed address, in list order; a malformed one is skipped.
pub open spec fn bootstrap_dials(addrs: Seq<Seq<char>>) -> Seq<libp2p::Multiaddr>
    decreases addrs.len(),
{
    if addrs.len() == 0 {
        Seq::empty()
    } else {
        bootstrap_dials(addrs.drop_last()) + (if valid_peer_addr_text(addrs.last()) {
            seq![parsed_peer_addr(addrs.last())]
        } else {
            Seq::empty()
        })
    }
}

/// A malformed configured address changes the planned dials not at all:
/// the plan equals the plan for the list without it, so the addresses
/// after it are dialed exactly as before and startup continues.
pub proof fn lemma_bootstrap_skips_malformed(addrs: Seq<Seq<char>>, i: int)
    requires
        0 <= i < addrs.len(),
        !valid_peer_addr_text(addrs[i]),
    ensures
        bootstrap_dials(addrs) == bootstrap_dials(addrs.remove(i)),
    decreases addrs.len(),
{
    if i == addrs.len() - 1 {
        assert(addrs.remove(i) =~= addrs.drop_last());
        assert(bootstrap_dials(addrs) =~= bootstrap_dials(addrs.drop_last()));
    } else {
        lemma_bootstrap_skips_malformed(addrs.drop_last(), i);
        assert(addrs.remove(i).drop_last() =~= addrs.drop_last().remove(i));
        assert(addrs.remove(i).last() == addrs.last());
        assert(bootstrap_dials(addrs.remove(i)) == bootstrap_dials(addrs.drop_last().remove(i))
            + (if valid_peer_addr_text(addrs.last()) {
            seq![parsed_peer_addr(addrs.last())]
        } else {
            Seq::<libp2p::Multiaddr>::empty()
        }));
    }
}

/// With every configured address well-formed, exactly one dial is planned
/// per address, in list order.
pub proof fn lemma_bootstrap_dials_all_valid(addrs: Seq<Seq<char>>)
    requires
        forall|i: int| 0 <= i < addrs.len() ==> valid_peer_addr_text(addrs[i]),
    ensures
        bootstrap_dials(addrs).len() == addrs.len(),
        forall|i: int|
            0 <= i < addrs.len() ==> bootstrap_dials(addrs)[i] == parsed_peer_addr(addrs[i]),
    decreases addrs.len(),
{
    if addrs.len() > 0 {
        assert forall|i: int| 0 <= i < addrs.drop_last().len() implies valid_peer_addr_text(
            addrs.drop_last()[i],
        ) by {
            assert(addrs.drop_last()[i] == addrs[i]);
        }
        lemma_bootstrap_dials_all_valid(addrs.drop_last());
        assert forall|i: int| 0 <= i < addrs.len() implies bootstrap_dials(addrs)[i]
            == parsed_peer_addr(addrs[i]) by {
            if i < addrs.len() - 1 {
                assert(bootstrap_dials(addrs)[i] == bootstrap_dials(addrs.drop_last())[i]);
                assert(addrs.drop_last()[i] == addrs[i]);
            } else {
                assert(bootstrap_dials(addrs)[i] == parsed_peer_addr(addrs.last()));
            }
        }
    }
}

/// Parses the configured bootstrap peer addresses into exactly the owed
/// dials: the parse of every well-formed address, in list order; a
/// malformed address is dropped, never fatal, and never stops the
/// addresses after it.
pub fn plan_bootstrap_dials(addrs: &Vec<String>) -> (r: Vec<libp2p::Multiaddr>)
    ensures
        r@ == bootstrap_dials(addrs.deep_view()),
{
    let n = addrs.len();
    let mut r: Vec<libp2p::Multiaddr> = Vec::new();
    let mut i: usize = 0;
    while i < n
        invariant
            i <= n,
            n == addrs.len(),
            r@ == bootstrap_dials(addrs.deep_view().take(i as int)),
        decreases n - i,
    {
        proof {
            let dv = addrs.deep_view();
            assert(dv.take(i + 1).drop_last() =~= dv.take(i as int));
            assert(dv.take(i + 1).last() == dv[i as int]);
            assert(dv[i as int] == addrs@[i as int]@);
            assert(bootstrap_dials(dv.take(i + 1)) == bootstrap_dials(dv.take(i as int)) + (
            if valid_peer_addr_text(dv[i as int]) {
                seq![parsed_peer_addr(dv[i as int])]
            } else {
                Seq::<libp2p::Multiaddr>::empty()
            }));
        }
        match parse_peer_addr(addrs[i].as_str()) {
            Some(addr) => {
                r.push(addr);
                proof {
                    let dv = addrs.deep_view();
                    assert(r@ =~= bootstrap_dials(dv.take(i + 1)));
                }
            },
            None => {
                proof {
                    let dv = addrs.deep_view();
                    assert(r@ =~= bootstrap_dials(dv.take(i + 1)));
                }
            },
        }
        i += 1;
    }
    proof {
        assert(addrs.deep_view().take(n as int) =~= addrs.deep_view());
    }
    r
}

/// What follows a dial initiation for a discovered peer: on successful
/// initiation the dialed address is registered with the routing substrate,
/// and on failure nothing follows — the failure is non-fatal and the other
/// discovered peers are unaffected.
pub fn after_dial_attempt(peer: u64, addr: u64, dial_initiated: bool) -> (r: Option<Action>)
    ensures
        dial_initiated ==> r == Some((Action::RegisterAddress { peer, addr })),
        !dial_initiated ==> r is None,
{
    if dial_initiated {
        Some(Action::RegisterAddress { peer, addr })
    } else {
        None
    }
}

/// The overlay node's own state: the set of peers with an open connection,
/// kept exact within event dispatch itself.
pub struct Node {
    connected: PeerSet,
}

impl Node {
    /// The live peers, as a mathematical set.
    pub closed spec fn connected_set(&self) -> Set<u64> {
        self.connected@
    }

    /// The live peers in storage order, duplicate-free when well-formed.
    pub closed spec fn connected_ids(&self) -> Seq<u64> {
        self.connected.id_seq()
    }

    pub closed spec fn wf(&self) -> bool {
        self.connected.wf()
    }

    /// A fresh node has an empty live-peer set, whether or not any
    /// bootstrap peer is reachable: dials only ever add peers through later
    /// connection-established events.
    pub fn new() -> (r: Node)
        ensures
            r.wf(),
            r.connected_set() == Set::<u64>::empty(),
            r.connected_ids() == Seq::<u64>::empty(),
    {
        Node { connected: PeerSet::new() }
    }

    /// The identifiers of the currently live peers; no duplicates, order
    /// not significant.
    pub fn connected_peers(&self) -> (r: Vec<u64>)
        requires
            self.wf(),
        ensures
            r@ == self.connected_ids(),
            r@.to_set() == self.connected_set(),
            r@.no_duplicates(),
    {
        self.connected.to_vec()
    }

    /// Best-effort shutdown: one disconnect per live peer. The live set
    /// itself only changes when the resulting close events come back.
    pub fn shutdown(&self) -> (r: Vec<Action>)
        requires
            self.wf(),
        ensures
            r@ == self.connected_ids().map_values(|p: u64| (Action::Disconnect { peer: p })),
            forall|p: u64|
                r@.contains((Action::Disconnect { peer: p })) <==> self.connected_set().contains(
                    p,
                ),
    {
        let ids = self.connected.to_vec();
        let n = ids.len();
        let mut r: Vec<Action> = Vec::new();
        let mut i: usize = 0;
        while i < n
            invariant
                i <= n,
                n == ids.len(),
                r@ == ids@.take(i as int).map_values(|p: u64| (Action::Disconnect { peer: p })),
            decreases n - i,
        {
            r.push(Action::Disconnect { peer: ids[i] });
            proof {
                assert(ids@.take(i + 1).drop_last() =~= ids@.take(i as int));
                assert(ids@.take(i + 1).map_values(|p: u64| (Action::Disconnect { peer: p }))
                    =~= ids@.take(i as int).map_values(
                    |p: u64| (Action::Disconnect { peer: p }),
                ).push((Action::Disconnect { peer: ids@[i as int] })));
            }
            i += 1;
        }
        proof {
            assert(ids@.take(n as int) =~= ids@);
            let m = ids@.map_values(|p: u64| (Action::Disconnect { peer: p }));
            assert forall|p: u64|
                m.contains((Action::Disconnect { peer: p })) <==> self.connected_set().contains(
                    p,
                ) by {
                if m.contains((Action::Disconnect { peer: p })) {
                    let j = choose|j: int|
                        0 <= j < m.len() && m[j] == (Action::Disconnect { peer: p });
                    assert(ids@[j] == p);
                    assert(ids@.contains(p));
                }
                if self.connected_set().contains(p) {
                    assert(ids@.contains(p));
                    let j = choose|j: int| 0 <= j < ids@.len() && ids@[j] == p;
                    assert(m[j] == (Action::Disconnect { peer: p }));
                    assert(m.contains((Action::Disconnect { peer: p })));
                }
            }
        }
        r
    }

    /// The single dispatch point for substrate events. The live set after
    /// the call is exactly `connected_after`, and the returned actions are
    /// exactly `actions_for`, both over the live set before the call; a
    /// replayed connect for a live peer changes nothing at all.
    pub fn handle_swarm_event(&mut self, event: Event) -> (actions: Vec<Action>)
        requires
            old(self).wf(),
        ensures
            final(self).wf(),
            final(self).connected_set() == connected_after(old(self).connected_set(), event),
            actions@ == actions_for(old(self).connected_set(), event),
            (event matches Event::ConnectionEstablished { peer } && old(
                self,
            ).connected_set().contains(peer)) ==> final(self).connected_ids() == old(
                self,
            ).connected_ids(),
    {
        match event {
            Event::NewListenAddr { addr: _ } => Vec::new(),
            Event::ConnectionEstablished { peer } => {
                self.connected.insert(peer);
                Vec::new()
            },
            Event::ConnectionClosed { peer } => {
                self.connected.remove(peer);
                let mut actions: Vec<Action> = Vec::new();
                actions.push(Action::PruneRouting { peer });
                proof {
                    assert(actions@ =~= seq![(Action::PruneRouting { peer })]);
                }
                actions
            },
            Event::Discovered { pairs } => {
                let ghost c = self.connected_set();
                let n = pairs.len();
                let mut actions: Vec<Action> = Vec::new();
                let mut i: usize = 0;
                while i < n
                    invariant
                        i <= n,
                        n == pairs.len(),
                        self.wf(),
                        self.connected_set() == c,
                        actions@ == discovery_actions(c, pairs@.take(i as int)),
                    decreases n - i,
                {
                    let (peer, addr) = pairs[i];
                    if !self.connected.contains(peer) {
                        actions.push(Action::Dial { peer, addr });
                    }
                    proof {
                        let t = pairs@.take(i + 1);
                        assert(t.drop_last() =~= pairs@.take(i as int));
                        assert(t.last() == pairs@[i as int]);
                        assert(discovery_actions(c, t) == discovery_actions(
                            c,
                            pairs@.take(i as int),
                        ) + (if c.contains(pairs@[i as int].0) {
                            Seq::<Action>::empty()
                        } else {
                            seq![
                                (Action::Dial {
                                    peer: pairs@[i as int].0,
                                    addr: pairs@[i as int].1,
                                }),
                            ]
                        }));
                        assert(actions@ =~= discovery_actions(c, t));
                    }
                    i += 1;
                }
                proof {
                    assert(pairs@.take(n as int) =~= pairs@);
                }
                actions
            },
            Event::IdentifyReceived { peer, listen_addrs } => {
                let n = listen_addrs.len();
                let mut actions: Vec<Action> = Vec::new();
                let mut i: usize = 0;
                while i < n
                    invariant
                        i <= n,
                        n == listen_addrs.len(),
                        actions@ == identify_actions(peer, listen_addrs@.take(i as int)),
                    decreases n - i,
                {
                    actions.push(Action::RegisterAddress { peer, addr: listen_addrs[i] });
                    proof {
                        assert(listen_addrs@.take(i + 1) =~= listen_addrs@.take(i as int).push(
                            listen_addrs@[i as int],
                        ));
                        assert(identify_actions(peer, listen_addrs@.take(i + 1))
                            =~= identify_actions(peer, listen_addrs@.take(i as int)).push(
                            (Action::RegisterAddress { peer, addr: listen_addrs@[i as int] }),
                        ));
                    }
                    i += 1;
                }
                proof {
                    assert(listen_addrs@.take(n as int) =~= listen_addrs@);
                }
                actions
            },
            Event::RoutingUpdated { peer: _ } => Vec::new(),
            Event::ClosestPeersFound { peers: _ } => Vec::new(),
            Event::ClosestPeersFailed => Vec::new(),
            Event::Other => Vec::new(),
        }
    }
}

} // verus!
