//! The signaling server's decisions: what an incoming message asks for, and
//! the peer lists it sends out.

use vstd::prelude::*;
use crate::text::{chars_of, owned, str_eq};

verus! {

/// What the server does with an incoming message.
#[derive(Debug, Clone, Copy, PartialEq, Eq, Structural)]
pub enum SignalAction {
    /// Record the sender under its device id and send everyone the peer list.
    Register,
    /// Answer the sender with the list of the other peers.
    Discover,
    /// Forward the message unchanged to its target.
    Relay,
    /// Drop the message.
    Ignore,
}

pub open spec fn action_of(msg_type: Seq<char>) -> SignalAction {
    if msg_type == "register"@ {
        SignalAction::Register
    } else if msg_type == "discover"@ {
        SignalAction::Discover
    } else if msg_type == "offer"@ || msg_type == "answer"@ || msg_type == "candidate"@
        || msg_type == "pairing_request"@ || msg_type == "pairing_response"@ {
        SignalAction::Relay
    } else {
        SignalAction::Ignore
    }
}

/// The action for a message's `type` field.
pub fn route_message(msg_type: &str) -> (r: SignalAction)
    ensures
        r == action_of(msg_type@),
{
    if str_eq(msg_type, "register") {
        SignalAction::Register
    } else if str_eq(msg_type, "discover") {
        SignalAction::Discover
    } else if str_eq(msg_type, "offer") || str_eq(msg_type, "answer") || str_eq(
        msg_type,
        "candidate",
    ) || str_eq(msg_type, "pairing_request") || str_eq(msg_type, "pairing_response") {
        SignalAction::Relay
    } else {
        SignalAction::Ignore
    }
}

/// A peer as listed to others.
#[derive(Debug, Clone)]
pub struct PeerInfo {
    pub id: String,
    pub name: String,
    pub last_seen: u64,
    pub is_online: bool,
}

/// The `peer_list` message.
#[derive(Debug, Clone)]
pub struct PeerList {
    pub msg_type: String,
    pub peers: Vec<PeerInfo>,
}

/// A registered peer: its device id and name.
#[derive(Debug, Clone)]
pub struct Peer {
    pub id: String,
    pub name: String,
}

/// The peers (in the given order) other than the excluded id.
pub open spec fn listed_peers(peers: Seq<Peer>, exclude: Option<Seq<char>>) -> Seq<Peer>
    decreases peers.len(),
{
    if peers.len() == 0 {
        Seq::empty()
    } else {
        let rest = listed_peers(peers.drop_last(), exclude);
        if exclude == Some(peers.last().id@) {
            rest
        } else {
            rest.push(peers.last())
        }
    }
}

/// The entry for a peer: seen now and online.
pub open spec fn peer_entry(p: Peer, now: u64) -> (Seq<char>, Seq<char>, u64, bool) {
    (p.id@, p.name@, now, true)
}

pub open spec fn entry_of(info: PeerInfo) -> (Seq<char>, Seq<char>, u64, bool) {
    (info.id@, info.name@, info.last_seen, info.is_online)
}

/// The peer list: every peer but `exclude` (everyone for a broadcast, all but the
/// asking device for a discovery), each seen at `now` and online.
pub fn peer_list(peers: &Vec<Peer>, exclude: Option<&str>, now: u64) -> (r: PeerList)
    ensures
        r.msg_type@ == "peer_list"@,
        r.peers@.len() == listed_peers(
            peers@,
            match exclude {
                Some(e) => Some(e@),
                None => None,
            },
        ).len(),
        forall|i: int|
            0 <= i < r.peers@.len() ==> entry_of(#[trigger] r.peers@[i]) == peer_entry(
                listed_peers(
                    peers@,
                    match exclude {
                        Some(e) => Some(e@),
                        None => None,
                    },
                )[i],
                now,
            ),
{
    let ghost ex = match exclude {
        Some(e) => Some(e@),
        None => None,
    };
    let mut out: Vec<PeerInfo> = Vec::new();
    let mut i: usize = 0;
    while i < peers.len()
        invariant
            i <= peers@.len(),
            ex == match exclude {
                Some(e) => Some(e@),
                None => None::<Seq<char>>,
            },
            out@.len() == listed_peers(peers@.take(i as int), ex).len(),
            forall|k: int|
                0 <= k < out@.len() ==> entry_of(#[trigger] out@[k]) == peer_entry(
                    listed_peers(peers@.take(i as int), ex)[k],
                    now,
                ),
        decreases peers@.len() - i,
    {
        assert(peers@.take(i + 1).drop_last() =~= peers@.take(i as int));
        let p = &peers[i];
        let skip = match exclude {
            Some(e) => str_eq(p.id.as_str(), e),
            None => false,
        };
        if !skip {
            out.push(PeerInfo { id: p.id.clone(), name: p.name.clone(), last_seen: now, is_online: true });
        }
        i = i + 1;
    }
    assert(peers@.take(peers@.len() as int) =~= peers@);
    PeerList { msg_type: owned("peer_list"), peers: out }
}

/// A peer list holds exactly the registered peers other than the excluded device:
/// a discovery answer never lists the device that asked, and lists every other
/// registered peer.
pub proof fn lemma_peer_list_members(peers: Seq<Peer>, exclude: Option<Seq<char>>)
    ensures
        forall|i: int|
            0 <= i < listed_peers(peers, exclude).len() ==> peers.contains(
                #[trigger] listed_peers(peers, exclude)[i],
            ) && exclude != Some(listed_peers(peers, exclude)[i].id@),
        forall|p: Peer|
            #[trigger] peers.contains(p) && exclude != Some(p.id@) ==> listed_peers(
                peers,
                exclude,
            ).contains(p),
    decreases peers.len(),
{
    if peers.len() > 0 {
        let rest = peers.drop_last();
        let last = peers.last();
        let lr = listed_peers(rest, exclude);
        let l = listed_peers(peers, exclude);
        lemma_peer_list_members(rest, exclude);
        assert forall|i: int| 0 <= i < l.len() implies peers.contains(#[trigger] l[i]) && exclude
            != Some(l[i].id@) by {
            if i < lr.len() {
                assert(l[i] == lr[i]);
                let k = choose|k: int| 0 <= k < rest.len() && rest[k] == lr[i];
                assert(peers[k] == rest[k]);
            } else {
                assert(l[i] == last);
                assert(peers[peers.len() - 1] == last);
            }
        }
        assert forall|p: Peer| #[trigger] peers.contains(p) && exclude != Some(p.id@) implies l.contains(
            p,
        ) by {
            let j = choose|j: int| 0 <= j < peers.len() && peers[j] == p;
            if j < peers.len() - 1 {
                assert(rest[j] == p);
                assert(rest.contains(p));
                let k = choose|k: int| 0 <= k < lr.len() && lr[k] == p;
                if exclude != Some(last.id@) {
                    assert(l[k] == p);
                }
            } else {
                assert(p == last);
                assert(l[l.len() - 1] == p);
            }
        }
    }
}

/// A broadcast lists every registered peer, in order.
pub proof fn lemma_broadcast_lists_all(peers: Seq<Peer>)
    ensures
        listed_peers(peers, None) == peers,
    decreases peers.len(),
{
    if peers.len() > 0 {
        lemma_broadcast_lists_all(peers.drop_last());
        assert(peers.drop_last().push(peers.last()) =~= peers);
    }
}

// ---------------------------------------------------------------------------
// Registered peers
// ---------------------------------------------------------------------------

/// No two peers share a device id.
pub open spec fn ids_unique(s: Seq<Peer>) -> bool {
    forall|i: int, j: int| 0 <= i < j < s.len() ==> (#[trigger] s[i]).id@ != (#[trigger] s[j]).id@
}

/// Device id to name, as registered.
pub open spec fn peers_map(s: Seq<Peer>) -> Map<Seq<char>, Seq<char>>
    decreases s.len(),
{
    if s.len() == 0 {
        Map::empty()
    } else {
        peers_map(s.drop_last()).insert(s.last().id@, s.last().name@)
    }
}

proof fn lemma_peers_map(s: Seq<Peer>)
    requires
        ids_unique(s),
    ensures
        forall|k: Seq<char>|
            #[trigger] peers_map(s).dom().contains(k) <==> exists|i: int| 0 <= i < s.len() && s[i].id@ == k,
        forall|i: int| 0 <= i < s.len() ==> peers_map(s)[(#[trigger] s[i]).id@] == s[i].name@,
    decreases s.len(),
{
    if s.len() > 0 {
        let rest = s.drop_last();
        assert(ids_unique(rest)) by {
            assert forall|i: int, j: int| 0 <= i < j < rest.len() implies (#[trigger] rest[i]).id@
                != (#[trigger] rest[j]).id@ by {
                assert(rest[i] == s[i] && rest[j] == s[j]);
            }
        }
        lemma_peers_map(rest);
        assert forall|k: Seq<char>| #[trigger] peers_map(s).dom().contains(k) implies exists|i: int|
            0 <= i < s.len() && s[i].id@ == k by {
            if k != s.last().id@ {
                assert(peers_map(rest).dom().contains(k));
                let i = choose|i: int| 0 <= i < rest.len() && rest[i].id@ == k;
                assert(s[i] == rest[i]);
            } else {
                assert(s[s.len() - 1].id@ == k);
            }
        }
        assert forall|k: Seq<char>| (exists|i: int| 0 <= i < s.len() && s[i].id@ == k) implies #[trigger] peers_map(
            s,
        ).dom().contains(k) by {
            let i = choose|i: int| 0 <= i < s.len() && s[i].id@ == k;
            if i < s.len() - 1 {
                assert(rest[i] == s[i]);
                assert(peers_map(rest).dom().contains(rest[i].id@));
            }
        }
        assert forall|i: int| 0 <= i < s.len() implies peers_map(s)[(#[trigger] s[i]).id@] == s[i].name@ by {
            if i < s.len() - 1 {
                assert(rest[i] == s[i]);
                assert(s[i].id@ != s[s.len() - 1].id@);
                assert(peers_map(rest)[rest[i].id@] == rest[i].name@);
            }
        }
    }
}

/// Position of a device id among the peers, if present.
fn position(peers: &Vec<Peer>, id: &str) -> (r: Option<usize>)
    ensures
        r matches Some(i) ==> i < peers@.len() && peers@[i as int].id@ == id@,
        r is None ==> forall|i: int| 0 <= i < peers@.len() ==> (#[trigger] peers@[i]).id@ != id@,
{
    let mut i: usize = 0;
    while i < peers.len()
        invariant
            i <= peers@.len(),
            forall|k: int| 0 <= k < i ==> (#[trigger] peers@[k]).id@ != id@,
        decreases peers@.len() - i,
    {
        if str_eq(peers[i].id.as_str(), id) {
            return Some(i);
        }
        i = i + 1;
    }
    None
}

/// The registered peers of the signaling server, each device id once.
pub struct PeerRegistry {
    peers: Vec<Peer>,
}

impl View for PeerRegistry {
    type V = Map<Seq<char>, Seq<char>>;

    closed spec fn view(&self) -> Map<Seq<char>, Seq<char>> {
        peers_map(self.peers@)
    }
}

impl PeerRegistry {
    /// Device ids are unique.
    #[verifier::type_invariant]
    spec fn inv(&self) -> bool {
        ids_unique(self.peers@)
    }

    /// No peers.
    pub fn new() -> (r: Self)
        ensures
            r@ == Map::<Seq<char>, Seq<char>>::empty(),
    {
        PeerRegistry { peers: Vec::new() }
    }

    /// Registers a device under its id; a device that registers again keeps one
    /// entry, with the new name.
    pub fn register(&mut self, id: &str, name: &str)
        ensures
            final(self)@ == old(self)@.insert(id@, name@),
    {
        proof {
            use_type_invariant(&*self);
        }
        let mut peers: Vec<Peer> = Vec::new();
        std::mem::swap(&mut peers, &mut self.peers);
        let ghost s0 = peers@;
        proof {
            lemma_peers_map(s0);
        }
        let entry = Peer { id: owned(id), name: owned(name) };
        match position(&peers, id) {
            Some(i) => {
                peers.set(i, entry);
                let ghost s1 = peers@;
                assert(ids_unique(s1)) by {
                    assert forall|a: int, b: int| 0 <= a < b < s1.len() implies (#[trigger] s1[a]).id@
                        != (#[trigger] s1[b]).id@ by {
                        assert(s0[a].id@ != s0[b].id@);
                    }
                }
                proof {
                    lemma_peers_map(s1);
                    assert forall|k: Seq<char>| #[trigger] peers_map(s1).dom().contains(k) <==> peers_map(
                        s0,
                    ).insert(id@, name@).dom().contains(k) by {
                        if k != id@ && peers_map(s0).dom().contains(k) {
                            let j = choose|j: int| 0 <= j < s0.len() && s0[j].id@ == k;
                            assert(s1[j].id@ == k);
                        }
                        if peers_map(s1).dom().contains(k) && k != id@ {
                            let j = choose|j: int| 0 <= j < s1.len() && s1[j].id@ == k;
                            assert(s0[j].id@ == k);
                        }
                        if k == id@ {
                            assert(s1[i as int].id@ == k);
                        }
                    }
                    assert forall|k: Seq<char>| #[trigger] peers_map(s1).dom().contains(k) implies peers_map(
                        s1,
                    )[k] == peers_map(s0).insert(id@, name@)[k] by {
                        let j = choose|j: int| 0 <= j < s1.len() && s1[j].id@ == k;
                        assert(peers_map(s1)[s1[j].id@] == s1[j].name@);
                        if j != i {
                            assert(s1[j] == s0[j]);
                            assert(peers_map(s0)[s0[j].id@] == s0[j].name@);
                        }
                    }
                    assert(peers_map(s1) =~= peers_map(s0).insert(id@, name@));
                }
            },
            None => {
                peers.push(entry);
                let ghost s1 = peers@;
                assert(s1.drop_last() =~= s0);
                assert(ids_unique(s1)) by {
                    assert forall|a: int, b: int| 0 <= a < b < s1.len() implies (#[trigger] s1[a]).id@
                        != (#[trigger] s1[b]).id@ by {
                        if b < s0.len() {
                            assert(s0[a].id@ != s0[b].id@);
                        } else {
                            assert(s1[a] == s0[a]);
                        }
                    }
                }
            },
        }
        self.peers = peers;
    }

    /// Removes a device; an id that is not registered changes nothing.
    pub fn unregister(&mut self, id: &str)
        ensures
            final(self)@ == old(self)@.remove(id@),
    {
        proof {
            use_type_invariant(&*self);
        }
        let mut peers: Vec<Peer> = Vec::new();
        std::mem::swap(&mut peers, &mut self.peers);
        let ghost s0 = peers@;
        proof {
            lemma_peers_map(s0);
        }
        match position(&peers, id) {
            Some(i) => {
                peers.remove(i);
                let ghost s1 = peers@;
                assert(s1 =~= s0.subrange(0, i as int) + s0.subrange(i + 1, s0.len() as int));
                assert forall|a: int| 0 <= a < s1.len() implies #[trigger] s1[a] == (if a < i {
                    s0[a]
                } else {
                    s0[a + 1]
                }) by {}
                assert(ids_unique(s1)) by {
                    assert forall|a: int, b: int| 0 <= a < b < s1.len() implies (#[trigger] s1[a]).id@
                        != (#[trigger] s1[b]).id@ by {
                        let a0 = if a < i { a } else { a + 1 };
                        let b0 = if b < i { b } else { b + 1 };
                        assert(s1[a] == s0[a0] && s1[b] == s0[b0]);
                        assert(s0[a0].id@ != s0[b0].id@);
                    }
                }
                proof {
                    lemma_peers_map(s1);
                    assert forall|k: Seq<char>| #[trigger] peers_map(s1).dom().contains(k) <==> peers_map(
                        s0,
                    ).remove(id@).dom().contains(k) by {
                        if peers_map(s1).dom().contains(k) {
                            let j = choose|j: int| 0 <= j < s1.len() && s1[j].id@ == k;
                            let j0 = if j < i { j } else { j + 1 };
                            assert(s0[j0].id@ == k);
                            assert(s0[j0].id@ != s0[i as int].id@);
                        }
                        if k != id@ && peers_map(s0).dom().contains(k) {
                            let j0 = choose|j: int| 0 <= j < s0.len() && s0[j].id@ == k;
                            assert(j0 != i);
                            let j = if j0 < i { j0 } else { j0 - 1 };
                            assert(s1[j] == s0[j0]);
                        }
                    }
                    assert forall|k: Seq<char>| #[trigger] peers_map(s1).dom().contains(k) implies peers_map(
                        s1,
                    )[k] == peers_map(s0).remove(id@)[k] by {
                        let j = choose|j: int| 0 <= j < s1.len() && s1[j].id@ == k;
                        let j0 = if j < i { j } else { j + 1 };
                        assert(s1[j] == s0[j0]);
                        assert(peers_map(s1)[s1[j].id@] == s1[j].name@);
                        assert(peers_map(s0)[s0[j0].id@] == s0[j0].name@);
                    }
                    assert(peers_map(s1) =~= peers_map(s0).remove(id@));
                }
            },
            None => {
                assert(!peers_map(s0).dom().contains(id@));
                assert(peers_map(s0) =~= peers_map(s0).remove(id@));
            },
        }
        self.peers = peers;
    }

    /// Whether a device is registered: a relayed message goes to its target only
    /// then.
    pub fn is_registered(&self, id: &str) -> (r: bool)
        ensures
            r == self@.dom().contains(id@),
    {
        proof {
            use_type_invariant(self);
            lemma_peers_map(self.peers@);
        }
        position(&self.peers, id).is_some()
    }

    /// The peer list for everyone but `exclude`: each registered device other
    /// than the excluded one is listed once, with its name, seen at `now` and
    /// online, and nothing else is listed.
    pub fn list(&self, exclude: Option<&str>, now: u64) -> (r: PeerList)
        ensures
            r.msg_type@ == "peer_list"@,
            forall|i: int| 0 <= i < r.peers@.len() ==> {
                &&& self@.dom().contains((#[trigger] r.peers@[i]).id@)
                &&& self@[r.peers@[i].id@] == r.peers@[i].name@
                &&& r.peers@[i].last_seen == now
                &&& r.peers@[i].is_online
                &&& match exclude {
                    Some(e) => r.peers@[i].id@ != e@,
                    None => true,
                }
            },
            forall|i: int, j: int|
                0 <= i < j < r.peers@.len() ==> (#[trigger] r.peers@[i]).id@ != (#[trigger] r.peers@[j]).id@,
            forall|k: Seq<char>|
                #[trigger] self@.dom().contains(k) && match exclude {
                    Some(e) => k != e@,
                    None => true,
                } ==> exists|i: int| 0 <= i < r.peers@.len() && r.peers@[i].id@ == k,
    {
        proof {
            use_type_invariant(self);
        }
        let r = peer_list(&self.peers, exclude, now);
        let ghost s = self.peers@;
        let ghost ex = match exclude {
            Some(e) => Some(e@),
            None => None::<Seq<char>>,
        };
        let ghost l = listed_peers(s, ex);
        proof {
            lemma_peers_map(s);
            lemma_peer_list_members(s, ex);
            lemma_listed_order(s, ex);
            assert forall|i: int| 0 <= i < r.peers@.len() implies {
                &&& self@.dom().contains((#[trigger] r.peers@[i]).id@)
                &&& self@[r.peers@[i].id@] == r.peers@[i].name@
                &&& r.peers@[i].last_seen == now
                &&& r.peers@[i].is_online
                &&& match exclude {
                    Some(e) => r.peers@[i].id@ != e@,
                    None => true,
                }
            } by {
                assert(entry_of(r.peers@[i]) == peer_entry(l[i], now));
                assert(s.contains(l[i]));
                let k = choose|k: int| 0 <= k < s.len() && s[k] == l[i];
                assert(peers_map(s)[s[k].id@] == s[k].name@);
            }
            assert forall|i: int, j: int| 0 <= i < j < r.peers@.len() implies (#[trigger] r.peers@[i]).id@
                != (#[trigger] r.peers@[j]).id@ by {
                assert(entry_of(r.peers@[i]) == peer_entry(l[i], now));
                assert(entry_of(r.peers@[j]) == peer_entry(l[j], now));
            }
            assert forall|k: Seq<char>| #[trigger] self@.dom().contains(k) && match exclude {
                Some(e) => k != e@,
                None => true,
            } implies exists|i: int| 0 <= i < r.peers@.len() && r.peers@[i].id@ == k by {
                let j = choose|j: int| 0 <= j < s.len() && s[j].id@ == k;
                assert(s.contains(s[j]));
                assert(l.contains(s[j]));
                let i = choose|i: int| 0 <= i < l.len() && l[i] == s[j];
                assert(entry_of(r.peers@[i]) == peer_entry(l[i], now));
            }
        }
        r
    }
}

/// A peer list keeps the registry's order, so its device ids stay unique.
proof fn lemma_listed_order(s: Seq<Peer>, exclude: Option<Seq<char>>)
    requires
        ids_unique(s),
    ensures
        ids_unique(listed_peers(s, exclude)),
    decreases s.len(),
{
    if s.len() > 0 {
        let rest = s.drop_last();
        assert(ids_unique(rest)) by {
            assert forall|i: int, j: int| 0 <= i < j < rest.len() implies (#[trigger] rest[i]).id@
                != (#[trigger] rest[j]).id@ by {
                assert(rest[i] == s[i] && rest[j] == s[j]);
            }
        }
        lemma_listed_order(rest, exclude);
        lemma_peer_list_members(rest, exclude);
        let lr = listed_peers(rest, exclude);
        let l = listed_peers(s, exclude);
        if exclude != Some(s.last().id@) {
            assert forall|i: int, j: int| 0 <= i < j < l.len() implies (#[trigger] l[i]).id@
                != (#[trigger] l[j]).id@ by {
                if j < lr.len() {
                    assert(l[i] == lr[i] && l[j] == lr[j]);
                } else {
                    assert(l[i] == lr[i]);
                    assert(rest.contains(lr[i]));
                    let k = choose|k: int| 0 <= k < rest.len() && rest[k] == lr[i];
                    assert(s[k] == rest[k]);
                    assert(s[k].id@ != s[s.len() - 1].id@);
                }
            }
        }
    }
}

// ---------------------------------------------------------------------------
// One connection
// ---------------------------------------------------------------------------

/// What the server remembers about one connection: the device id it registered
/// under, empty until it registers.
#[derive(Debug, Clone)]
pub struct ConnectionState {
    pub device_id: String,
}

impl ConnectionState {
    /// A connection that has not registered.
    pub fn new() -> (r: Self)
        ensures
            r.device_id@ == Seq::<char>::empty(),
    {
        ConnectionState { device_id: String::new() }
    }

    /// Handles a message's `type` and `device_id`: a registration remembers the
    /// device id; the action says what the server does.
    pub fn on_message(&mut self, msg_type: &str, device_id: &str) -> (r: SignalAction)
        ensures
            r == action_of(msg_type@),
            final(self).device_id@ == if r == SignalAction::Register {
                device_id@
            } else {
                old(self).device_id@
            },
    {
        let action = route_message(msg_type);
        if action == SignalAction::Register {
            self.device_id = owned(device_id);
        }
        action
    }

    /// On disconnect: the device to unregister, if the connection registered one.
    pub fn on_close(&self) -> (r: Option<String>)
        ensures
            self.device_id@.len() == 0 ==> r is None,
            self.device_id@.len() > 0 ==> (r matches Some(id) && id@ == self.device_id@),
    {
        if chars_of(self.device_id.as_str()).len() == 0 {
            None
        } else {
            Some(self.device_id.clone())
        }
    }
}

} // verus!
