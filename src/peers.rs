//! The set of peers a node keeps connections to, and the state of each.
use vstd::pervasive::VecAdditionalExecFns;
use vstd::prelude::*;

verus! {

/// Where a connection to a peer stands.
#[derive(PartialEq, Eq, Structural, Clone, Copy, Debug)]
pub enum PeerState {
    Disconnected,
    Connecting,
    Connected,
}

/// What happens to a connection.
#[derive(PartialEq, Eq, Structural, Clone, Copy, Debug)]
pub enum PeerEvent {
    /// A connection attempt starts.
    Dial,
    /// The handshake completed.
    Handshake,
    /// The transport of a connected peer failed.
    IoError,
}

/// The state a connection moves to on `e`; events that do not apply to
/// the current state leave it as it is.
pub open spec fn next_state(s: PeerState, e: PeerEvent) -> PeerState {
    match (s, e) {
        (PeerState::Disconnected, PeerEvent::Dial) => PeerState::Connecting,
        (PeerState::Connecting, PeerEvent::Handshake) => PeerState::Connected,
        (PeerState::Connected, PeerEvent::IoError) => PeerState::Disconnected,
        _ => s,
    }
}

/// One configured peer.
pub struct PeerConfig {
    pub id: u32,
    pub host: String,
    pub port: u16,
}

/// A peer's identity: its id, host and port.
pub type PeerKey = (u32, Seq<char>, u16);

impl View for PeerConfig {
    type V = PeerKey;

    open spec fn view(&self) -> PeerKey {
        (self.id, self.host@, self.port)
    }
}

impl PeerConfig {
    pub fn copy(&self) -> (r: PeerConfig)
        ensures
            r@ == self@,
    {
        PeerConfig { id: self.id, host: self.host.clone(), port: self.port }
    }

    pub fn same_peer(&self, other: &PeerConfig) -> (r: bool)
        ensures
            r == (self@ == other@),
    {
        self.id == other.id && self.port == other.port && self.host == other.host
    }
}

/// A configured peer and its connection state.
pub struct Peer {
    pub config: PeerConfig,
    pub state: PeerState,
}

/// Whether some peer in `s` has key `k`.
pub open spec fn has_key(s: Seq<(PeerKey, PeerState)>, k: PeerKey) -> bool {
    exists|i: int| 0 <= i < s.len() && (#[trigger] s[i]).0 == k
}

/// Whether some configuration in `s` has key `k`.
pub open spec fn lists_key(s: Seq<PeerConfig>, k: PeerKey) -> bool {
    exists|i: int| 0 <= i < s.len() && (#[trigger] s[i])@ == k
}

/// The peer connections of a node.
pub struct Connection {
    peers: Vec<Peer>,
}

impl View for Connection {
    type V = Seq<(PeerKey, PeerState)>;

    closed spec fn view(&self) -> Seq<(PeerKey, PeerState)> {
        self.peers@.map_values(|p: Peer| (p.config@, p.state))
    }
}

impl Connection {
    /// No two peers share a key.
    pub open spec fn wf(&self) -> bool {
        forall|i: int, j: int|
            0 <= i < self@.len() && 0 <= j < self@.len() && i != j ==> (#[trigger] self@[i]).0 != (
            #[trigger] self@[j]).0
    }

    /// A connection set with no peers.
    pub fn empty() -> (r: Connection)
        ensures
            r.wf(),
            r@ == Seq::<(PeerKey, PeerState)>::empty(),
    {
        let r = Connection { peers: Vec::new() };
        assert(r@ =~= Seq::<(PeerKey, PeerState)>::empty());
        r
    }

    pub fn len(&self) -> (r: usize)
        ensures
            r == self@.len(),
    {
        self.peers.len()
    }

    /// The configuration and state of the peer at `i`.
    pub fn peer(&self, i: usize) -> (r: &Peer)
        requires
            i < self@.len(),
        ensures
            (r.config@, r.state) == self@[i as int],
    {
        &self.peers[i]
    }

    /// Where the peer with key `c` stands, if it is configured.
    pub fn find(&self, c: &PeerConfig) -> (r: Option<usize>)
        ensures
            r is None <==> !has_key(self@, c@),
            r matches Some(i) ==> i < self@.len() && self@[i as int].0 == c@,
    {
        let mut i: usize = 0;
        while i < self.peers.len()
            invariant
                i <= self@.len(),
                self@.len() == self.peers@.len(),
                forall|j: int| 0 <= j < i ==> (#[trigger] self@[j]).0 != c@,
            decreases self@.len() - i,
        {
            if self.peers[i].config.same_peer(c) {
                assert(self@[i as int].0 == c@);
                return Some(i);
            }
            i = i + 1;
        }
        None
    }

    /// Whether `c` is among `desired`.
    fn listed(desired: &Vec<PeerConfig>, c: &PeerConfig) -> (r: bool)
        ensures
            r == lists_key(desired@, c@),
    {
        let mut i: usize = 0;
        while i < desired.len()
            invariant
                i <= desired@.len(),
                forall|j: int| 0 <= j < i ==> (#[trigger] desired@[j])@ != c@,
            decreases desired@.len() - i,
        {
            if desired[i].same_peer(c) {
                assert(desired@[i as int]@ == c@);
                return true;
            }
            i = i + 1;
        }
        false
    }

    fn push_peer(&mut self, config: PeerConfig, state: PeerState)
        ensures
            final(self)@ == old(self)@.push((config@, state)),
    {
        self.peers.push(Peer { config, state });
        assert(self@ =~= old(self)@.push((config@, state)));
    }

    /// Moves to the peer set `desired`: peers it still lists keep their
    /// connections untouched, new ones start disconnected, and the rest are
    /// dropped. Returns the dropped peers, whose connections are to close.
    pub fn update(&mut self, desired: &Vec<PeerConfig>) -> (removed: Vec<PeerConfig>)
        requires
            old(self).wf(),
        ensures
            final(self).wf(),
            forall|k: PeerKey| has_key(final(self)@, k) <==> lists_key(desired@, k),
            forall|i: int, j: int|
                0 <= i < final(self)@.len() && 0 <= j < old(self)@.len() && (#[trigger] final(self)@[i]).0
                    == (#[trigger] old(self)@[j]).0 ==> final(self)@[i].1 == old(self)@[j].1,
            forall|i: int|
                0 <= i < final(self)@.len() && !has_key(old(self)@, (#[trigger] final(self)@[i]).0)
                    ==> final(self)@[i].1 == PeerState::Disconnected,
            forall|k: PeerKey|
                lists_key(removed@, k) <==> has_key(old(self)@, k) && !lists_key(desired@, k),
    {
        let ghost pre = old(self)@;
        let mut old_peers: Vec<Peer> = Vec::new();
        core::mem::swap(&mut self.peers, &mut old_peers);
        assert(self@ =~= Seq::<(PeerKey, PeerState)>::empty());
        assert(old_peers@.map_values(|p: Peer| (p.config@, p.state)) =~= pre);
        let mut removed: Vec<PeerConfig> = Vec::new();
        let mut i: usize = 0;
        while i < old_peers.len()
            invariant
                i <= old_peers@.len(),
                pre.len() == old_peers@.len(),
                forall|j: int| 0 <= j < pre.len() ==> #[trigger] pre[j] == (old_peers@[j].config@, old_peers@[j].state),
                forall|a: int, b: int|
                    0 <= a < pre.len() && 0 <= b < pre.len() && a != b ==> (#[trigger] pre[a]).0 != (#[trigger] pre[b]).0,
                self.wf(),
                forall|m: int| 0 <= m < self@.len() ==> lists_key(desired@, (#[trigger] self@[m]).0),
                forall|m: int| 0 <= m < self@.len() ==> has_key(pre, (#[trigger] self@[m]).0),
                forall|m: int, j: int|
                    0 <= m < self@.len() && 0 <= j < pre.len() && (#[trigger] self@[m]).0 == (#[trigger] pre[j]).0
                        ==> self@[m].1 == pre[j].1,
                forall|j: int| 0 <= j < i && lists_key(desired@, (#[trigger] pre[j]).0) ==> has_key(self@, pre[j].0),
                forall|j: int| 0 <= j < i && !lists_key(desired@, (#[trigger] pre[j]).0) ==> lists_key(removed@, pre[j].0),
                forall|r: int| 0 <= r < removed@.len() ==> has_key(pre, (#[trigger] removed@[r])@) && !lists_key(desired@, removed@[r]@),
            decreases old_peers@.len() - i,
        {
            let c = old_peers[i].config.copy();
            let st = old_peers[i].state;
            assert(pre[i as int] == (c@, st));
            if Self::listed(desired, &c) {
                if self.find(&c).is_none() {
                    let ghost s0 = self@;
                    self.push_peer(c, st);
                    assert(self@[s0.len() as int] == (pre[i as int].0, st));
                    assert forall|j: int| 0 <= j <= i && lists_key(desired@, (#[trigger] pre[j]).0) implies has_key(self@, pre[j].0) by {
                        if j < i {
                            let m = choose|m: int| 0 <= m < s0.len() && (#[trigger] s0[m]).0 == pre[j].0;
                            assert(self@[m] == s0[m]);
                        } else {
                            assert(self@[s0.len() as int].0 == pre[j].0);
                        }
                    }
                }
            } else {
                let ghost r0 = removed@;
                removed.push(c);
                assert(removed@[r0.len() as int]@ == pre[i as int].0);
                assert forall|j: int| 0 <= j <= i && !lists_key(desired@, (#[trigger] pre[j]).0) implies lists_key(removed@, pre[j].0) by {
                    if j < i {
                        let m = choose|m: int| 0 <= m < r0.len() && (#[trigger] r0[m])@ == pre[j].0;
                        assert(removed@[m] == r0[m]);
                    }
                }
            }
            i = i + 1;
        }
        let mut j: usize = 0;
        while j < desired.len()
            invariant
                j <= desired@.len(),
                self.wf(),
                forall|m: int| 0 <= m < self@.len() ==> lists_key(desired@, (#[trigger] self@[m]).0),
                forall|m: int, b: int|
                    0 <= m < self@.len() && 0 <= b < pre.len() && (#[trigger] self@[m]).0 == (#[trigger] pre[b]).0
                        ==> self@[m].1 == pre[b].1,
                forall|m: int|
                    0 <= m < self@.len() && !has_key(pre, (#[trigger] self@[m]).0) ==> self@[m].1 == PeerState::Disconnected,
                forall|b: int| 0 <= b < pre.len() && lists_key(desired@, (#[trigger] pre[b]).0) ==> has_key(self@, pre[b].0),
                forall|b: int| 0 <= b < j ==> has_key(self@, (#[trigger] desired@[b])@),
            decreases desired@.len() - j,
        {
            let c = desired[j].copy();
            if self.find(&c).is_none() {
                let ghost s0 = self@;
                proof {
                    assert(lists_key(desired@, c@)) by {
                        assert(desired@[j as int]@ == c@);
                    }
                    assert forall|b: int| 0 <= b < pre.len() implies (#[trigger] pre[b]).0 != c@ by {
                        if pre[b].0 == c@ {
                            assert(has_key(s0, pre[b].0));
                        }
                    }
                }
                self.push_peer(c, PeerState::Disconnected);
                assert(self@[s0.len() as int].0 == desired@[j as int]@);
                assert forall|b: int| 0 <= b < pre.len() && lists_key(desired@, (#[trigger] pre[b]).0) implies has_key(self@, pre[b].0) by {
                    let m = choose|m: int| 0 <= m < s0.len() && (#[trigger] s0[m]).0 == pre[b].0;
                    assert(self@[m] == s0[m]);
                }
                assert forall|b: int| 0 <= b <= j implies has_key(self@, (#[trigger] desired@[b])@) by {
                    if b < j {
                        let m = choose|m: int| 0 <= m < s0.len() && (#[trigger] s0[m]).0 == desired@[b]@;
                        assert(self@[m] == s0[m]);
                    }
                }
            }
            j = j + 1;
        }
        proof {
            assert forall|k: PeerKey| lists_key(desired@, k) implies has_key(self@, k) by {
                let b = choose|b: int| 0 <= b < desired@.len() && (#[trigger] desired@[b])@ == k;
            }
            assert forall|k: PeerKey| has_key(pre, k) && !lists_key(desired@, k) implies lists_key(removed@, k) by {
                let b = choose|b: int| 0 <= b < pre.len() && (#[trigger] pre[b]).0 == k;
            }
        }
        removed
    }

    /// A connection set for the peers of `configs`, all disconnected.
    pub fn new(configs: &Vec<PeerConfig>) -> (r: Connection)
        ensures
            r.wf(),
            forall|k: PeerKey| has_key(r@, k) <==> lists_key(configs@, k),
            forall|i: int| 0 <= i < r@.len() ==> (#[trigger] r@[i]).1 == PeerState::Disconnected,
    {
        let mut r = Connection::empty();
        let _ = r.update(configs);
        r
    }

    /// The peer a send to `c` goes to: only a connected one; otherwise the
    /// send is dropped.
    pub fn send_to(&self, c: &PeerConfig) -> (r: Option<usize>)
        requires
            self.wf(),
        ensures
            r is Some <==> exists|i: int| 0 <= i < self@.len() && (#[trigger] self@[i]).0 == c@ && self@[i].1 == PeerState::Connected,
            r matches Some(i) ==> i < self@.len() && self@[i as int].0 == c@,
    {
        match self.find(c) {
            Some(i) => if self.peers[i].state == PeerState::Connected {
                Some(i)
            } else {
                None
            },
            None => None,
        }
    }

    /// Applies event `e` to the connection of the peer at `i`.
    pub fn step(&mut self, i: usize, e: PeerEvent)
        requires
            i < old(self)@.len(),
            old(self).wf(),
        ensures
            final(self).wf(),
            final(self)@ == old(self)@.update(i as int, (old(self)@[i as int].0, next_state(old(self)@[i as int].1, e))),
    {
        let s = self.peers[i].state;
        let n = match (s, e) {
            (PeerState::Disconnected, PeerEvent::Dial) => PeerState::Connecting,
            (PeerState::Connecting, PeerEvent::Handshake) => PeerState::Connected,
                (PeerState::Connected, PeerEvent::IoError) => PeerState::Disconnected,
            _ => s,
        };
        let mut p = Peer { config: PeerConfig { id: 0, host: String::new(), port: 0 }, state: n };
        self.peers.set_and_swap(i, &mut p);
        let mut q = Peer { config: p.config, state: n };
        self.peers.set_and_swap(i, &mut q);
        assert(self@ =~= old(self)@.update(i as int, (old(self)@[i as int].0, next_state(old(self)@[i as int].1, e))));
    }

    /// The peers with state `Disconnected`, which a connect pass dials.
    pub fn to_dial(&self) -> (r: Vec<usize>)
        ensures
            forall|j: int| 0 <= j < r@.len() ==> r@[j] < self@.len() && self@[r@[j] as int].1 == PeerState::Disconnected,
            forall|i: int| 0 <= i < self@.len() && self@[i].1 == PeerState::Disconnected ==> r@.contains(i as usize),
            forall|j: int, k: int| 0 <= j < k < r@.len() ==> r@[j] < r@[k],
    {
        self.in_state(PeerState::Disconnected)
    }

    /// The peers a broadcast reaches: those connected. A send to any other
    /// peer is dropped.
    pub fn send_targets(&self) -> (r: Vec<usize>)
        ensures
            forall|j: int| 0 <= j < r@.len() ==> r@[j] < self@.len() && self@[r@[j] as int].1 == PeerState::Connected,
            forall|i: int| 0 <= i < self@.len() && self@[i].1 == PeerState::Connected ==> r@.contains(i as usize),
            forall|j: int, k: int| 0 <= j < k < r@.len() ==> r@[j] < r@[k],
    {
        self.in_state(PeerState::Connected)
    }

    fn in_state(&self, s: PeerState) -> (r: Vec<usize>)
        ensures
            forall|j: int| 0 <= j < r@.len() ==> r@[j] < self@.len() && self@[r@[j] as int].1 == s,
            forall|i: int| 0 <= i < self@.len() && self@[i].1 == s ==> r@.contains(i as usize),
            forall|j: int, k: int| 0 <= j < k < r@.len() ==> r@[j] < r@[k],
    {
        let mut r: Vec<usize> = Vec::new();
        let mut i: usize = 0;
        while i < self.peers.len()
            invariant
                i <= self@.len(),
                self@.len() == self.peers@.len(),
                forall|j: int| 0 <= j < r@.len() ==> r@[j] < i && self@[r@[j] as int].1 == s,
                forall|k: int| 0 <= k < i && self@[k].1 == s ==> r@.contains(k as usize),
                forall|a: int, b: int| 0 <= a < b < r@.len() ==> r@[a] < r@[b],
            decreases self@.len() - i,
        {
            let ghost before = r@;
            if self.peers[i].state == s {
                r.push(i);
                assert(r@[r@.len() - 1] == i);
                assert forall|k: int| 0 <= k < i && self@[k].1 == s implies r@.contains(k as usize) by {
                    let m = choose|m: int| 0 <= m < before.len() && before[m] == k as usize;
                    assert(r@[m] == k as usize);
                }
            }
            i = i + 1;
        }
        r
    }
}

} // verus!
