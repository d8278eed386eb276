//! The reconciliation buffer: blocks and proofs that arrived ahead of the
//! confirmed chain, kept for heights inside a sliding window above it.
use vstd::pervasive::VecAdditionalExecFns;
use vstd::prelude::*;

verus! {

/// Width of the window of heights the buffer keeps, counted from the
/// confirmed height (exclusive at both ends).
pub const WINDOW: u64 = 300;

const SLOTS: usize = 300;

/// Whether the buffer may hold an entry for height `h` while the confirmed
/// height is `current`.
pub open spec fn in_window(h: u64, current: u64) -> bool {
    current < h && h < current + WINDOW
}

/// What is known of one pending height: its proof and its block, each
/// once it has arrived.
pub struct PendingEntry {
    pub proof: Option<Vec<u8>>,
    pub block: Option<Vec<u8>>,
    pub verified: bool,
}

/// The mathematical value of a [`PendingEntry`].
pub struct EntryView {
    pub proof: Option<Seq<u8>>,
    pub block: Option<Seq<u8>>,
    pub verified: bool,
}

pub open spec fn bytes_view(p: Option<Vec<u8>>) -> Option<Seq<u8>> {
    match p {
        Some(v) => Some(v@),
        None => None,
    }
}

impl View for PendingEntry {
    type V = EntryView;

    open spec fn view(&self) -> EntryView {
        EntryView { proof: bytes_view(self.proof), block: bytes_view(self.block), verified: self.verified }
    }
}

/// Whether a block body for `h` replaces what `m` holds at `h`: only inside
/// the window, and never over a verified entry.
pub open spec fn body_accepted(m: Map<u64, EntryView>, current: u64, h: u64) -> bool {
    in_window(h, current) && (!m.contains_key(h) || !m[h].verified)
}

/// The buffer after a block body for `h` arrives: it keeps the proof known
/// so far and is not verified.
pub open spec fn body_admitted(
    m: Map<u64, EntryView>,
    current: u64,
    h: u64,
    block: Seq<u8>,
) -> Map<u64, EntryView> {
    if body_accepted(m, current, h) {
        let proof = if m.contains_key(h) {
            m[h].proof
        } else {
            None
        };
        m.insert(h, EntryView { proof, block: Some(block), verified: false })
    } else {
        m
    }
}

/// The buffer after a block for `h` arrives together with its proof: the
/// entry is verified and ready for promotion.
pub open spec fn proof_block_admitted(
    m: Map<u64, EntryView>,
    current: u64,
    h: u64,
    proof: Seq<u8>,
    block: Seq<u8>,
) -> Map<u64, EntryView> {
    if body_accepted(m, current, h) {
        m.insert(h, EntryView { proof: Some(proof), block: Some(block), verified: true })
    } else {
        m
    }
}

/// The buffer after a proof for `h` arrives: inside the window it is
/// attached to the entry for `h`, which is created without a block when
/// none is held yet; outside the window it is dropped.
pub open spec fn proof_attached(m: Map<u64, EntryView>, current: u64, h: u64, proof: Seq<u8>) -> Map<
    u64,
    EntryView,
> {
    if in_window(h, current) {
        if m.contains_key(h) {
            m.insert(h, EntryView { proof: Some(proof), block: m[h].block, verified: m[h].verified })
        } else {
            m.insert(h, EntryView { proof: Some(proof), block: None, verified: false })
        }
    } else {
        m
    }
}

/// The entries of `m` above height `h`.
pub open spec fn pruned(m: Map<u64, EntryView>, h: u64) -> Map<u64, EntryView> {
    Map::new(|k: u64| m.contains_key(k) && k > h, |k: u64| m[k])
}

/// One thing a peer can tell the buffer about a height.
pub enum Fact {
    /// A block body for `h`.
    Body { h: u64, block: Seq<u8> },
    /// A block for `h` with its proof.
    WithProof { h: u64, proof: Seq<u8>, block: Seq<u8> },
    /// A proof for the block at `h`.
    Proof { h: u64, proof: Seq<u8> },
}

/// The buffer after `f` arrives while the confirmed height is `current`.
pub open spec fn fact_applied(m: Map<u64, EntryView>, current: u64, f: Fact) -> Map<u64, EntryView> {
    match f {
        Fact::Body { h, block } => body_admitted(m, current, h, block),
        Fact::WithProof { h, proof, block } => proof_block_admitted(m, current, h, proof, block),
        Fact::Proof { h, proof } => proof_attached(m, current, h, proof),
    }
}

pub open spec fn fact_height(f: Fact) -> u64 {
    match f {
        Fact::Body { h, .. } => h,
        Fact::WithProof { h, .. } => h,
        Fact::Proof { h, .. } => h,
    }
}

pub open spec fn fact_block(f: Fact) -> Option<Seq<u8>> {
    match f {
        Fact::Body { block, .. } => Some(block),
        Fact::WithProof { block, .. } => Some(block),
        Fact::Proof { .. } => None,
    }
}

pub open spec fn fact_proof(f: Fact) -> Option<Seq<u8>> {
    match f {
        Fact::Body { .. } => None,
        Fact::WithProof { proof, .. } => Some(proof),
        Fact::Proof { proof, .. } => Some(proof),
    }
}

/// Two facts describe one consistent history: about the same height they
/// name the same block and the same proof.
pub open spec fn facts_agree(a: Fact, b: Fact) -> bool {
    fact_height(a) == fact_height(b) ==> {
        &&& (fact_block(a) is Some && fact_block(b) is Some ==> fact_block(a) == fact_block(b))
        &&& (fact_proof(a) is Some && fact_proof(b) is Some ==> fact_proof(a) == fact_proof(b))
    }
}

/// Admitting the same fact twice leaves the buffer as admitting it once.
pub proof fn lemma_admit_idempotent(m: Map<u64, EntryView>, current: u64, f: Fact)
    ensures
        fact_applied(fact_applied(m, current, f), current, f) == fact_applied(m, current, f),
{
    let once = fact_applied(m, current, f);
    assert(fact_applied(once, current, f) =~= once);
}

/// Two agreeing facts may arrive in either order with the same outcome: a
/// proof and a block for one height meet whichever comes first.
pub proof fn lemma_admit_commutes(m: Map<u64, EntryView>, current: u64, a: Fact, b: Fact)
    requires
        facts_agree(a, b),
    ensures
        fact_applied(fact_applied(m, current, a), current, b) == fact_applied(
            fact_applied(m, current, b),
            current,
            a,
        ),
{
    let ab = fact_applied(fact_applied(m, current, a), current, b);
    let ba = fact_applied(fact_applied(m, current, b), current, a);
    assert(ab =~= ba);
}

/// The buffer after the facts of `s` arrive in order.
pub open spec fn facts_applied(m: Map<u64, EntryView>, current: u64, s: Seq<Fact>) -> Map<u64, EntryView>
    decreases s.len(),
{
    if s.len() == 0 {
        m
    } else {
        facts_applied(fact_applied(m, current, s[0]), current, s.drop_first())
    }
}

/// The facts of `s` describe one consistent history.
pub open spec fn facts_consistent(s: Seq<Fact>) -> bool {
    forall|i: int, j: int|
        0 <= i < s.len() && 0 <= j < s.len() ==> facts_agree(#[trigger] s[i], #[trigger] s[j])
}

/// `s` with its facts at `i` and `i + 1` exchanged.
pub open spec fn swapped(s: Seq<Fact>, i: int) -> Seq<Fact> {
    s.update(i, s[i + 1]).update(i + 1, s[i])
}

/// Exchanging two neighbouring arrivals of a consistent history leaves the
/// final buffer as it was. Every reordering of a sequence is a chain of
/// such exchanges, so all arrival orders of one consistent set of facts end
/// in the same buffer.
pub proof fn lemma_arrival_order(m: Map<u64, EntryView>, current: u64, s: Seq<Fact>, i: int)
    requires
        facts_consistent(s),
        0 <= i < s.len() - 1,
    ensures
        facts_applied(m, current, swapped(s, i)) == facts_applied(m, current, s),
    decreases i,
{
    let t = swapped(s, i);
    if i == 0 {
        lemma_admit_commutes(m, current, s[0], s[1]);
        let rest = s.drop_first().drop_first();
        assert(t.drop_first().drop_first() =~= rest);
        assert(t[0] == s[1] && t[1] == s[0]);
        assert(t.drop_first()[0] == s[0]);
        assert(s.drop_first()[0] == s[1]);
        let a = fact_applied(m, current, s[0]);
        let b = fact_applied(m, current, s[1]);
        assert(facts_applied(m, current, s) == facts_applied(a, current, s.drop_first()));
        assert(facts_applied(a, current, s.drop_first()) == facts_applied(
            fact_applied(a, current, s[1]),
            current,
            rest,
        ));
        assert(facts_applied(m, current, t) == facts_applied(b, current, t.drop_first()));
        assert(facts_applied(b, current, t.drop_first()) == facts_applied(
            fact_applied(b, current, s[0]),
            current,
            rest,
        ));
    } else {
        let m1 = fact_applied(m, current, s[0]);
        let tail = s.drop_first();
        assert forall|a: int, b: int| 0 <= a < tail.len() && 0 <= b < tail.len() implies facts_agree(
            #[trigger] tail[a],
            #[trigger] tail[b],
        ) by {
            assert(tail[a] == s[a + 1] && tail[b] == s[b + 1]);
        }
        lemma_arrival_order(m1, current, tail, i - 1);
        assert(swapped(tail, i - 1) =~= t.drop_first());
        assert(t[0] == s[0]);
        assert(facts_applied(m, current, t) == facts_applied(m1, current, t.drop_first()));
    }
}

struct Slot {
    height: u64,
    entry: PendingEntry,
}

spec fn slot_index(h: u64) -> int {
    (h % WINDOW) as int
}

spec fn slot_after_prune(o: Option<Slot>, h: u64) -> Option<Slot> {
    match o {
        Some(s) => if s.height > h {
            o
        } else {
            None
        },
        None => None,
    }
}

/// Two heights inside one window never share a slot.
proof fn lemma_slot_unique(a: u64, b: u64, current: u64)
    requires
        in_window(a, current),
        in_window(b, current),
        slot_index(a) == slot_index(b),
    ensures
        a == b,
{
}

/// Height-indexed store of pending blocks, one slot per height of the window.
pub struct ReconciliationBuffer {
    current_height: u64,
    slots: Vec<Option<Slot>>,
}

impl View for ReconciliationBuffer {
    type V = Map<u64, EntryView>;

    closed spec fn view(&self) -> Map<u64, EntryView> {
        Map::new(|h: u64| self.holds(h), |h: u64| self.slots@[slot_index(h)].unwrap().entry@)
    }
}

impl ReconciliationBuffer {
    /// The confirmed height the window is counted from.
    pub closed spec fn current(&self) -> u64 {
        self.current_height
    }

    spec fn holds(&self, h: u64) -> bool {
        self.slots@[slot_index(h)] matches Some(s) && s.height == h
    }

    pub closed spec fn wf(&self) -> bool {
        &&& self.slots@.len() == SLOTS
        &&& forall|i: int|
            0 <= i < SLOTS && (#[trigger] self.slots@[i]) is Some ==> {
                let s = self.slots@[i].unwrap();
                slot_index(s.height) == i && in_window(s.height, self.current_height)
            }
    }

    /// Every height the buffer holds lies inside the window.
    pub proof fn lemma_window_bound(&self)
        requires
            self.wf(),
        ensures
            forall|h: u64| #[trigger] self@.contains_key(h) ==> in_window(h, self.current()),
    {
        assert forall|h: u64| #[trigger] self@.contains_key(h) implies in_window(
            h,
            self.current(),
        ) by {
            assert(self.slots@[slot_index(h)] is Some);
        }
    }

    /// An empty buffer above confirmed height `current`.
    pub fn new(current: u64) -> (r: Self)
        ensures
            r.wf(),
            r.current() == current,
            r@ == Map::<u64, EntryView>::empty(),
    {
        let mut slots: Vec<Option<Slot>> = Vec::new();
        let mut i: usize = 0;
        while i < SLOTS
            invariant
                i <= SLOTS,
                slots@.len() == i,
                forall|j: int| 0 <= j < i ==> slots@[j] is None,
            decreases SLOTS - i,
        {
            slots.push(None);
            i = i + 1;
        }
        let r = ReconciliationBuffer { current_height: current, slots };
        assert(r@ =~= Map::<u64, EntryView>::empty());
        r
    }

    /// The confirmed height the window is counted from.
    pub fn current_height(&self) -> (r: u64)
        ensures
            r == self.current(),
    {
        self.current_height
    }

    fn in_window_exec(&self, h: u64) -> (r: bool)
        ensures
            r == in_window(h, self.current()),
    {
        h > self.current_height && h - self.current_height < WINDOW
    }

    /// Admits a block body for height `h`; see [`body_admitted`].
    pub fn admit_block(&mut self, h: u64, block: Vec<u8>)
        requires
            old(self).wf(),
        ensures
            final(self).wf(),
            final(self).current() == old(self).current(),
            final(self)@ == body_admitted(old(self)@, old(self).current(), h, block@),
    {
        if !self.in_window_exec(h) {
            return;
        }
        let i = (h % WINDOW) as usize;
        let mut taken: Option<Slot> = None;
        self.slots.set_and_swap(i, &mut taken);
        let slot = match taken {
            Some(s) => {
                proof {
                    lemma_slot_unique(s.height, h, self.current_height);
                }
                if s.entry.verified {
                    s
                } else {
                    Slot { height: h, entry: PendingEntry { proof: s.entry.proof, block: Some(block), verified: false } }
                }
            },
            None => Slot { height: h, entry: PendingEntry { proof: None, block: Some(block), verified: false } },
        };
        self.slots.set(i, Some(slot));
        proof {
            self.lemma_update_view(*old(self), i as int);
        }
    }

    /// Admits a block for height `h` that arrives with its proof; returns
    /// whether the entry was promoted. See [`proof_block_admitted`].
    pub fn admit_proof_block(&mut self, h: u64, proof: Vec<u8>, block: Vec<u8>) -> (r: bool)
        requires
            old(self).wf(),
        ensures
            final(self).wf(),
            final(self).current() == old(self).current(),
            final(self)@ == proof_block_admitted(old(self)@, old(self).current(), h, proof@, block@),
            r == body_accepted(old(self)@, old(self).current(), h),
    {
        if !self.in_window_exec(h) {
            return false;
        }
        let i = (h % WINDOW) as usize;
        let mut taken: Option<Slot> = None;
        self.slots.set_and_swap(i, &mut taken);
        let (slot, promoted) = match taken {
            Some(s) => {
                proof {
                    lemma_slot_unique(s.height, h, self.current_height);
                }
                if s.entry.verified {
                    (s, false)
                } else {
                    (Slot { height: h, entry: PendingEntry { proof: Some(proof), block: Some(block), verified: true } }, true)
                }
            },
            None => (Slot { height: h, entry: PendingEntry { proof: Some(proof), block: Some(block), verified: true } }, true),
        };
        self.slots.set(i, Some(slot));
        proof {
            self.lemma_update_view(*old(self), i as int);
        }
        promoted
    }

    /// Attaches a proof for `h`; returns whether it was kept, that is
    /// whether `h` lies in the window. See [`proof_attached`].
    pub fn attach_proof(&mut self, h: u64, proof: Vec<u8>) -> (r: bool)
        requires
            old(self).wf(),
        ensures
            final(self).wf(),
            final(self).current() == old(self).current(),
            final(self)@ == proof_attached(old(self)@, old(self).current(), h, proof@),
            r == in_window(h, old(self).current()),
    {
        if !self.in_window_exec(h) {
            return false;
        }
        let i = (h % WINDOW) as usize;
        let mut taken: Option<Slot> = None;
        self.slots.set_and_swap(i, &mut taken);
        let (slot, found) = match taken {
            Some(s) => {
                proof {
                    lemma_slot_unique(s.height, h, self.current_height);
                }
                let e = s.entry;
                (Slot { height: h, entry: PendingEntry { proof: Some(proof), block: e.block, verified: e.verified } }, true)
            },
            None => (Slot { height: h, entry: PendingEntry { proof: Some(proof), block: None, verified: false } }, true),
        };
        self.slots.set(i, Some(slot));
        proof {
            self.lemma_update_view(*old(self), i as int);
        }
        found
    }

    /// Advances the confirmed height to `h` (a lower `h` changes nothing) and
    /// drops every entry at or below it. Returns the proof held for `h`
    /// itself, which leaves the buffer with it.
    pub fn confirm(&mut self, h: u64) -> (r: Option<Vec<u8>>)
        requires
            old(self).wf(),
        ensures
            final(self).wf(),
            final(self).current() == (if h > old(self).current() {
                h
            } else {
                old(self).current()
            }),
            final(self)@ == pruned(old(self)@, final(self).current()),
            h <= old(self).current() ==> final(self)@ == old(self)@,
            forall|k: u64| #[trigger] final(self)@.contains_key(k) ==> k > h,
            bytes_view(r) == (if h > old(self).current() && old(self)@.contains_key(h) {
                old(self)@[h].proof
            } else {
                None
            }),
    {
        if h <= self.current_height {
            proof {
                assert(self@ =~= pruned(self@, self.current_height));
            }
            return None;
        }
        let i0 = (h % WINDOW) as usize;
        let mut taken: Option<Slot> = None;
        self.slots.set_and_swap(i0, &mut taken);
        let (kept, proof_at_h) = match taken {
            Some(s) => {
                if s.height == h {
                    (None, s.entry.proof)
                } else {
                    (Some(s), None)
                }
            },
            None => (None, None),
        };
        self.slots.set(i0, kept);
        proof {
            self.lemma_update_view(*old(self), i0 as int);
        }
        let ghost pre = self.slots@;
        let mut i: usize = 0;
        while i < SLOTS
            invariant
                i <= SLOTS,
                self.slots@.len() == SLOTS,
                pre.len() == SLOTS,
                forall|j: int| 0 <= j < i ==> self.slots@[j] == slot_after_prune(pre[j], h),
                forall|j: int| i <= j < SLOTS ==> self.slots@[j] == pre[j],
            decreases SLOTS - i,
        {
            let clear = match &self.slots[i] {
                Some(s) => s.height <= h,
                None => false,
            };
            if clear {
                self.slots.set(i, None);
            }
            i = i + 1;
        }
        self.current_height = h;
        proof {
            assert forall|j: int| 0 <= j < SLOTS && (#[trigger] self.slots@[j]) is Some implies {
                let s = self.slots@[j].unwrap();
                slot_index(s.height) == j && in_window(s.height, self.current_height)
            } by {
                assert(self.slots@[j] == slot_after_prune(pre[j], h));
                assert(old(self).slots@[j] is Some);
            }
            assert(self@ =~= pruned(old(self)@, h));
        }
        proof_at_h
    }

    /// The views of two well-formed buffers agree away from slot `i`.
    proof fn lemma_update_view(&self, pre: Self, i: int)
        requires
            self.wf(),
            pre.wf(),
            0 <= i < SLOTS,
            self.current_height == pre.current_height,
            forall|j: int| 0 <= j < SLOTS && j != i ==> self.slots@[j] == pre.slots@[j],
        ensures
            forall|h: u64| slot_index(h) != i ==> (self@.contains_key(h) <==> pre@.contains_key(h)),
            forall|h: u64| slot_index(h) != i && self@.contains_key(h) ==> self@[h] == pre@[h],
    {
    }

    /// The entry held for height `h`, if any.
    pub fn get(&self, h: u64) -> (r: Option<&PendingEntry>)
        requires
            self.wf(),
        ensures
            r is Some <==> self@.contains_key(h),
            r matches Some(e) ==> e@ == self@[h],
    {
        let i = (h % WINDOW) as usize;
        match &self.slots[i] {
            Some(s) => {
                if s.height == h {
                    Some(&s.entry)
                } else {
                    None
                }
            },
            None => None,
        }
    }
}

} // verus!
