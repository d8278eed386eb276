//! The chain-height state of a node and the dispatcher that routes each
//! decoded bus message to the buffer or the sync coordinator.
use crate::buffer::{
    body_accepted, body_admitted, bytes_view, in_window, proof_attached, proof_block_admitted,
    pruned, EntryView, PendingEntry, ReconciliationBuffer,
};
use crate::sync::{sync_heights, wave_heights, wave_starts, SYNC_BATCH};
use crate::wire::{be_bytes, be_value, decode_sync_request, encode_sync_request};
use vstd::prelude::*;

verus! {

/// The height a block carries when it only transports a proof.
pub const PROOF_ONLY_HEIGHT: u64 = 0xffff_ffff_ffff_ffff;

/// What a raw message's command id names.
pub enum MsgKind {
    /// A peer asks for one block; the content is its height.
    SyncBlock,
    /// A consensus proposal.
    NewProposal,
    /// Any other or unrecognised command.
    Other,
}

/// A decoded bus message.
pub enum MsgClass {
    /// A query on the confirmed chain, handed to the query service.
    Request(Vec<u8>),
    /// A block at `height` together with its proof.
    BlockWithProof { height: u64, proof: Vec<u8>, block: Vec<u8> },
    /// A block at `height`. `hash_ok` is the outcome of its transaction-root
    /// check, `proof_height` the height its embedded proof is for, `proof`
    /// that proof. At `PROOF_ONLY_HEIGHT` it carries the proof alone.
    Block { height: u64, hash_ok: bool, proof_height: Option<u64>, proof: Vec<u8>, block: Vec<u8> },
    /// A peer's announced chain height.
    Status { height: u64 },
    /// A message of another kind, with its raw content.
    Msg { kind: MsgKind, content: Vec<u8> },
    /// A request for the transaction hashes of the block at `height`.
    BlockTxHashesReq { height: u64 },
    /// A rich status beacon.
    RichStatus,
    /// Anything else.
    Other,
}

/// A message for the bus.
pub enum Outgoing {
    /// A request to `origin` for the block whose height `payload` encodes.
    SyncRequest { origin: u32, payload: Vec<u8> },
    /// A confirmed block, sent to `origin`.
    BlockRelay { origin: u32, block: Vec<u8> },
    /// A proof of the confirmed height, sent to `origin` in a block that
    /// carries `PROOF_ONLY_HEIGHT`.
    ProofRelay { origin: u32, proof: Vec<u8> },
    /// The transaction hashes of the block at `height`, in block order.
    TxHashes {
        height: u64,
        tx_hashes: Vec<Vec<u8>>,
        block_gas_limit: u64,
        account_gas_limit: Vec<u8>,
    },
}

/// What the dispatcher asks of its caller after one message.
pub enum Action {
    /// Nothing.
    Drop,
    /// Answer this query from the confirmed chain.
    Query(Vec<u8>),
    /// A proof landed at this height: wake whoever waits on it.
    Wake(u64),
    /// Put these messages on the bus.
    Send(Vec<Outgoing>),
    /// Look up the confirmed block at `height` and pass it to `serve_block`.
    ServeBlock { origin: u32, height: u64 },
    /// Look up the transaction hashes at `height` and pass them to
    /// `serve_tx_hashes`.
    ServeTxHashes { height: u64 },
}

/// The mathematical value of a [`ChainState`].
pub struct ChainView {
    pub current: u64,
    pub pending: Map<u64, EntryView>,
    pub max: u64,
    pub syncing: bool,
    pub current_proof: Option<Seq<u8>>,
}

/// Whether a proof for `t` is kept: it is the confirmed height's, or `t`
/// lies in the window.
pub open spec fn proof_lands(v: ChainView, t: u64) -> bool {
    t == v.current || in_window(t, v.current)
}

/// The state after a proof for `t` arrives.
pub open spec fn proof_arrived(v: ChainView, t: u64, proof: Seq<u8>) -> ChainView {
    if t == v.current {
        ChainView { current_proof: Some(proof), ..v }
    } else {
        ChainView { pending: proof_attached(v.pending, v.current, t, proof), ..v }
    }
}

/// The state after a block for `h` arrives with its proof.
pub open spec fn with_proof_block(v: ChainView, h: u64, proof: Seq<u8>, block: Seq<u8>) -> ChainView {
    ChainView { pending: proof_block_admitted(v.pending, v.current, h, proof, block), ..v }
}

/// Whether a plain block for `h` is taken in: its root check passed and it
/// lies in the window.
pub open spec fn block_taken(v: ChainView, h: u64, hash_ok: bool) -> bool {
    h != PROOF_ONLY_HEIGHT && hash_ok && in_window(h, v.current)
}

/// The state after a block arrives (see [`MsgClass::Block`]).
pub open spec fn block_arrived(
    v: ChainView,
    h: u64,
    hash_ok: bool,
    proof_height: Option<u64>,
    proof: Seq<u8>,
    block: Seq<u8>,
) -> ChainView {
    if h == PROOF_ONLY_HEIGHT {
        match proof_height {
            Some(t) => proof_arrived(v, t, proof),
            None => v,
        }
    } else if block_taken(v, h, hash_ok) {
        let v1 = ChainView { pending: body_admitted(v.pending, v.current, h, block), ..v };
        match proof_height {
            Some(t) => proof_arrived(v1, t, proof),
            None => v1,
        }
    } else {
        v
    }
}

/// The height a block's arrival wakes, if its proof landed.
pub open spec fn block_wakes(v: ChainView, h: u64, hash_ok: bool, proof_height: Option<u64>, block: Seq<u8>) -> Option<u64> {
    if h == PROOF_ONLY_HEIGHT {
        match proof_height {
            Some(t) => if proof_lands(v, t) { Some(t) } else { None },
            None => None,
        }
    } else if block_taken(v, h, hash_ok) {
        let v1 = ChainView { pending: body_admitted(v.pending, v.current, h, block), ..v };
        match proof_height {
            Some(t) => if proof_lands(v1, t) { Some(t) } else { None },
            None => None,
        }
    } else {
        None
    }
}

/// The state after a peer announces `advertised`: the known maximum rises
/// to it, and the node is syncing exactly when this status starts a wave.
/// A status that finds a wave outstanding ends it without sending, so the
/// one after re-examines the gap from the confirmed height and asks again
/// for whatever is still missing.
pub open spec fn status_seen(v: ChainView, advertised: u64) -> ChainView {
    let max = if advertised > v.max { advertised } else { v.max };
    ChainView { max, syncing: wave_starts(v.current, max, v.syncing), ..v }
}

/// The state after the chain confirms height `h`.
pub open spec fn confirmed(v: ChainView, h: u64) -> ChainView {
    if h > v.current {
        ChainView {
            current: h,
            pending: pruned(v.pending, h),
            current_proof: if v.pending.contains_key(h) {
                v.pending[h].proof
            } else {
                None
            },
            ..v
        }
    } else {
        v
    }
}

/// `o` asks `origin` for the block at `h`.
pub open spec fn is_sync_request(o: Outgoing, origin: u32, h: u64) -> bool {
    o matches Outgoing::SyncRequest { origin: to, payload } && to == origin && payload@ == be_bytes(h)
}

fn copy_bytes(v: &Vec<u8>) -> (r: Vec<u8>)
    ensures
        r@ == v@,
{
    let mut r: Vec<u8> = Vec::new();
    let mut i: usize = 0;
    while i < v.len()
        invariant
            i <= v@.len(),
            r@ == v@.subrange(0, i as int),
        decreases v@.len() - i,
    {
        r.push(v[i]);
        i = i + 1;
        assert(r@ =~= v@.subrange(0, i as int));
    }
    assert(r@ =~= v@);
    r
}

/// What the dispatcher answers to `msg`, from the state `v` it arrived in,
/// for every kind of message but a status beacon.
pub open spec fn dispatched(v: ChainView, origin: u32, msg: MsgClass) -> Action {
    match msg {
        MsgClass::Request(q) => Action::Query(q),
        MsgClass::BlockWithProof { height, .. } => if body_accepted(v.pending, v.current, height) {
            Action::Wake(height)
        } else {
            Action::Drop
        },
        MsgClass::Block { height, hash_ok, proof_height, block, .. } => match block_wakes(
            v,
            height,
            hash_ok,
            proof_height,
            block@,
        ) {
            Some(t) => Action::Wake(t),
            None => Action::Drop,
        },
        MsgClass::Msg { kind: MsgKind::SyncBlock, content } => if content@.len() == 8 {
            Action::ServeBlock { origin, height: be_value(content@) as u64 }
        } else {
            Action::Drop
        },
        MsgClass::BlockTxHashesReq { height } => Action::ServeTxHashes { height },
        _ => Action::Drop,
    }
}

/// The state after `msg` arrives, for every kind of message.
pub open spec fn after_message(v: ChainView, msg: MsgClass) -> ChainView {
    match msg {
        MsgClass::BlockWithProof { height, proof, block } => with_proof_block(v, height, proof@, block@),
        MsgClass::Block { height, hash_ok, proof_height, proof, block } => block_arrived(
            v,
            height,
            hash_ok,
            proof_height,
            proof@,
            block@,
        ),
        MsgClass::Status { height } => status_seen(v, height),
        _ => v,
    }
}

/// A status that finds a wave outstanding ends it, and the status after it
/// starts a fresh wave from the confirmed height whenever a gap remains: a
/// lost or unanswered request is asked for again.
pub proof fn lemma_status_resumes_sync(v: ChainView, first: u64, second: u64)
    requires
        v.syncing,
    ensures
        !status_seen(v, first).syncing,
        ({
            let v1 = status_seen(v, first);
            let max = status_seen(v1, second).max;
            v.current < max ==> {
                &&& status_seen(v1, second).syncing
                &&& wave_heights(v1.current, max, v1.syncing).len() > 0
                &&& wave_heights(v1.current, max, v1.syncing)[0] == v.current + 1
            }
        }),
{
}

/// Handling the same block, proof or request twice leaves the chain state
/// as handling it once. (A repeated status beacon is not idempotent: the
/// second one ends the wave the first started.)
pub proof fn lemma_message_idempotent(v: ChainView, msg: MsgClass)
    requires
        !(msg is Status),
    ensures
        after_message(after_message(v, msg), msg) == after_message(v, msg),
{
    let once = after_message(v, msg);
    let twice = after_message(once, msg);
    assert(twice.pending =~= once.pending);
}

/// Handles one decoded bus message from the peer `origin`: updates the
/// chain state and says what the caller is to do next.
pub fn chain_result(chain: &mut ChainState, origin: u32, msg: MsgClass) -> (r: Action)
    requires
        old(chain).wf(),
    ensures
        final(chain).wf(),
        final(chain)@ == after_message(old(chain)@, msg),
        final(chain).gas_limits() == old(chain).gas_limits(),
        !(msg is Status) ==> r == dispatched(old(chain)@, origin, msg),
        msg matches MsgClass::Status { height } ==> (r matches Action::Send(out) && {
            let hs = wave_heights(old(chain)@.current, final(chain)@.max, old(chain)@.syncing);
            &&& out@.len() == hs.len()
            &&& forall|i: int| 0 <= i < out@.len() ==> is_sync_request(#[trigger] out@[i], origin, hs[i])
        }),
{
    match msg {
        MsgClass::Request(q) => Action::Query(q),
        MsgClass::BlockWithProof { height, proof, block } => {
            match chain.on_block_with_proof(height, proof, block) {
                Some(t) => Action::Wake(t),
                None => Action::Drop,
            }
        },
        MsgClass::Block { height, hash_ok, proof_height, proof, block } => {
            match chain.on_block(height, hash_ok, proof_height, proof, block) {
                Some(t) => Action::Wake(t),
                None => Action::Drop,
            }
        },
        MsgClass::Status { height } => Action::Send(chain.on_status(origin, height)),
        MsgClass::Msg { kind, content } => match kind {
            MsgKind::SyncBlock => match decode_sync_request(&content) {
                Some(height) => Action::ServeBlock { origin, height },
                None => Action::Drop,
            },
            _ => Action::Drop,
        },
        MsgClass::BlockTxHashesReq { height } => Action::ServeTxHashes { height },
        MsgClass::RichStatus => Action::Drop,
        MsgClass::Other => Action::Drop,
    }
}

/// Heights, buffered blocks and sync status of the local chain.
pub struct ChainState {
    buffer: ReconciliationBuffer,
    max_height: u64,
    is_syncing: bool,
    current_proof: Option<Vec<u8>>,
    block_gas_limit: u64,
    account_gas_limit: Vec<u8>,
}

impl View for ChainState {
    type V = ChainView;

    closed spec fn view(&self) -> ChainView {
        ChainView {
            current: self.buffer.current(),
            pending: self.buffer@,
            max: self.max_height,
            syncing: self.is_syncing,
            current_proof: bytes_view(self.current_proof),
        }
    }
}

impl ChainState {
    pub closed spec fn wf(&self) -> bool {
        self.buffer.wf()
    }

    pub closed spec fn gas_limits(&self) -> (u64, Seq<u8>) {
        (self.block_gas_limit, self.account_gas_limit@)
    }

    /// Every pending height lies inside the window above the confirmed one.
    pub proof fn lemma_window_bound(&self)
        requires
            self.wf(),
        ensures
            forall|h: u64| #[trigger] self@.pending.contains_key(h) ==> in_window(h, self@.current),
    {
        self.buffer.lemma_window_bound();
    }

    /// A node whose chain is confirmed up to `current_height`.
    pub fn new(current_height: u64) -> (r: Self)
        ensures
            r.wf(),
            r@ == (ChainView {
                current: current_height,
                pending: Map::empty(),
                max: current_height,
                syncing: false,
                current_proof: None,
            }),
            r.gas_limits() == (0u64, Seq::<u8>::empty()),
    {
        ChainState {
            buffer: ReconciliationBuffer::new(current_height),
            max_height: current_height,
            is_syncing: false,
            current_proof: None,
            block_gas_limit: 0,
            account_gas_limit: Vec::new(),
        }
    }

    pub fn get_current_height(&self) -> (r: u64)
        ensures
            r == self@.current,
    {
        self.buffer.current_height()
    }

    pub fn get_max_height(&self) -> (r: u64)
        ensures
            r == self@.max,
    {
        self.max_height
    }

    pub fn is_syncing(&self) -> (r: bool)
        ensures
            r == self@.syncing,
    {
        self.is_syncing
    }

    /// The entry buffered for `h`, if any.
    pub fn pending(&self, h: u64) -> (r: Option<&PendingEntry>)
        requires
            self.wf(),
        ensures
            r is Some <==> self@.pending.contains_key(h),
            r matches Some(e) ==> e@ == self@.pending[h],
    {
        self.buffer.get(h)
    }

    /// The proof of the confirmed height, once known.
    pub fn current_proof(&self) -> (r: Option<&Vec<u8>>)
        ensures
            r is Some <==> self@.current_proof is Some,
            r matches Some(p) ==> self@.current_proof == Some(p@),
    {
        self.current_proof.as_ref()
    }

    /// The chain has confirmed height `h`: the window moves up to it, and the
    /// proof buffered for `h` becomes the confirmed height's proof.
    pub fn confirm(&mut self, h: u64)
        requires
            old(self).wf(),
        ensures
            final(self).wf(),
            final(self)@ == confirmed(old(self)@, h),
            final(self).gas_limits() == old(self).gas_limits(),
            forall|k: u64| #[trigger] final(self)@.pending.contains_key(k) ==> k > h,
    {
        let cur = self.buffer.current_height();
        let proof = self.buffer.confirm(h);
        if h > cur {
            self.current_proof = proof;
        }
    }

    fn attach(&mut self, t: u64, proof: Vec<u8>) -> (r: bool)
        requires
            old(self).wf(),
        ensures
            final(self).wf(),
            final(self)@ == proof_arrived(old(self)@, t, proof@),
            final(self).gas_limits() == old(self).gas_limits(),
            r == proof_lands(old(self)@, t),
    {
        if t == self.buffer.current_height() {
            self.current_proof = Some(proof);
            true
        } else {
            self.buffer.attach_proof(t, proof)
        }
    }

    /// A block for `h` arrived with its proof; returns the height to wake
    /// when the entry was promoted.
    pub fn on_block_with_proof(&mut self, h: u64, proof: Vec<u8>, block: Vec<u8>) -> (r: Option<u64>)
        requires
            old(self).wf(),
        ensures
            final(self).wf(),
            final(self)@ == with_proof_block(old(self)@, h, proof@, block@),
            final(self).gas_limits() == old(self).gas_limits(),
            r == (if body_accepted(old(self)@.pending, old(self)@.current, h) {
                Some(h)
            } else {
                None
            }),
    {
        if self.buffer.admit_proof_block(h, proof, block) {
            Some(h)
        } else {
            None
        }
    }

    /// A block arrived (see [`MsgClass::Block`]); returns the height to wake
    /// when its proof landed.
    pub fn on_block(
        &mut self,
        h: u64,
        hash_ok: bool,
        proof_height: Option<u64>,
        proof: Vec<u8>,
        block: Vec<u8>,
    ) -> (r: Option<u64>)
        requires
            old(self).wf(),
        ensures
            final(self).wf(),
            final(self)@ == block_arrived(old(self)@, h, hash_ok, proof_height, proof@, block@),
            final(self).gas_limits() == old(self).gas_limits(),
            r == block_wakes(old(self)@, h, hash_ok, proof_height, block@),
    {
        if h == PROOF_ONLY_HEIGHT {
            return match proof_height {
                Some(t) => if self.attach(t, proof) {
                    Some(t)
                } else {
                    None
                },
                None => None,
            };
        }
        let cur = self.buffer.current_height();
        if !hash_ok || h <= cur || h - cur >= crate::buffer::WINDOW {
            return None;
        }
        self.buffer.admit_block(h, block);
        match proof_height {
            Some(t) => if self.attach(t, proof) {
                Some(t)
            } else {
                None
            },
            None => None,
        }
    }

    /// A peer at `origin` announced height `advertised`; returns the sync
    /// requests of the wave this starts, addressed to that peer.
    pub fn on_status(&mut self, origin: u32, advertised: u64) -> (r: Vec<Outgoing>)
        requires
            old(self).wf(),
        ensures
            final(self).wf(),
            final(self)@ == status_seen(old(self)@, advertised),
            final(self).gas_limits() == old(self).gas_limits(),
            r@.len() == wave_heights(old(self)@.current, final(self)@.max, old(self)@.syncing).len(),
            forall|i: int|
                0 <= i < r@.len() ==> is_sync_request(
                    #[trigger] r@[i],
                    origin,
                    wave_heights(old(self)@.current, final(self)@.max, old(self)@.syncing)[i],
                ),
            r@.len() <= SYNC_BATCH,
            forall|i: int|
                0 <= i < r@.len() ==> old(self)@.current < wave_heights(
                    old(self)@.current,
                    final(self)@.max,
                    old(self)@.syncing,
                )[i],
    {
        if advertised > self.max_height {
            self.max_height = advertised;
        }
        let cur = self.buffer.current_height();
        let mut out: Vec<Outgoing> = Vec::new();
        if !self.is_syncing {
            let heights = sync_heights(cur, self.max_height);
            let mut i: usize = 0;
            while i < heights.len()
                invariant
                    i <= heights@.len(),
                    out@.len() == i,
                    forall|j: int| 0 <= j < i ==> is_sync_request(#[trigger] out@[j], origin, heights@[j]),
                decreases heights@.len() - i,
            {
                out.push(Outgoing::SyncRequest { origin, payload: encode_sync_request(heights[i]) });
                i = i + 1;
            }
            self.is_syncing = heights.len() > 0;
        } else {
            self.is_syncing = false;
        }
        out
    }

    /// Answers a peer's sync request for `height` from the confirmed block
    /// `stored` found there: the block itself, and for the confirmed height
    /// its proof as well, when known.
    pub fn serve_block(&self, origin: u32, height: u64, stored: Option<Vec<u8>>) -> (r: Vec<Outgoing>)
        ensures
            stored is None ==> r@.len() == 0,
            stored matches Some(b) ==> {
                &&& r@.len() == (if height == self@.current && self@.current_proof is Some {
                    2int
                } else {
                    1int
                })
                &&& r@[0] == (Outgoing::BlockRelay { origin, block: b })
                &&& r@.len() == 2 ==> (r@[1] matches Outgoing::ProofRelay { origin: to, proof }
                    && to == origin && Some(proof@) == self@.current_proof)
            },
    {
        let mut out: Vec<Outgoing> = Vec::new();
        match stored {
            Some(b) => {
                out.push(Outgoing::BlockRelay { origin, block: b });
                if height == self.buffer.current_height() {
                    match &self.current_proof {
                        Some(p) => {
                            out.push(Outgoing::ProofRelay { origin, proof: copy_bytes(p) });
                        },
                        None => {},
                    }
                }
            },
            None => {},
        }
        out
    }

    /// Answers a request for the transaction hashes at `height` with those
    /// found in the confirmed chain, and the current gas limits.
    pub fn serve_tx_hashes(&self, height: u64, tx_hashes: Option<Vec<Vec<u8>>>) -> (r: Option<Outgoing>)
        ensures
            r is Some <==> tx_hashes is Some,
            tx_hashes matches Some(hs) ==> (r matches Some(Outgoing::TxHashes { height: h, tx_hashes: rh, block_gas_limit, account_gas_limit })
                && h == height && rh == hs
                && (block_gas_limit, account_gas_limit@) == self.gas_limits()),
    {
        match tx_hashes {
            Some(hs) => Some(Outgoing::TxHashes {
                height,
                tx_hashes: hs,
                block_gas_limit: self.block_gas_limit,
                account_gas_limit: copy_bytes(&self.account_gas_limit),
            }),
            None => None,
        }
    }

    /// Sets the gas limits that transaction-hash responses carry.
    pub fn set_gas_limits(&mut self, block_gas_limit: u64, account_gas_limit: Vec<u8>)
        ensures
            final(self)@ == old(self)@,
            final(self).wf() == old(self).wf(),
            final(self).gas_limits() == (block_gas_limit, account_gas_limit@),
    {
        self.block_gas_limit = block_gas_limit;
        self.account_gas_limit = account_gas_limit;
    }
}

} // verus!
