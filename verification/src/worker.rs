use vstd::prelude::*;
use crate::key::Key;

verus! {

/// The two asymmetric participants in a two-party entangled-pair exchange.
/// The responder (server side) receives remotely created pair halves; the
/// initiator (client side) requests their creation, addressed to the
/// responder's endpoint.
#[derive(Clone, Copy, Debug, PartialEq, Eq, Structural)]
pub enum Role {
    Responder,
    Initiator,
}

/// Fixed identity of the counterparty's quantum-transport endpoint: remote
/// application identifier, remote node address, remote port. Constant for the
/// lifetime of a run.
#[derive(Clone, Copy, Debug, PartialEq, Eq, Structural)]
pub struct PeerDescriptor {
    pub remote_app_id: u16,
    pub remote_node: u32,
    pub remote_port: u16,
}

/// The responder's endpoint identity as configured for this deployment:
/// application 10 on the IPv4 loopback node, port 8004. Used by the initiator
/// to address pair-creation requests.
pub fn server_hdr() -> (peer: PeerDescriptor)
    ensures
        peer == (PeerDescriptor { remote_app_id: 10u16, remote_node: 0x7f00_0001u32, remote_port: 8004u16 }),
{
    PeerDescriptor { remote_app_id: 10, remote_node: 0x7f00_0001, remote_port: 8004 }
}

/// The worker variant the launcher runs for a configured session: a server
/// configuration runs the responder, a client configuration the initiator.
pub fn role_for(is_server: bool) -> (role: Role)
    ensures
        role == (if is_server { Role::Responder } else { Role::Initiator }),
{
    if is_server {
        Role::Responder
    } else {
        Role::Initiator
    }
}

/// The next operation a worker needs from the quantum transport. The `options`
/// flag is the transport's own configuration toggle, opaque to this crate and
/// passed through unchanged.
#[derive(Clone, Copy, Debug, PartialEq, Eq, Structural)]
pub enum TransportAction {
    /// Wait for a remotely created half of an entangled pair, then measure it
    /// (responder side).
    AwaitPair { options: bool },
    /// Request creation of an entangled pair addressed to `peer`, then measure
    /// the locally held half (initiator side).
    RequestPair { peer: PeerDescriptor, options: bool },
    /// Every round is done: deliver the finished key and stop.
    Deliver,
}

/// A role worker mid-run: the partially assembled key together with the number
/// of exchange-and-measure rounds already completed. Rounds run strictly in
/// increasing index order; round `i` produces byte `i`.
pub struct Worker {
    pub role: Role,
    pub peer: PeerDescriptor,
    pub options: bool,
    pub key: Key,
    pub filled: usize,
}

impl Worker {
    /// Rounds completed never exceed the key length, and every byte whose
    /// round has not yet run still holds its initial zero.
    pub open spec fn wf(&self) -> bool {
        &&& self.filled <= self.key@.len()
        &&& forall|i: int| self.filled <= i < self.key@.len() ==> self.key@[i] == 0u8
    }

    /// The target key length, fixed when the worker is created.
    pub open spec fn key_length(&self) -> nat {
        self.key@.len()
    }

    /// All rounds have run; the key is fully assembled.
    pub open spec fn complete(&self) -> bool {
        self.filled == self.key@.len()
    }

    /// The outcome bytes recorded so far, in round order.
    pub open spec fn produced(&self) -> Seq<u8> {
        self.key@.take(self.filled as int)
    }

    /// A fresh worker in its initialized state: a zero-filled key of the
    /// target length and no rounds run. A zero-length request is complete
    /// immediately, before any transport call.
    pub fn new(role: Role, peer: PeerDescriptor, options: bool, key_length: usize) -> (w: Worker)
        ensures
            w.wf(),
            w.role == role,
            w.peer == peer,
            w.options == options,
            w.key_length() == key_length,
            w.filled == 0,
            w.produced() == Seq::<u8>::empty(),
            w.complete() <==> key_length == 0,
    {
        let w = Worker { role, peer, options, key: Key::from(key_length), filled: 0 };
        assert(w.produced() =~= Seq::<u8>::empty());
        w
    }

    /// What the transport must do next: one more pair exchange (received or
    /// created, by role) followed by a measurement while rounds remain, and
    /// delivery of the key once none do.
    pub fn next_action(&self) -> (action: TransportAction)
        requires
            self.wf(),
        ensures
            self.complete() ==> action == TransportAction::Deliver,
            !self.complete() && self.role == Role::Responder
                ==> action == (TransportAction::AwaitPair { options: self.options }),
            !self.complete() && self.role == Role::Initiator
                ==> action == (TransportAction::RequestPair { peer: self.peer, options: self.options }),
    {
        if self.filled == self.key.len() {
            TransportAction::Deliver
        } else {
            match self.role {
                Role::Responder => TransportAction::AwaitPair { options: self.options },
                Role::Initiator => TransportAction::RequestPair { peer: self.peer, options: self.options },
            }
        }
    }

    /// One protocol round: the measurement outcome becomes the next key byte.
    /// Only the byte of the current round changes, so outcomes land in the key
    /// in exactly the order the rounds ran.
    pub fn record_outcome(&mut self, outcome: u8)
        requires
            old(self).wf(),
            !old(self).complete(),
        ensures
            final(self).wf(),
            final(self).role == old(self).role,
            final(self).peer == old(self).peer,
            final(self).options == old(self).options,
            final(self).key_length() == old(self).key_length(),
            final(self).filled == old(self).filled + 1,
            final(self).key@ == old(self).key@.update(old(self).filled as int, outcome),
            final(self).produced() == old(self).produced().push(outcome),
    {
        let i = self.filled;
        let length = self.key.value.len();
        assert(i < length);
        self.key.value[i] = outcome;
        self.filled = i + 1;
        assert(self.produced() =~= old(self).produced().push(outcome));
    }

    /// Consumes a completed worker, yielding sole ownership of the finished
    /// key: the worker is gone and cannot observe or change the key again.
    pub fn into_key(self) -> (k: Key)
        requires
            self.complete(),
        ensures
            k@ == self.produced(),
            k@.len() == self.key_length(),
    {
        proof {
            assert(self.key@.take(self.filled as int) =~= self.key@);
        }
        self.key
    }
}

/// A zero-filled byte sequence of the given length: a key as constructed,
/// before any round has run.
pub open spec fn zero_key(length: nat) -> Seq<u8> {
    Seq::new(length, |i: int| 0u8)
}

/// The key bytes left after recording the outcome bits `bits`, one round per
/// bit, into `key` starting at round `filled`.
pub open spec fn rounds_spec(key: Seq<u8>, filled: nat, bits: Seq<u8>) -> Seq<u8>
    decreases bits.len(),
{
    if bits.len() == 0 {
        key
    } else {
        rounds_spec(key.update(filled as int, bits[0]), filled + 1, bits.skip(1))
    }
}

/// The key one full run of `role` assembles when the transport's measurements
/// yield the outcome bits `bits`, one per round: each round's outcome recorded
/// into an initially zero key of matching length. The two role variants differ
/// only in the transport primitive that establishes a pair, never in how
/// outcomes become key bytes.
pub open spec fn run_result(role: Role, bits: Seq<u8>) -> Seq<u8> {
    match role {
        Role::Responder => rounds_spec(zero_key(bits.len()), 0, bits),
        Role::Initiator => rounds_spec(zero_key(bits.len()), 0, bits),
    }
}

proof fn lemma_rounds_spec_elems(key: Seq<u8>, filled: nat, bits: Seq<u8>)
    requires
        filled + bits.len() <= key.len(),
    ensures
        rounds_spec(key, filled, bits).len() == key.len(),
        forall|i: int|
            0 <= i < key.len() ==> rounds_spec(key, filled, bits)[i] == (if filled <= i
                < filled + bits.len() {
                bits[i - filled]
            } else {
                key[i]
            }),
    decreases bits.len(),
{
    if bits.len() > 0 {
        lemma_rounds_spec_elems(key.update(filled as int, bits[0]), filled + 1, bits.skip(1));
    }
}

/// Round-order determinism: a full run over the outcome bits `bits` yields
/// exactly `bits` — byte `i` is round `i`'s outcome, with no reordering and no
/// skipping — whichever role ran. In particular the completed key has exactly
/// as many bytes as there were rounds.
pub proof fn lemma_round_order_determinism(role: Role, bits: Seq<u8>)
    ensures
        run_result(role, bits) == bits,
{
    lemma_rounds_spec_elems(zero_key(bits.len()), 0, bits);
    assert(run_result(role, bits) =~= bits);
}

/// Role symmetry: when a loopback transport hands both sides the same outcome
/// bit at matching round indices, a responder run and an initiator run
/// assemble identical keys.
pub proof fn lemma_role_symmetry(bits: Seq<u8>)
    ensures
        run_result(Role::Responder, bits) == run_result(Role::Initiator, bits),
{
    lemma_round_order_determinism(Role::Responder, bits);
    lemma_round_order_determinism(Role::Initiator, bits);
}

/// Runs every round of a fresh worker of the given role — one round per
/// requested key byte, recording the transport's measurement outcomes in round
/// order — and returns the finished key: exactly `key_length` bytes, byte `i`
/// the outcome of round `i`.
pub fn run_rounds(
    role: Role,
    peer: PeerDescriptor,
    options: bool,
    key_length: usize,
    outcomes: &Vec<u8>,
) -> (k: Key)
    requires
        outcomes@.len() == key_length,
    ensures
        k@.len() == key_length,
        k@ == outcomes@,
        k@ == run_result(role, outcomes@),
{
    let mut w = Worker::new(role, peer, options, key_length);
    let mut i: usize = 0;
    while i < outcomes.len()
        invariant
            w.wf(),
            w.role == role,
            w.filled == i,
            i <= outcomes@.len(),
            w.key_length() == outcomes@.len(),
            w.produced() == outcomes@.take(i as int),
        decreases outcomes@.len() - i,
    {
        w.record_outcome(outcomes[i]);
        i += 1;
        assert(w.produced() =~= outcomes@.take(i as int));
    }
    proof {
        assert(outcomes@.take(outcomes@.len() as int) =~= outcomes@);
        lemma_round_order_determinism(role, outcomes@);
    }
    w.into_key()
}

} // verus!
