//! Messages between a controller and its green systems: packets that carry
//! a message with an id, and whether a packet stands alone, asks, or answers.
use vstd::prelude::*;
use crate::subsys::{Failure, StatusChange, StatusRequest, StatusResponse};

verus! {

/// An order from the controller.
#[derive(Debug, Clone, Copy, PartialEq, Eq)]
pub enum Control {
    Drain,
    Drop,
    Refresh,
    Restart,
    /// Resume accepting new work and/or new connections.
    Resume,
    /// Shut down.
    Stop { halt: bool },
}

/// An order, sent to a system.
#[derive(Debug, Clone, Copy, PartialEq, Eq)]
pub struct ControlRequest {
    pub control: Control,
}

/// How an order went.
#[derive(Debug, Clone, Copy, PartialEq, Eq)]
pub struct ControlResponse {
    pub result: Result<(), Failure>,
}

/// The id of a message.
pub type MsgID = u64;

/// Whether a packet stands alone, asks, or answers the packet of an id.
#[derive(Debug, Clone, Copy, PartialEq, Eq)]
pub enum PacketNature {
    Singular,
    Request,
    Response(MsgID),
}

impl PacketNature {
    pub fn response(to: MsgID) -> (r: Self)
        ensures
            r == PacketNature::Response(to),
    {
        PacketNature::Response(to)
    }
}

/// The id after `id`: one more, wrapping to 0 after the largest.
pub open spec fn spec_after(id: MsgID) -> MsgID {
    if id == u64::MAX {
        0
    } else {
        (id + 1) as u64
    }
}

/// The id `k` steps after `id`.
pub open spec fn spec_nth_after(id: MsgID, k: nat) -> MsgID
    decreases k,
{
    if k == 0 {
        id
    } else {
        spec_after(spec_nth_after(id, (k - 1) as nat))
    }
}

proof fn lemma_nth_after(id: MsgID, k: nat)
    ensures
        spec_nth_after(id, k) == (id + k) % 0x1_0000_0000_0000_0000,
    decreases k,
{
    if k > 0 {
        lemma_nth_after(id, (k - 1) as nat);
        let x: int = id + k - 1;
        assert(((x % 0x1_0000_0000_0000_0000) + 1 == 0x1_0000_0000_0000_0000 ==> (x + 1)
            % 0x1_0000_0000_0000_0000 == 0) && ((x % 0x1_0000_0000_0000_0000) + 1
            < 0x1_0000_0000_0000_0000 ==> (x + 1) % 0x1_0000_0000_0000_0000 == (x
            % 0x1_0000_0000_0000_0000) + 1)) by (nonlinear_arith)
            requires
                x >= 0,
        ;
    }
}

/// The ids that a source hands out one after another are all different,
/// for as many as there are ids: the `j`-th and the `k`-th after the same
/// start differ.
pub proof fn law_ids_are_distinct(id: MsgID, j: nat, k: nat)
    requires
        j < k < 0x1_0000_0000_0000_0000,
    ensures
        spec_nth_after(id, j) != spec_nth_after(id, k),
{
    lemma_nth_after(id, j);
    lemma_nth_after(id, k);
    let a: int = id + j;
    let b: int = id + k;
    assert(a % 0x1_0000_0000_0000_0000 != b % 0x1_0000_0000_0000_0000) by (nonlinear_arith)
        requires
            0 <= a < b,
            b - a < 0x1_0000_0000_0000_0000,
    ;
}

/// Hands out message ids, counting up from 1. It remembers, as ghost
/// state, the ids it has handed out and whether it has counted past the
/// largest id.
pub struct MsgIdSource {
    next: u64,
    issued: Ghost<Set<MsgID>>,
    wrapped: Ghost<bool>,
}

impl MsgIdSource {
    #[verifier::type_invariant]
    spec fn inv(&self) -> bool {
        !self.wrapped@ ==> (self.next >= 1 && forall|i: MsgID| self.issued@.contains(i) ==> i < self.next)
    }

    /// The id that the source hands out next.
    pub closed spec fn spec_next(&self) -> MsgID {
        self.next
    }

    /// The ids the source has handed out.
    pub closed spec fn spec_issued(&self) -> Set<MsgID> {
        self.issued@
    }

    /// Whether the source has handed out the largest id and started over.
    pub closed spec fn spec_wrapped(&self) -> bool {
        self.wrapped@
    }

    /// A source whose first id is 1, that has handed out none.
    pub fn new() -> (r: Self)
        ensures
            r.spec_next() == 1,
            r.spec_issued() == Set::<MsgID>::empty(),
            !r.spec_wrapped(),
    {
        MsgIdSource { next: 1, issued: Ghost(Set::empty()), wrapped: Ghost(false) }
    }

    /// The next id: above every id handed out before, unless the source
    /// has counted past the largest id.
    pub fn next_id(&mut self) -> (id: MsgID)
        ensures
            id == old(self).spec_next(),
            final(self).spec_next() == spec_after(id),
            final(self).spec_issued() == old(self).spec_issued().insert(id),
            final(self).spec_wrapped() == (old(self).spec_wrapped() || id == u64::MAX),
            !old(self).spec_wrapped() ==> forall|i: MsgID| old(self).spec_issued().contains(i) ==> i < id,
    {
        proof {
            use_type_invariant(&*self);
        }
        let id = self.next;
        let ghost issued = self.issued@.insert(id);
        let ghost wrapped = self.wrapped@ || id == u64::MAX;
        let next = if id == u64::MAX {
            0
        } else {
            id + 1
        };
        *self = MsgIdSource { next, issued: Ghost(issued), wrapped: Ghost(wrapped) };
        id
    }
}

/// A message with its id and nature.
#[derive(Debug, Clone, Copy, PartialEq, Eq)]
pub struct Packet<T> {
    pub id: MsgID,
    pub nature: PacketNature,
    pub msg: T,
}

impl<T> Packet<T> {
    pub fn new(id: MsgID, nature: PacketNature, msg: T) -> (r: Self)
        ensures
            r.id == id,
            r.nature == nature,
            r.msg == msg,
    {
        Packet { id, nature, msg }
    }

    /// A packet that stands alone, with a fresh id.
    pub fn singular(ids: &mut MsgIdSource, msg: T) -> (r: Self)
        ensures
            r.id == old(ids).spec_next(),
            final(ids).spec_next() == spec_after(r.id),
            final(ids).spec_issued() == old(ids).spec_issued().insert(r.id),
            final(ids).spec_wrapped() == (old(ids).spec_wrapped() || r.id == u64::MAX),
            !old(ids).spec_wrapped() ==> forall|i: MsgID| old(ids).spec_issued().contains(i) ==> i < r.id,
            r.nature is Singular,
            r.msg == msg,
    {
        Packet { id: ids.next_id(), nature: PacketNature::Singular, msg }
    }

    /// A packet that asks, with a fresh id.
    pub fn request(ids: &mut MsgIdSource, msg: T) -> (r: Self)
        ensures
            r.id == old(ids).spec_next(),
            final(ids).spec_next() == spec_after(r.id),
            final(ids).spec_issued() == old(ids).spec_issued().insert(r.id),
            final(ids).spec_wrapped() == (old(ids).spec_wrapped() || r.id == u64::MAX),
            !old(ids).spec_wrapped() ==> forall|i: MsgID| old(ids).spec_issued().contains(i) ==> i < r.id,
            r.nature is Request,
            r.msg == msg,
    {
        Packet { id: ids.next_id(), nature: PacketNature::Request, msg }
    }

    /// A packet that answers the packet `to`, with a fresh id.
    pub fn response(ids: &mut MsgIdSource, to: MsgID, msg: T) -> (r: Self)
        ensures
            r.id == old(ids).spec_next(),
            final(ids).spec_next() == spec_after(r.id),
            final(ids).spec_issued() == old(ids).spec_issued().insert(r.id),
            final(ids).spec_wrapped() == (old(ids).spec_wrapped() || r.id == u64::MAX),
            !old(ids).spec_wrapped() ==> forall|i: MsgID| old(ids).spec_issued().contains(i) ==> i < r.id,
            r.nature == PacketNature::Response(to),
            r.msg == msg,
    {
        Packet { id: ids.next_id(), nature: PacketNature::response(to), msg }
    }

    /// A packet that answers this one, with a fresh id.
    pub fn respond<U>(&self, ids: &mut MsgIdSource, msg: U) -> (r: Packet<U>)
        ensures
            r.id == old(ids).spec_next(),
            final(ids).spec_next() == spec_after(r.id),
            final(ids).spec_issued() == old(ids).spec_issued().insert(r.id),
            final(ids).spec_wrapped() == (old(ids).spec_wrapped() || r.id == u64::MAX),
            !old(ids).spec_wrapped() ==> forall|i: MsgID| old(ids).spec_issued().contains(i) ==> i < r.id,
            r.nature == PacketNature::Response(self.id),
            r.msg == msg,
    {
        Packet { id: ids.next_id(), nature: PacketNature::response(self.id), msg }
    }

    pub fn id(&self) -> (r: MsgID)
        ensures
            r == self.id,
    {
        self.id
    }

    pub fn msg(&self) -> (r: &T)
        ensures
            *r == self.msg,
    {
        &self.msg
    }

    pub fn is_singular(&self) -> (b: bool)
        ensures
            b == (self.nature is Singular),
    {
        matches!(self.nature, PacketNature::Singular)
    }

    pub fn is_request(&self) -> (b: bool)
        ensures
            b == (self.nature is Request),
    {
        matches!(self.nature, PacketNature::Request)
    }

    pub fn is_response(&self) -> (b: bool)
        ensures
            b == (self.nature is Response),
    {
        matches!(self.nature, PacketNature::Response(_))
    }

    pub fn into_tuple(self) -> (r: (MsgID, PacketNature, T))
        ensures
            r == (self.id, self.nature, self.msg),
    {
        let Packet { id, nature, msg } = self;
        (id, nature, msg)
    }
}

/// What a green system sends its controller.
#[derive(Debug, Clone, Copy, PartialEq, Eq)]
pub enum FromGreenSys {
    ControlResponse(Packet<ControlResponse>),
    StatusChange(Packet<StatusChange>),
    StatusResponse(Packet<StatusResponse>),
}

/// What a controller sends a green system.
#[derive(Debug, Clone, Copy, PartialEq, Eq)]
pub enum ToGreenSys {
    ControlRequest(Packet<ControlRequest>),
    StatusRequest(Packet<StatusRequest>),
}

/// A message to a system: its own packets, or the controller's.
#[derive(Debug, Clone, Copy, PartialEq, Eq)]
pub enum MsgToSys<T> {
    Envelope,
    Packet(Packet<T>),
    Green(ToGreenSys),
}

/// A message from a system: its own packets, or those for the controller.
#[derive(Debug, Clone, Copy, PartialEq, Eq)]
pub enum MsgFromSys<T> {
    Envelope,
    Packet(Packet<T>),
    Green(FromGreenSys),
}

} // verus!
