//! Events: who may change them, how many tickets they may issue, and the
//! accumulator that each event keeps of its claims.

use vstd::prelude::*;
use crate::accumulator::new_outcome;
use crate::accumulator::AccumulatorState;
use crate::accumulator::AccumulatorView;
use crate::digest::digest_eq;
use crate::errors::ErrorCode;
use crate::token::MERKLE_TREE_HEIGHT;

verus! {

/// One event.
#[derive(Debug, Clone, PartialEq, Eq)]
pub struct Event {
    /// Stable identifier of the event.
    pub id: [u8; 32],
    /// The principal that may change the event.
    pub creator: [u8; 32],
    /// The most tickets the event may issue.
    pub max_supply: u64,
    /// Tickets issued so far.
    pub issued_count: u64,
    /// Tickets redeemed so far.
    pub claimed_count: u64,
    /// Whether tickets may be issued and redeemed.
    pub is_active: bool,
    /// The accumulator of the event's claims.
    pub tree: AccumulatorState,
}

/// An event as contracts see it.
pub struct EventView {
    pub id: Seq<u8>,
    pub creator: Seq<u8>,
    pub max_supply: nat,
    pub issued_count: nat,
    pub claimed_count: nat,
    pub is_active: bool,
    pub tree: AccumulatorView,
}

impl View for Event {
    type V = EventView;

    open spec fn view(&self) -> EventView {
        EventView {
            id: self.id@,
            creator: self.creator@,
            max_supply: self.max_supply as nat,
            issued_count: self.issued_count as nat,
            claimed_count: self.claimed_count as nat,
            is_active: self.is_active,
            tree: self.tree@,
        }
    }
}

/// The counters of a valid event: at least one ticket may be issued, no more
/// are issued than allowed, no more are claimed than issued, and every claim
/// is a leaf of the event's accumulator.
pub open spec fn counters_valid(e: EventView) -> bool {
    &&& e.max_supply > 0
    &&& e.issued_count <= e.max_supply
    &&& e.claimed_count <= e.issued_count
    &&& e.claimed_count == e.tree.leaf_count
}

/// What creating an event does: refused with `InvalidMaxSupply` for a
/// capacity of zero, with `InvalidHashInput` where the hasher refuses the
/// empty-tree sentinel, and else an active event without tickets whose
/// accumulator is empty.
pub open spec fn initialize_outcome(id: Seq<u8>, creator: Seq<u8>, max_supply: nat) -> Result<
    EventView,
    ErrorCode,
> {
    if max_supply == 0 {
        Err(ErrorCode::InvalidMaxSupply)
    } else {
        match new_outcome(MERKLE_TREE_HEIGHT as nat) {
            Err(e) => Err(e),
            Ok(tree) => Ok(
                EventView {
                    id: id,
                    creator: creator,
                    max_supply: max_supply,
                    issued_count: 0,
                    claimed_count: 0,
                    is_active: true,
                    tree: tree,
                },
            ),
        }
    }
}

/// What setting the active flag does: refused with `UnauthorizedCreator`
/// unless `authority` is the event's creator, and else the event with the
/// flag set to `value` and nothing else changed.
pub open spec fn set_active_outcome(e: EventView, authority: Seq<u8>, value: bool) -> Result<
    EventView,
    ErrorCode,
> {
    if authority != e.creator {
        Err(ErrorCode::UnauthorizedCreator)
    } else {
        Ok(EventView { is_active: value, ..e })
    }
}

impl Event {
    /// Validity of an event: its counters are valid and its accumulator is a
    /// valid one of `MERKLE_TREE_HEIGHT`.
    pub open spec fn wf(&self) -> bool {
        &&& counters_valid(self@)
        &&& self.tree.wf()
        &&& self.tree.height == MERKLE_TREE_HEIGHT
    }

    /// Tests the validity of an event, such as one read back from storage.
    pub fn is_valid(&self) -> (ok: bool)
        ensures
            ok == self.wf(),
    {
        self.max_supply > 0 && self.issued_count <= self.max_supply && self.claimed_count
            <= self.issued_count && self.claimed_count == self.tree.leaf_count
            && self.tree.is_valid() && self.tree.height == MERKLE_TREE_HEIGHT
    }
}

/// Creates the event `id` of `creator`, which may issue `max_supply` tickets.
pub fn initialize_event(id: [u8; 32], creator: [u8; 32], max_supply: u64) -> (r: Result<
    Event,
    ErrorCode,
>)
    ensures
        match r {
            Ok(event) => event.wf() && initialize_outcome(id@, creator@, max_supply as nat) == Ok::<
                EventView,
                ErrorCode,
            >(event@),
            Err(e) => initialize_outcome(id@, creator@, max_supply as nat) == Err::<
                EventView,
                ErrorCode,
            >(e),
        },
{
    if max_supply == 0 {
        return Err(ErrorCode::InvalidMaxSupply);
    }
    match AccumulatorState::new(MERKLE_TREE_HEIGHT) {
        Err(e) => Err(e),
        Ok(tree) => Ok(
            Event {
                id,
                creator,
                max_supply,
                issued_count: 0,
                claimed_count: 0,
                is_active: true,
                tree,
            },
        ),
    }
}

/// Sets the active flag of `event` to `value` on behalf of `authority`.
pub fn set_active(event: &mut Event, authority: &[u8; 32], value: bool) -> (r: Result<
    (),
    ErrorCode,
>)
    requires
        old(event).wf(),
    ensures
        final(event).wf(),
        match r {
            Ok(_) => set_active_outcome(old(event)@, authority@, value) == Ok::<
                EventView,
                ErrorCode,
            >(final(event)@),
            Err(e) => {
                &&& set_active_outcome(old(event)@, authority@, value) == Err::<
                    EventView,
                    ErrorCode,
                >(e)
                &&& *final(event) == *old(event)
            },
        },
{
    if !digest_eq(authority, &event.creator) {
        return Err(ErrorCode::UnauthorizedCreator);
    }
    event.is_active = value;
    Ok(())
}

/// Stops `event` from issuing and redeeming tickets, on behalf of `creator`.
pub fn deactivate_event(event: &mut Event, creator: &[u8; 32]) -> (r: Result<(), ErrorCode>)
    requires
        old(event).wf(),
    ensures
        final(event).wf(),
        match r {
            Ok(_) => set_active_outcome(old(event)@, creator@, false) == Ok::<
                EventView,
                ErrorCode,
            >(final(event)@),
            Err(e) => {
                &&& set_active_outcome(old(event)@, creator@, false) == Err::<
                    EventView,
                    ErrorCode,
                >(e)
                &&& *final(event) == *old(event)
            },
        },
{
    set_active(event, creator, false)
}

/// Lets `event` issue and redeem tickets again, on behalf of `creator`.
pub fn reactivate_event(event: &mut Event, creator: &[u8; 32]) -> (r: Result<(), ErrorCode>)
    requires
        old(event).wf(),
    ensures
        final(event).wf(),
        match r {
            Ok(_) => set_active_outcome(old(event)@, creator@, true) == Ok::<
                EventView,
                ErrorCode,
            >(final(event)@),
            Err(e) => {
                &&& set_active_outcome(old(event)@, creator@, true) == Err::<EventView, ErrorCode>(
                    e,
                )
                &&& *final(event) == *old(event)
            },
        },
{
    set_active(event, creator, true)
}

} // verus!
