//! What holds of an event together with all of its tickets, whatever
//! operations are applied and in whatever order.

use vstd::prelude::*;
use crate::accumulator::pending_path;
use crate::errors::ErrorCode;
use crate::event::counters_valid;
use crate::event::initialize_outcome;
use crate::event::set_active_outcome;
use crate::event::EventView;
use crate::ticket::claim_outcome;
use crate::ticket::claim_refusal;
use crate::ticket::issue_outcome;
use crate::ticket::ticket_valid;
use crate::ticket::QRCodeView;
use crate::token::claim_verifies;
use crate::token::TokenDataView;
use crate::token::MERKLE_TREE_HEIGHT;

verus! {

/// How many of `tickets` have been redeemed.
pub open spec fn count_claimed(tickets: Seq<QRCodeView>) -> nat
    decreases tickets.len(),
{
    if tickets.len() == 0 {
        0
    } else {
        count_claimed(tickets.drop_last()) + if tickets.last().is_claimed {
            1nat
        } else {
            0nat
        }
    }
}

/// The event `e` and `tickets`, all the tickets it ever issued, agree: every
/// ticket is a valid ticket of the event, the event has issued as many as
/// there are, and the number it counts as claimed is the number of redeemed
/// tickets and the number of leaves in its accumulator.
pub open spec fn consistent(e: EventView, tickets: Seq<QRCodeView>) -> bool {
    &&& counters_valid(e)
    &&& e.issued_count == tickets.len()
    &&& e.claimed_count == count_claimed(tickets)
    &&& e.claimed_count == e.tree.leaf_count
    &&& forall|i: int|
        0 <= i < tickets.len() ==> (#[trigger] tickets[i]).event == e.id && ticket_valid(
            tickets[i],
        )
}

/// No more tickets are redeemed than there are.
pub proof fn lemma_count_bounded(tickets: Seq<QRCodeView>)
    ensures
        count_claimed(tickets) <= tickets.len(),
    decreases tickets.len(),
{
    if tickets.len() > 0 {
        lemma_count_bounded(tickets.drop_last());
    }
}

/// While one ticket is unredeemed, fewer are redeemed than there are.
pub proof fn lemma_count_below(tickets: Seq<QRCodeView>, i: int)
    requires
        0 <= i < tickets.len(),
        !tickets[i].is_claimed,
    ensures
        count_claimed(tickets) < tickets.len(),
    decreases tickets.len(),
{
    if i == tickets.len() - 1 {
        lemma_count_bounded(tickets.drop_last());
    } else {
        lemma_count_below(tickets.drop_last(), i);
    }
}

/// Redeeming one unredeemed ticket raises the number of redeemed ones by one.
pub proof fn lemma_count_redeemed(tickets: Seq<QRCodeView>, i: int, t: QRCodeView)
    requires
        0 <= i < tickets.len(),
        !tickets[i].is_claimed,
        t.is_claimed,
    ensures
        count_claimed(tickets.update(i, t)) == count_claimed(tickets) + 1,
    decreases tickets.len(),
{
    let after = tickets.update(i, t);
    if i == tickets.len() - 1 {
        assert(after.drop_last() =~= tickets.drop_last());
    } else {
        assert(after.drop_last() =~= tickets.drop_last().update(i, t));
        lemma_count_redeemed(tickets.drop_last(), i, t);
    }
}

/// A new event agrees with the empty list of tickets.
pub proof fn new_event_is_consistent(
    id: Seq<u8>,
    creator: Seq<u8>,
    max_supply: nat,
    e: EventView,
)
    requires
        initialize_outcome(id, creator, max_supply) == Ok::<EventView, ErrorCode>(e),
    ensures
        consistent(e, Seq::<QRCodeView>::empty()),
{
}

/// Issuing keeps the agreement, with the new ticket added to the list.
pub proof fn issue_keeps_consistency(
    e: EventView,
    tickets: Seq<QRCodeView>,
    qr_code_id: Seq<char>,
    secret_key: Seq<u8>,
    expiration_time: int,
    after: EventView,
    ticket: QRCodeView,
)
    requires
        consistent(e, tickets),
        issue_outcome(e, qr_code_id, secret_key, expiration_time) == Ok::<
            (EventView, QRCodeView),
            ErrorCode,
        >((after, ticket)),
    ensures
        consistent(after, tickets.push(ticket)),
{
    assert(tickets.push(ticket).drop_last() =~= tickets);
}

/// Redeeming keeps the agreement, with the redeemed ticket in the place of
/// the one that was presented.
pub proof fn claim_keeps_consistency(
    e: EventView,
    tickets: Seq<QRCodeView>,
    i: int,
    secret: Seq<u8>,
    claimer: Seq<u8>,
    now: int,
    after: EventView,
    ticket: QRCodeView,
    record: TokenDataView,
)
    requires
        consistent(e, tickets),
        0 <= i < tickets.len(),
        claim_outcome(e, tickets[i], secret, claimer, now) == Ok::<
            (EventView, QRCodeView, TokenDataView),
            ErrorCode,
        >((after, ticket, record)),
    ensures
        consistent(after, tickets.update(i, ticket)),
{
    lemma_count_redeemed(tickets, i, ticket);
}

/// Setting the active flag keeps the agreement.
pub proof fn set_active_keeps_consistency(
    e: EventView,
    tickets: Seq<QRCodeView>,
    authority: Seq<u8>,
    value: bool,
    after: EventView,
)
    requires
        consistent(e, tickets),
        set_active_outcome(e, authority, value) == Ok::<EventView, ErrorCode>(after),
    ensures
        consistent(after, tickets),
{
}

/// A ticket of the event's own list is never refused as not being one of its
/// tickets.
pub proof fn own_ticket_is_recognised(
    e: EventView,
    tickets: Seq<QRCodeView>,
    i: int,
    secret: Seq<u8>,
    now: int,
)
    requires
        consistent(e, tickets),
        0 <= i < tickets.len(),
    ensures
        claim_refusal(e, tickets[i], secret, now) != Some(ErrorCode::InvalidQRCode),
{
    if !tickets[i].is_claimed {
        lemma_count_below(tickets, i);
    }
}

/// A ticket is redeemed at most once: after a successful redemption the
/// ticket names the claimer and the time of that redemption, and every later
/// attempt on it, with whatever secret, claimer and time, against whatever
/// later state of its event, is refused; with `QRCodeAlreadyClaimed` while the
/// event is active.
pub proof fn second_redemption_is_refused(
    e: EventView,
    t: QRCodeView,
    secret: Seq<u8>,
    claimer: Seq<u8>,
    now: int,
    after: EventView,
    redeemed: QRCodeView,
    record: TokenDataView,
    later: EventView,
    secret2: Seq<u8>,
    claimer2: Seq<u8>,
    now2: int,
)
    requires
        claim_outcome(e, t, secret, claimer, now) == Ok::<
            (EventView, QRCodeView, TokenDataView),
            ErrorCode,
        >((after, redeemed, record)),
        later.id == e.id,
    ensures
        redeemed.claimer == Some(claimer),
        redeemed.claim_time == Some(now),
        claim_outcome(later, redeemed, secret2, claimer2, now2) is Err,
        later.is_active ==> claim_outcome(later, redeemed, secret2, claimer2, now2) == Err::<
            (EventView, QRCodeView, TokenDataView),
            ErrorCode,
        >(ErrorCode::QRCodeAlreadyClaimed),
{
}

/// An event that has issued all the tickets it may issues no more: the
/// attempt is refused, with `MaxSupplyReached` while the event is active.
pub proof fn issue_beyond_capacity_is_refused(
    e: EventView,
    qr_code_id: Seq<char>,
    secret_key: Seq<u8>,
    expiration_time: int,
)
    requires
        e.issued_count >= e.max_supply,
    ensures
        issue_outcome(e, qr_code_id, secret_key, expiration_time) is Err,
        e.is_active ==> issue_outcome(e, qr_code_id, secret_key, expiration_time) == Err::<
            (EventView, QRCodeView),
            ErrorCode,
        >(ErrorCode::MaxSupplyReached),
{
}

/// A redeemed claim can be verified: the record that a successful redemption
/// returns verifies, at the index one below its sequence number and along the
/// path that was pending in the event's accumulator, against the root that
/// the redemption returned.
pub proof fn redeemed_claim_verifies(
    e: EventView,
    t: QRCodeView,
    secret: Seq<u8>,
    claimer: Seq<u8>,
    now: int,
    after: EventView,
    redeemed: QRCodeView,
    record: TokenDataView,
)
    requires
        counters_valid(e),
        e.tree.height == MERKLE_TREE_HEIGHT,
        e.tree.frontier.len() == e.tree.height,
        claim_outcome(e, t, secret, claimer, now) == Ok::<
            (EventView, QRCodeView, TokenDataView),
            ErrorCode,
        >((after, redeemed, record)),
    ensures
        record.token_id == e.claimed_count + 1,
        claim_verifies(
            record,
            (record.token_id - 1) as nat,
            pending_path(e.tree),
            after.tree.root,
        ),
{
}

/// An event together with all the tickets it has issued, in the order of
/// their issue.
pub struct Ledger {
    pub event: EventView,
    pub tickets: Seq<QRCodeView>,
}

/// One operation on an event and its tickets.
pub enum Operation {
    /// Issue a ticket.
    Issue { qr_code_id: Seq<char>, secret_key: Seq<u8>, expiration_time: int },
    /// Redeem the ticket that was issued as number `ticket`, counted from 0.
    Claim { ticket: int, secret: Seq<u8>, claimer: Seq<u8>, now: int },
    /// Set the active flag.
    SetActive { authority: Seq<u8>, value: bool },
}

/// The ledger after `op`: what the operation's outcome says where it
/// succeeds, and the ledger as it was where it is refused.
pub open spec fn apply(l: Ledger, op: Operation) -> Ledger {
    match op {
        Operation::Issue { qr_code_id, secret_key, expiration_time } => match issue_outcome(
            l.event,
            qr_code_id,
            secret_key,
            expiration_time,
        ) {
            Ok((e, t)) => Ledger { event: e, tickets: l.tickets.push(t) },
            Err(_) => l,
        },
        Operation::Claim { ticket, secret, claimer, now } => if 0 <= ticket < l.tickets.len() {
            match claim_outcome(l.event, l.tickets[ticket], secret, claimer, now) {
                Ok((e, t, _)) => Ledger { event: e, tickets: l.tickets.update(ticket, t) },
                Err(_) => l,
            }
        } else {
            l
        },
        Operation::SetActive { authority, value } => match set_active_outcome(
            l.event,
            authority,
            value,
        ) {
            Ok(e) => Ledger { event: e, tickets: l.tickets },
            Err(_) => l,
        },
    }
}

/// The ledger after the operations `ops`, applied in order.
pub open spec fn run(l: Ledger, ops: Seq<Operation>) -> Ledger
    decreases ops.len(),
{
    if ops.len() == 0 {
        l
    } else {
        apply(run(l, ops.drop_last()), ops.last())
    }
}

/// Every operation keeps the agreement between an event and its tickets,
/// whether it succeeds or is refused.
pub proof fn operation_keeps_consistency(l: Ledger, op: Operation)
    requires
        consistent(l.event, l.tickets),
    ensures
        consistent(apply(l, op).event, apply(l, op).tickets),
{
    match op {
        Operation::Issue { qr_code_id, secret_key, expiration_time } => {
            match issue_outcome(l.event, qr_code_id, secret_key, expiration_time) {
                Ok((e, t)) => {
                    issue_keeps_consistency(
                        l.event,
                        l.tickets,
                        qr_code_id,
                        secret_key,
                        expiration_time,
                        e,
                        t,
                    );
                },
                Err(_) => {},
            }
        },
        Operation::Claim { ticket, secret, claimer, now } => {
            if 0 <= ticket < l.tickets.len() {
                match claim_outcome(l.event, l.tickets[ticket], secret, claimer, now) {
                    Ok((e, t, r)) => {
                        claim_keeps_consistency(
                            l.event,
                            l.tickets,
                            ticket,
                            secret,
                            claimer,
                            now,
                            e,
                            t,
                            r,
                        );
                    },
                    Err(_) => {},
                }
            }
        },
        Operation::SetActive { authority, value } => {},
    }
}

/// After any sequence of operations on an event, the number that the event
/// counts as claimed is the number of its redeemed tickets and the number of
/// leaves in its accumulator, and no more are claimed than issued, nor issued
/// than allowed.
pub proof fn every_run_is_consistent(l: Ledger, ops: Seq<Operation>)
    requires
        consistent(l.event, l.tickets),
    ensures
        consistent(run(l, ops).event, run(l, ops).tickets),
    decreases ops.len(),
{
    if ops.len() > 0 {
        every_run_is_consistent(l, ops.drop_last());
        operation_keeps_consistency(run(l, ops.drop_last()), ops.last());
    }
}

/// No operation takes a ticket away, changes a redeemed ticket, or changes
/// which event the ledger is about.
pub proof fn lemma_operation_keeps_redeemed(l: Ledger, op: Operation, i: int)
    requires
        0 <= i < l.tickets.len(),
        l.tickets[i].is_claimed,
    ensures
        apply(l, op).tickets.len() >= l.tickets.len(),
        apply(l, op).tickets[i] == l.tickets[i],
        apply(l, op).event.id == l.event.id,
{
}

/// Redemption is final: through any sequence of later operations a redeemed
/// ticket stays exactly as the successful redemption left it, with that
/// redemption's claimer and time, and every later attempt to redeem it is
/// refused.
pub proof fn redeemed_ticket_never_changes(l: Ledger, ops: Seq<Operation>, i: int)
    requires
        0 <= i < l.tickets.len(),
        l.tickets[i].is_claimed,
    ensures
        run(l, ops).tickets.len() >= l.tickets.len(),
        run(l, ops).tickets[i] == l.tickets[i],
        run(l, ops).event.id == l.event.id,
        forall|secret: Seq<u8>, claimer: Seq<u8>, now: int| #[trigger]
            claim_outcome(run(l, ops).event, run(l, ops).tickets[i], secret, claimer, now) is Err,
    decreases ops.len(),
{
    if ops.len() > 0 {
        redeemed_ticket_never_changes(l, ops.drop_last(), i);
        lemma_operation_keeps_redeemed(run(l, ops.drop_last()), ops.last(), i);
    }
}

} // verus!
