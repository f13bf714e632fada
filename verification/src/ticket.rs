//! Tickets: issued against an event's capacity, redeemed at most once, and
//! each redemption committed to the event's accumulator.

use vstd::prelude::*;
use crate::accumulator::append_outcome;
use crate::digest::digest_eq;
use crate::digest::digest_views;
use crate::digest::hash_bytes;
use crate::digest::sha256_outcome;
use crate::errors::ErrorCode;
use crate::event::Event;
use crate::event::EventView;
use crate::token::claim_verifies;
use crate::token::hash_token_data;
use crate::token::leaf_digest;
use crate::token::verify_claim;
use crate::token::TokenData;
use crate::token::TokenDataView;

verus! {

/// One ticket of an event.
#[derive(Debug, Clone, PartialEq, Eq)]
pub struct QRCode {
    /// The event that issued the ticket.
    pub event: [u8; 32],
    /// Identifier of the ticket.
    pub qr_code_id: String,
    /// Digest of the secret that the bearer holds.
    pub secret_key: [u8; 32],
    /// Whether the ticket has been redeemed.
    pub is_claimed: bool,
    /// After which time the ticket can no longer be redeemed; 0 for never.
    pub expiration_time: i64,
    /// Who redeemed the ticket, once it has been.
    pub claimer: Option<[u8; 32]>,
    /// When the ticket was redeemed, once it has been.
    pub claim_time: Option<i64>,
}

/// A ticket as contracts see it.
pub struct QRCodeView {
    pub event: Seq<u8>,
    pub qr_code_id: Seq<char>,
    pub secret_key: Seq<u8>,
    pub is_claimed: bool,
    pub expiration_time: int,
    pub claimer: Option<Seq<u8>>,
    pub claim_time: Option<int>,
}

impl View for QRCode {
    type V = QRCodeView;

    open spec fn view(&self) -> QRCodeView {
        QRCodeView {
            event: self.event@,
            qr_code_id: self.qr_code_id@,
            secret_key: self.secret_key@,
            is_claimed: self.is_claimed,
            expiration_time: self.expiration_time as int,
            claimer: match self.claimer {
                Some(c) => Some(c@),
                None => None,
            },
            claim_time: match self.claim_time {
                Some(t) => Some(t as int),
                None => None,
            },
        }
    }
}

/// Validity of a ticket: it names a claimer and a claim time exactly when it
/// has been redeemed.
pub open spec fn ticket_valid(t: QRCodeView) -> bool {
    &&& t.is_claimed <==> t.claimer is Some
    &&& t.is_claimed <==> t.claim_time is Some
}

/// What issuing a ticket does: refused with `EventInactive` while the event
/// is inactive, with `MaxSupplyReached` once the event has issued all it may,
/// and else one more ticket issued and the new, unredeemed ticket.
pub open spec fn issue_outcome(
    e: EventView,
    qr_code_id: Seq<char>,
    secret_key: Seq<u8>,
    expiration_time: int,
) -> Result<(EventView, QRCodeView), ErrorCode> {
    if !e.is_active {
        Err(ErrorCode::EventInactive)
    } else if e.issued_count >= e.max_supply {
        Err(ErrorCode::MaxSupplyReached)
    } else {
        Ok(
            (
                EventView { issued_count: e.issued_count + 1, ..e },
                QRCodeView {
                    event: e.id,
                    qr_code_id: qr_code_id,
                    secret_key: secret_key,
                    is_claimed: false,
                    expiration_time: expiration_time,
                    claimer: None,
                    claim_time: None,
                },
            ),
        )
    }
}

/// Whether a ticket that expires at `expiration_time` can no longer be
/// redeemed at `now`. Zero means that it never expires.
pub open spec fn expired(expiration_time: int, now: int) -> bool {
    expiration_time != 0 && now > expiration_time
}

/// The first reason, in this order, for which a redemption is refused before
/// anything is hashed into the accumulator: the ticket is of another event;
/// the event is inactive; the ticket is redeemed already; it has expired; the
/// secret cannot be hashed, or does not hash to the commitment; the event has
/// no unredeemed ticket left.
pub open spec fn claim_refusal(e: EventView, t: QRCodeView, secret: Seq<u8>, now: int) -> Option<
    ErrorCode,
> {
    if t.event != e.id {
        Some(ErrorCode::InvalidQRCode)
    } else if !e.is_active {
        Some(ErrorCode::EventInactive)
    } else if t.is_claimed {
        Some(ErrorCode::QRCodeAlreadyClaimed)
    } else if expired(t.expiration_time, now) {
        Some(ErrorCode::QRCodeExpired)
    } else if sha256_outcome(secret) is None {
        Some(ErrorCode::InvalidHashInput)
    } else if sha256_outcome(secret) != Some(t.secret_key) {
        Some(ErrorCode::InvalidSecretKey)
    } else if e.claimed_count >= e.issued_count {
        Some(ErrorCode::InvalidQRCode)
    } else {
        None
    }
}

/// The record of the claim that `claimer` makes on event `e` at `now`.
pub open spec fn claim_record(e: EventView, claimer: Seq<u8>, now: int) -> TokenDataView {
    TokenDataView { event: e.id, claimer: claimer, token_id: e.claimed_count + 1, claim_time: now }
}

/// What redeeming a ticket does: refused for the first reason that
/// `claim_refusal` finds; else with `InvalidHashInput` where the claim record
/// cannot be hashed; else for the reason for which the accumulator refuses
/// the leaf; and else the event with one more claim and the leaf appended,
/// the ticket marked as redeemed by `claimer` at `now`, and the claim record.
pub open spec fn claim_outcome(
    e: EventView,
    t: QRCodeView,
    secret: Seq<u8>,
    claimer: Seq<u8>,
    now: int,
) -> Result<(EventView, QRCodeView, TokenDataView), ErrorCode> {
    match claim_refusal(e, t, secret, now) {
        Some(err) => Err(err),
        None => match leaf_digest(claim_record(e, claimer, now)) {
            None => Err(ErrorCode::InvalidHashInput),
            Some(leaf) => match append_outcome(e.tree, leaf) {
                Err(err) => Err(err),
                Ok(tree) => Ok(
                    (
                        EventView { claimed_count: e.claimed_count + 1, tree: tree, ..e },
                        QRCodeView {
                            is_claimed: true,
                            claimer: Some(claimer),
                            claim_time: Some(now),
                            ..t
                        },
                        claim_record(e, claimer, now),
                    ),
                ),
            },
        },
    }
}

impl QRCode {
    /// Validity of a ticket.
    pub open spec fn wf(&self) -> bool {
        ticket_valid(self@)
    }

    /// Tests the validity of a ticket, such as one read back from storage.
    pub fn is_valid(&self) -> (ok: bool)
        ensures
            ok == self.wf(),
    {
        self.is_claimed == self.claimer.is_some() && self.is_claimed == self.claim_time.is_some()
    }
}

/// Issues a ticket of `event` that is redeemed with the secret whose digest
/// is `secret_key`, until `expiration_time` (0 for ever).
pub fn generate_qr_code(
    event: &mut Event,
    qr_code_id: String,
    secret_key: [u8; 32],
    expiration_time: i64,
) -> (r: Result<QRCode, ErrorCode>)
    requires
        old(event).wf(),
    ensures
        final(event).wf(),
        match r {
            Ok(ticket) => {
                &&& ticket.wf()
                &&& issue_outcome(old(event)@, qr_code_id@, secret_key@, expiration_time as int)
                    == Ok::<(EventView, QRCodeView), ErrorCode>((final(event)@, ticket@))
            },
            Err(e) => {
                &&& issue_outcome(old(event)@, qr_code_id@, secret_key@, expiration_time as int)
                    == Err::<(EventView, QRCodeView), ErrorCode>(e)
                &&& *final(event) == *old(event)
            },
        },
{
    if !event.is_active {
        return Err(ErrorCode::EventInactive);
    }
    if event.issued_count >= event.max_supply {
        return Err(ErrorCode::MaxSupplyReached);
    }
    let ticket = QRCode {
        event: event.id,
        qr_code_id,
        secret_key,
        is_claimed: false,
        expiration_time,
        claimer: None,
        claim_time: None,
    };
    event.issued_count = event.issued_count + 1;
    Ok(ticket)
}

/// Redeems `qr_code` of `event` for `claimer` at time `now`, given the
/// bearer's `secret`. Returns the claim record and the accumulator's new root.
pub fn claim_token(
    event: &mut Event,
    qr_code: &mut QRCode,
    secret: &Vec<u8>,
    claimer: [u8; 32],
    now: i64,
) -> (r: Result<(TokenData, [u8; 32]), ErrorCode>)
    requires
        old(event).wf(),
        old(qr_code).wf(),
    ensures
        final(event).wf(),
        final(qr_code).wf(),
        match r {
            Ok((record, root)) => {
                &&& claim_outcome(old(event)@, old(qr_code)@, secret@, claimer@, now as int)
                    == Ok::<(EventView, QRCodeView, TokenDataView), ErrorCode>(
                    (final(event)@, final(qr_code)@, record@),
                )
                &&& root@ == final(event)@.tree.root
            },
            Err(e) => {
                &&& claim_outcome(old(event)@, old(qr_code)@, secret@, claimer@, now as int)
                    == Err::<(EventView, QRCodeView, TokenDataView), ErrorCode>(e)
                &&& *final(event) == *old(event)
                &&& *final(qr_code) == *old(qr_code)
            },
        },
{
    if !digest_eq(&qr_code.event, &event.id) {
        return Err(ErrorCode::InvalidQRCode);
    }
    if !event.is_active {
        return Err(ErrorCode::EventInactive);
    }
    if qr_code.is_claimed {
        return Err(ErrorCode::QRCodeAlreadyClaimed);
    }
    if qr_code.expiration_time != 0 && now > qr_code.expiration_time {
        return Err(ErrorCode::QRCodeExpired);
    }
    match hash_bytes(secret) {
        None => {
            return Err(ErrorCode::InvalidHashInput);
        },
        Some(commitment) => {
            if !digest_eq(&commitment, &qr_code.secret_key) {
                return Err(ErrorCode::InvalidSecretKey);
            }
        },
    }
    if event.claimed_count >= event.issued_count {
        return Err(ErrorCode::InvalidQRCode);
    }
    let record = TokenData {
        event: event.id,
        claimer,
        token_id: event.claimed_count + 1,
        claim_time: now,
    };
    let leaf = match hash_token_data(&record) {
        None => {
            return Err(ErrorCode::InvalidHashInput);
        },
        Some(leaf) => leaf,
    };
    match event.tree.append(leaf) {
        Err(e) => Err(e),
        Ok((_, root)) => {
            qr_code.is_claimed = true;
            qr_code.claimer = Some(claimer);
            qr_code.claim_time = Some(now);
            event.claimed_count = event.claimed_count + 1;
            Ok((record, root))
        },
    }
}

/// Checks the claim `data` at `index` against the current root of `event`.
pub fn verify_token(
    event: &Event,
    data: &TokenData,
    index: u64,
    merkle_proof: &Vec<[u8; 32]>,
) -> (r: Result<(), ErrorCode>)
    ensures
        r is Ok <==> claim_verifies(
            data@,
            index as nat,
            digest_views(merkle_proof@),
            event@.tree.root,
        ),
        r matches Err(e) ==> e == ErrorCode::InvalidMerkleProof,
{
    if verify_claim(data, index, merkle_proof, &event.tree.root) {
        Ok(())
    } else {
        Err(ErrorCode::InvalidMerkleProof)
    }
}

} // verus!
