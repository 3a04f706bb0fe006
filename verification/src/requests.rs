//! The request pipeline, one function per endpoint: what each inbound
//! request decides and returns, over plain values.  The HTTP layer
//! outside only moves bytes in and status codes out.

use vstd::prelude::*;
use crate::domain::{NewSubscriber, SubscriberEmail, SubscriberName, valid_email, valid_name};
use crate::form::{parse_form, spec_parse_form};
use crate::store::{
    SubscriberStore, has_email, has_token, spec_confirm, lemma_binding_for_bounds,
    lemma_index_of_id_bounds,
};
use crate::broadcast::BroadcastRun;
use crate::ids::fresh_u128;
use crate::clock::now_timestamp;

verus! {

/// The request was handled.
pub const STATUS_OK: u16 = 200;

/// The request's input was rejected by validation.
pub const STATUS_BAD_REQUEST: u16 = 400;

/// The caller is not authorised (unknown token, failed credentials).
pub const STATUS_UNAUTHORIZED: u16 = 401;

/// The store refused the write.
pub const STATUS_INTERNAL_ERROR: u16 = 500;

/// The validated fields of a subscription body: the decoded email and
/// name values when the form parses and both pass validation.
pub open spec fn spec_validated(body: Seq<u8>) -> Option<(Seq<u8>, Seq<u8>)> {
    match spec_parse_form(body) {
        Err(_) => None,
        Ok((email, name)) => if valid_email(email) && valid_name(name) {
            Some((email, name))
        } else {
            None
        },
    }
}

/// Handle a subscription request: parse the form body, validate both
/// fields, and persist a pending subscriber under a fresh random id at
/// the current time.  Validation failures are 400 and never retried;
/// a store refusal (a duplicate) is 500; success is 200.
pub fn subscribe(store: &mut SubscriberStore, body: &[u8]) -> (status: u16)
    requires
        old(store).wf(),
    ensures
        final(store).wf(),
        final(store).bindings() == old(store).bindings(),
        status == STATUS_OK || status == STATUS_BAD_REQUEST || status == STATUS_INTERNAL_ERROR,
        status == STATUS_BAD_REQUEST <==> spec_validated(body@) is None,
        status != STATUS_OK ==> final(store).records() == old(store).records(),
        spec_validated(body@) matches Some(fields) && has_email(old(store).records(), fields.0)
            ==> status == STATUS_INTERNAL_ERROR,
        old(store).records().len() == 0 && spec_validated(body@) is Some ==> status == STATUS_OK,
        status == STATUS_OK ==> (spec_validated(body@) matches Some(fields) && {
            &&& final(store).records().len() == old(store).records().len() + 1
            &&& final(store).records().take(old(store).records().len() as int) == old(
                store,
            ).records()
            &&& final(store).records().last().email@ == fields.0
            &&& final(store).records().last().name@ == fields.1
            &&& final(store).records().last().status is PendingConfirmation
        }),
{
    let fd = match parse_form(body) {
        Ok(fd) => fd,
        Err(_) => {
            return STATUS_BAD_REQUEST;
        },
    };
    let email = match SubscriberEmail::parse(fd.email) {
        Ok(e) => e,
        Err(_) => {
            return STATUS_BAD_REQUEST;
        },
    };
    let name = match SubscriberName::parse(fd.name) {
        Ok(nm) => nm,
        Err(_) => {
            return STATUS_BAD_REQUEST;
        },
    };
    let ns = NewSubscriber { email, name };
    let id = fresh_u128();
    let now = now_timestamp();
    let ghost pre = store.records();
    match store.create(ns, id, now) {
        Ok(_) => {
            proof {
                assert(store.records().take(pre.len() as int) =~= pre);
            }
            STATUS_OK
        },
        Err(_) => STATUS_INTERNAL_ERROR,
    }
}

/// Handle a confirmation request: a token bound in the store confirms
/// its subscriber and answers 200; an unknown token answers 401,
/// revealing nothing about how the token missed.
pub fn confirm_request(store: &mut SubscriberStore, token: &[u8]) -> (status: u16)
    requires
        old(store).wf(),
    ensures
        final(store).wf(),
        final(store).bindings() == old(store).bindings(),
        status == STATUS_OK || status == STATUS_UNAUTHORIZED,
        status == STATUS_OK <==> has_token(old(store).bindings(), token@),
        final(store).records() == spec_confirm(
            old(store).records(),
            old(store).bindings(),
            token@,
        ).0,
{
    let r = store.confirm(token);
    proof {
        lemma_binding_for_bounds(old(store).bindings(), token@);
        match crate::store::binding_for(old(store).bindings(), token@) {
            Some(sid) => {
                lemma_index_of_id_bounds(old(store).records(), sid);
                if crate::store::index_of_id(old(store).records(), sid) is None {
                    let v = choose|i: int|
                        0 <= i < old(store).records().len() && old(store).records()[i].id == sid;
                    assert(old(store).records()[v].id != sid);
                }
            },
            None => {},
        }
    }
    match r {
        Ok(_) => STATUS_OK,
        Err(_) => STATUS_UNAUTHORIZED,
    }
}

/// Start a newsletter broadcast over the confirmed subscribers: a
/// point-in-time snapshot of every confirmed email, each to be
/// attempted exactly once.
pub fn begin_broadcast(store: &SubscriberStore) -> (r: BroadcastRun)
    ensures
        r.wf(),
        r.sent() == 0,
        r.recipients_view() == crate::store::confirmed_emails(store.records()),
        r.log() == Seq::<(Seq<u8>, Result<(), crate::notify::SendError>)>::empty(),
{
    BroadcastRun::begin(store.list_confirmed())
}

} // verus!
