//! Confirmation-token issuance: a fresh unguessable token is bound to
//! a subscriber through the store, and the confirmation link handed to
//! the notifier is built from it.

use vstd::prelude::*;
use crate::store::{SubscriberStore, StoreError, has_id, has_token};
use crate::ids::{fresh_token, hex32};

verus! {

/// The path and query prefix of a confirmation link,
/// `/subscriptions/confirm?subscription_token=`.
pub open spec fn confirm_path() -> Seq<u8> {
    seq![0x2f, 0x73, 0x75, 0x62, 0x73, 0x63, 0x72, 0x69, 0x70, 0x74, 0x69, 0x6f, 0x6e, 0x73, 0x2f, 0x63, 0x6f, 0x6e, 0x66, 0x69, 0x72, 0x6d, 0x3f, 0x73, 0x75, 0x62, 0x73, 0x63, 0x72, 0x69, 0x70, 0x74, 0x69, 0x6f, 0x6e, 0x5f, 0x74, 0x6f, 0x6b, 0x65, 0x6e, 0x3d]
}

/// A confirmation link: the base URL, the confirmation path, then the
/// token.
pub open spec fn confirmation_link(base: Seq<u8>, token: Seq<u8>) -> Seq<u8> {
    base + confirm_path() + token
}

/// What issuing a confirmation yields: the token the store now binds,
/// and the link to send to the subscriber.
pub struct ConfirmationIssue {
    pub token: Vec<u8>,
    pub link: Vec<u8>,
}

fn append_bytes(out: &mut Vec<u8>, s: &[u8])
    ensures
        final(out)@ == old(out)@ + s@,
{
    let n = s.len();
    let mut i: usize = 0;
    while i < n
        invariant
            n == s@.len(),
            i <= n,
            out@ == old(out)@ + s@.take(i as int),
        decreases n - i,
    {
        proof {
            assert((old(out)@ + s@.take(i as int)).push(s@[i as int]) =~= old(out)@ + s@.take(
                i + 1,
            ));
        }
        out.push(s[i]);
        i = i + 1;
    }
    proof {
        assert(s@.take(n as int) =~= s@);
    }
}

fn push_confirm_path(out: &mut Vec<u8>)
    ensures
        final(out)@ == old(out)@ + confirm_path(),
{
    out.push(0x2f);
    out.push(0x73);
    out.push(0x75);
    out.push(0x62);
    out.push(0x73);
    out.push(0x63);
    out.push(0x72);
    out.push(0x69);
    out.push(0x70);
    out.push(0x74);
    out.push(0x69);
    out.push(0x6f);
    out.push(0x6e);
    out.push(0x73);
    out.push(0x2f);
    out.push(0x63);
    out.push(0x6f);
    out.push(0x6e);
    out.push(0x66);
    out.push(0x69);
    out.push(0x72);
    out.push(0x6d);
    out.push(0x3f);
    out.push(0x73);
    out.push(0x75);
    out.push(0x62);
    out.push(0x73);
    out.push(0x63);
    out.push(0x72);
    out.push(0x69);
    out.push(0x70);
    out.push(0x74);
    out.push(0x69);
    out.push(0x6f);
    out.push(0x6e);
    out.push(0x5f);
    out.push(0x74);
    out.push(0x6f);
    out.push(0x6b);
    out.push(0x65);
    out.push(0x6e);
    out.push(0x3d);
    proof {
        assert(out@ =~= old(out)@ + confirm_path());
    }
}

/// Build the confirmation link for a token.
pub fn build_confirmation_link(base_url: &[u8], token: &[u8]) -> (r: Vec<u8>)
    ensures
        r@ == confirmation_link(base_url@, token@),
{
    let mut out: Vec<u8> = Vec::new();
    proof {
        assert(out@ + base_url@ =~= base_url@);
    }
    append_bytes(&mut out, base_url);
    push_confirm_path(&mut out);
    append_bytes(&mut out, token);
    proof {
        assert((base_url@ + confirm_path()) + token@ =~= confirmation_link(base_url@, token@));
    }
    out
}

/// Issue a confirmation for a subscriber: draw a fresh random token,
/// bind it through the store, and build the confirmation link.
///
/// The token is random, so a collision with an existing binding cannot
/// be ruled out; whatever token came back, the store either binds it
/// one-to-one or refuses it and stays unchanged.  Where no binding
/// exists at all, no collision is possible and issuance is owed.
pub fn issue_confirmation(store: &mut SubscriberStore, subscriber_id: u128, base_url: &[u8]) -> (r:
    Result<ConfirmationIssue, StoreError>)
    requires
        old(store).wf(),
    ensures
        final(store).wf(),
        final(store).records() == old(store).records(),
        r is Err ==> final(store).bindings() == old(store).bindings(),
        r == Err::<ConfirmationIssue, StoreError>(StoreError::UnknownSubscriber) <==> !has_id(
            old(store).records(),
            subscriber_id,
        ),
        has_id(old(store).records(), subscriber_id) && old(store).bindings().len() == 0 ==> r
            is Ok,
        r matches Ok(ci) ==> {
            &&& ci.token@.len() == 64
            &&& (exists|a: u128, b: u128| ci.token@ == hex32(a) + hex32(b))
            &&& !has_token(old(store).bindings(), ci.token@)
            &&& has_id(old(store).records(), subscriber_id)
            &&& final(store).bindings() == old(store).bindings().push((ci.token@, subscriber_id))
            &&& ci.link@ == confirmation_link(base_url@, ci.token@)
        },
{
    let token = fresh_token();
    let token_copy = vstd::slice::slice_to_vec(token.as_slice());
    let link = build_confirmation_link(base_url, token.as_slice());
    match store.bind_token(token, subscriber_id) {
        Ok(()) => Ok(ConfirmationIssue { token: token_copy, link }),
        Err(e) => Err(e),
    }
}

} // verus!
