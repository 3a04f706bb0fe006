//! The subscriber store: the single source of truth for subscriber
//! records and confirmation-token bindings.  Its operations are exactly
//! the spec-level transition functions `spec_create`, `spec_confirm` and
//! `spec_bind`, so every caller reasons over one mathematical model.

use vstd::prelude::*;
use crate::domain::{NewSubscriber, SubscriberEmail, SubscriberName, bytes_eq};

verus! {

/// The two lifecycle states of a subscriber record.
#[derive(Clone, Copy, Debug, PartialEq, Eq)]
pub enum SubscriberStatus {
    PendingConfirmation,
    Confirmed,
}

/// How a store operation can fail.
#[derive(Clone, Copy, Debug, PartialEq, Eq)]
pub enum StoreError {
    /// A record with this email, or this id, already exists.
    DuplicateSubscriber,
    /// No binding carries this confirmation token.
    UnknownToken,
    /// A binding was requested for an id with no record.
    UnknownSubscriber,
    /// A binding with this token already exists.
    DuplicateToken,
}

/// What confirming with a valid token did.
#[derive(Clone, Copy, Debug, PartialEq, Eq)]
pub enum ConfirmOutcome {
    /// The record moved from pending to confirmed.
    NewlyConfirmed,
    /// The record was already confirmed; re-confirming is a no-op.
    AlreadyConfirmed,
}

/// A persisted subscriber.
pub struct SubscriberRecord {
    pub id: u128,
    pub email: SubscriberEmail,
    pub name: SubscriberName,
    pub subscribed_at: i64,
    pub status: SubscriberStatus,
}

struct TokenBinding {
    token: Vec<u8>,
    subscriber_id: u128,
}

pub open spec fn has_email(rs: Seq<SubscriberRecord>, e: Seq<u8>) -> bool {
    exists|i: int| 0 <= i < rs.len() && rs[i].email@ == e
}

pub open spec fn has_id(rs: Seq<SubscriberRecord>, id: u128) -> bool {
    exists|i: int| 0 <= i < rs.len() && rs[i].id == id
}

pub open spec fn has_token(bs: Seq<(Seq<u8>, u128)>, tok: Seq<u8>) -> bool {
    exists|i: int| 0 <= i < bs.len() && bs[i].0 == tok
}

/// Index of the first record with this id, if any.
pub open spec fn index_of_id(rs: Seq<SubscriberRecord>, id: u128) -> Option<int>
    decreases rs.len(),
{
    if rs.len() == 0 {
        None
    } else if rs[0].id == id {
        Some(0)
    } else {
        match index_of_id(rs.skip(1), id) {
            Some(k) => Some(k + 1),
            None => None,
        }
    }
}

/// The subscriber id bound to the first binding with this token, if any.
pub open spec fn binding_for(bs: Seq<(Seq<u8>, u128)>, tok: Seq<u8>) -> Option<u128>
    decreases bs.len(),
{
    if bs.len() == 0 {
        None
    } else if bs[0].0 == tok {
        Some(bs[0].1)
    } else {
        binding_for(bs.skip(1), tok)
    }
}

/// The record with this id, if any.
pub open spec fn record_with_id(rs: Seq<SubscriberRecord>, id: u128) -> Option<SubscriberRecord> {
    match index_of_id(rs, id) {
        None => None,
        Some(j) => Some(rs[j]),
    }
}

/// The record `create` writes: pending confirmation, at the given time.
pub open spec fn record_created(ns: NewSubscriber, id: u128, now: i64) -> SubscriberRecord {
    SubscriberRecord {
        id,
        email: ns.email,
        name: ns.name,
        subscribed_at: now,
        status: SubscriberStatus::PendingConfirmation,
    }
}

pub open spec fn confirmed_record(rec: SubscriberRecord) -> SubscriberRecord {
    SubscriberRecord { status: SubscriberStatus::Confirmed, ..rec }
}

/// The create transition: a fresh record is appended in pending state;
/// an existing email or id is refused as a duplicate, unchanged.
pub open spec fn spec_create(
    rs: Seq<SubscriberRecord>,
    ns: NewSubscriber,
    id: u128,
    now: i64,
) -> (Seq<SubscriberRecord>, Result<u128, StoreError>) {
    if has_email(rs, ns.email@) || has_id(rs, id) {
        (rs, Err(StoreError::DuplicateSubscriber))
    } else {
        (rs.push(record_created(ns, id, now)), Ok(id))
    }
}

/// The confirm transition: the record bound to the token becomes
/// confirmed; an unknown token changes nothing.  `confirmed` is
/// terminal: re-confirming succeeds and changes nothing.
pub open spec fn spec_confirm(
    rs: Seq<SubscriberRecord>,
    bs: Seq<(Seq<u8>, u128)>,
    tok: Seq<u8>,
) -> (Seq<SubscriberRecord>, Result<ConfirmOutcome, StoreError>) {
    match binding_for(bs, tok) {
        None => (rs, Err(StoreError::UnknownToken)),
        Some(id) => match index_of_id(rs, id) {
            None => (rs, Err(StoreError::UnknownSubscriber)),
            Some(j) => (
                rs.update(j, confirmed_record(rs[j])),
                Ok(
                    if rs[j].status is Confirmed {
                        ConfirmOutcome::AlreadyConfirmed
                    } else {
                        ConfirmOutcome::NewlyConfirmed
                    },
                ),
            ),
        },
    }
}

/// The bind transition: a token is bound one-to-one to an existing
/// subscriber; a reused token or an unknown subscriber is refused.
pub open spec fn spec_bind(
    bs: Seq<(Seq<u8>, u128)>,
    rs: Seq<SubscriberRecord>,
    tok: Seq<u8>,
    id: u128,
) -> (Seq<(Seq<u8>, u128)>, Result<(), StoreError>) {
    if !has_id(rs, id) {
        (bs, Err(StoreError::UnknownSubscriber))
    } else if has_token(bs, tok) {
        (bs, Err(StoreError::DuplicateToken))
    } else {
        (bs.push((tok, id)), Ok(()))
    }
}

/// The emails of the confirmed records, in store order.
pub open spec fn confirmed_emails(rs: Seq<SubscriberRecord>) -> Seq<Seq<u8>>
    decreases rs.len(),
{
    if rs.len() == 0 {
        Seq::<Seq<u8>>::empty()
    } else {
        confirmed_emails(rs.drop_last()) + if rs.last().status is Confirmed {
            seq![rs.last().email@]
        } else {
            Seq::<Seq<u8>>::empty()
        }
    }
}

pub open spec fn unique_ids(rs: Seq<SubscriberRecord>) -> bool {
    forall|i: int, j: int| 0 <= i < j < rs.len() ==> rs[i].id != rs[j].id
}

pub open spec fn unique_tokens(bs: Seq<(Seq<u8>, u128)>) -> bool {
    forall|i: int, j: int| 0 <= i < j < bs.len() ==> bs[i].0 != bs[j].0
}

/// Every token binding points at an existing record.
pub open spec fn bindings_target(rs: Seq<SubscriberRecord>, bs: Seq<(Seq<u8>, u128)>) -> bool {
    forall|i: int| 0 <= i < bs.len() ==> has_id(rs, #[trigger] bs[i].1)
}

pub proof fn lemma_index_of_id_bounds(rs: Seq<SubscriberRecord>, id: u128)
    ensures
        match index_of_id(rs, id) {
            Some(k) => 0 <= k < rs.len() && rs[k].id == id && (forall|j: int|
                0 <= j < k ==> rs[j].id != id),
            None => forall|j: int| 0 <= j < rs.len() ==> rs[j].id != id,
        },
    decreases rs.len(),
{
    if rs.len() == 0 {
    } else if rs[0].id == id {
    } else {
        lemma_index_of_id_bounds(rs.skip(1), id);
        match index_of_id(rs.skip(1), id) {
            Some(k) => {
                assert(rs[k + 1] == rs.skip(1)[k]);
                assert forall|j: int| 0 <= j < k + 1 implies rs[j].id != id by {
                    if j > 0 {
                        assert(rs.skip(1)[j - 1] == rs[j]);
                    }
                }
            },
            None => {
                assert forall|j: int| 0 <= j < rs.len() implies rs[j].id != id by {
                    if j > 0 {
                        assert(rs.skip(1)[j - 1] == rs[j]);
                    }
                }
            },
        }
    }
}

pub proof fn lemma_index_of_id_is(rs: Seq<SubscriberRecord>, id: u128, k: int)
    requires
        0 <= k < rs.len(),
        rs[k].id == id,
        forall|j: int| 0 <= j < k ==> rs[j].id != id,
    ensures
        index_of_id(rs, id) == Some(k),
    decreases rs.len(),
{
    if k == 0 {
    } else {
        lemma_index_of_id_is(rs.skip(1), id, k - 1);
    }
}

pub proof fn lemma_binding_for_bounds(bs: Seq<(Seq<u8>, u128)>, tok: Seq<u8>)
    ensures
        match binding_for(bs, tok) {
            Some(id) => exists|i: int| 0 <= i < bs.len() && bs[i].0 == tok && bs[i].1 == id,
            None => !has_token(bs, tok),
        },
    decreases bs.len(),
{
    if bs.len() == 0 {
    } else if bs[0].0 == tok {
    } else {
        lemma_binding_for_bounds(bs.skip(1), tok);
        match binding_for(bs.skip(1), tok) {
            Some(id) => {
                let i = choose|i: int|
                    0 <= i < bs.skip(1).len() && bs.skip(1)[i].0 == tok && bs.skip(1)[i].1 == id;
                assert(bs[i + 1] == bs.skip(1)[i]);
            },
            None => {
                assert forall|j: int| 0 <= j < bs.len() implies bs[j].0 != tok by {
                    if j > 0 {
                        assert(bs.skip(1)[j - 1] == bs[j]);
                    }
                }
            },
        }
    }
}

pub proof fn lemma_binding_for_is(bs: Seq<(Seq<u8>, u128)>, tok: Seq<u8>, k: int)
    requires
        0 <= k < bs.len(),
        bs[k].0 == tok,
        forall|j: int| 0 <= j < k ==> bs[j].0 != tok,
    ensures
        binding_for(bs, tok) == Some(bs[k].1),
    decreases bs.len(),
{
    if k == 0 {
    } else {
        lemma_binding_for_is(bs.skip(1), tok, k - 1);
        assert(bs.skip(1)[k - 1] == bs[k]);
    }
}

pub proof fn lemma_binding_for_none(bs: Seq<(Seq<u8>, u128)>, tok: Seq<u8>)
    requires
        !has_token(bs, tok),
    ensures
        binding_for(bs, tok) is None,
    decreases bs.len(),
{
    if bs.len() > 0 {
        assert forall|j: int| 0 <= j < bs.skip(1).len() implies bs.skip(1)[j].0 != tok by {
            assert(bs.skip(1)[j] == bs[j + 1]);
        }
        lemma_binding_for_none(bs.skip(1), tok);
    }
}

/// The subscriber store.  Identifiers are unique, token bindings are
/// one-to-one, and every binding points at an existing record.
pub struct SubscriberStore {
    subscribers: Vec<SubscriberRecord>,
    tokens: Vec<TokenBinding>,
}

impl SubscriberStore {
    pub closed spec fn records(&self) -> Seq<SubscriberRecord> {
        self.subscribers@
    }

    pub closed spec fn bindings(&self) -> Seq<(Seq<u8>, u128)> {
        self.tokens@.map_values(|t: TokenBinding| (t.token@, t.subscriber_id))
    }

    /// The store's invariant, established by `new` and preserved by
    /// every operation.
    pub open spec fn wf(&self) -> bool {
        &&& unique_ids(self.records())
        &&& unique_tokens(self.bindings())
        &&& bindings_target(self.records(), self.bindings())
    }

    pub fn new() -> (r: SubscriberStore)
        ensures
            r.wf(),
            r.records() == Seq::<SubscriberRecord>::empty(),
            r.bindings() == Seq::<(Seq<u8>, u128)>::empty(),
    {
        let r = SubscriberStore { subscribers: Vec::new(), tokens: Vec::new() };
        proof {
            assert(r.bindings() =~= Seq::<(Seq<u8>, u128)>::empty());
        }
        r
    }

    /// Whether some record carries this email.
    fn contains_email(&self, e: &[u8]) -> (r: bool)
        ensures
            r == has_email(self.records(), e@),
    {
        let n = self.subscribers.len();
        let mut i: usize = 0;
        while i < n
            invariant
                n == self.records().len(),
                i <= n,
                forall|j: int| 0 <= j < i ==> self.records()[j].email@ != e@,
            decreases n - i,
        {
            if bytes_eq(self.subscribers[i].email.as_bytes(), e) {
                return true;
            }
            i = i + 1;
        }
        false
    }

    /// Index of the first record with this id.
    fn find_id(&self, id: u128) -> (r: Option<usize>)
        ensures
            match r {
                Some(k) => index_of_id(self.records(), id) == Some(k as int),
                None => index_of_id(self.records(), id) is None,
            },
    {
        let n = self.subscribers.len();
        let mut i: usize = 0;
        while i < n
            invariant
                n == self.records().len(),
                i <= n,
                forall|j: int| 0 <= j < i ==> self.records()[j].id != id,
            decreases n - i,
        {
            if self.subscribers[i].id == id {
                proof {
                    lemma_index_of_id_is(self.records(), id, i as int);
                }
                return Some(i);
            }
            i = i + 1;
        }
        proof {
            lemma_index_of_id_bounds(self.records(), id);
            if index_of_id(self.records(), id) is Some {
                let k = index_of_id(self.records(), id)->Some_0;
                assert(self.records()[k].id != id);
            }
        }
        None
    }

    /// Index of the first binding with this token.
    fn find_token(&self, tok: &[u8]) -> (r: Option<usize>)
        ensures
            match r {
                Some(k) => 0 <= k < self.bindings().len() && self.bindings()[k as int].0 == tok@
                    && binding_for(self.bindings(), tok@) == Some(
                    self.bindings()[k as int].1,
                ),
                None => binding_for(self.bindings(), tok@) is None && !has_token(
                    self.bindings(),
                    tok@,
                ),
            },
    {
        let n = self.tokens.len();
        let mut i: usize = 0;
        while i < n
            invariant
                n == self.tokens@.len(),
                self.bindings().len() == n,
                forall|j: int|
                    0 <= j < n ==> self.bindings()[j] == (
                    self.tokens@[j].token@,
                    self.tokens@[j].subscriber_id,
                ),
                i <= n,
                forall|j: int| 0 <= j < i ==> self.bindings()[j].0 != tok@,
            decreases n - i,
        {
            if bytes_eq(self.tokens[i].token.as_slice(), tok) {
                proof {
                    lemma_binding_for_is(self.bindings(), tok@, i as int);
                }
                return Some(i);
            }
            i = i + 1;
        }
        proof {
            lemma_binding_for_none(self.bindings(), tok@);
        }
        None
    }

    /// Insert a new subscriber atomically, in pending state.
    pub fn create(&mut self, ns: NewSubscriber, id: u128, now: i64) -> (r: Result<
        u128,
        StoreError,
    >)
        requires
            old(self).wf(),
        ensures
            final(self).wf(),
            final(self).bindings() == old(self).bindings(),
            (final(self).records(), r) == spec_create(old(self).records(), ns, id, now),
    {
        let dup_email = self.contains_email(ns.email.as_bytes());
        let dup_id = match self.find_id(id) {
            Some(_) => true,
            None => false,
        };
        proof {
            lemma_index_of_id_bounds(self.records(), id);
        }
        if dup_email || dup_id {
            return Err(StoreError::DuplicateSubscriber);
        }
        let ghost pre = self.records();
        let rec = SubscriberRecord {
            id,
            email: ns.email,
            name: ns.name,
            subscribed_at: now,
            status: SubscriberStatus::PendingConfirmation,
        };
        self.subscribers.push(rec);
        proof {
            assert(self.bindings() =~= old(self).bindings());
            assert forall|i: int|
                0 <= i < self.bindings().len() implies has_id(
                self.records(),
                #[trigger] self.bindings()[i].1,
            ) by {
                assert(has_id(pre, self.bindings()[i].1));
                let w = choose|w: int| 0 <= w < pre.len() && pre[w].id == self.bindings()[i].1;
                assert(self.records()[w].id == self.bindings()[i].1);
            }
        }
        Ok(id)
    }

    /// Transition the record bound to this token into confirmed state.
    pub fn confirm(&mut self, token: &[u8]) -> (r: Result<ConfirmOutcome, StoreError>)
        requires
            old(self).wf(),
        ensures
            final(self).wf(),
            final(self).bindings() == old(self).bindings(),
            (final(self).records(), r) == spec_confirm(
                old(self).records(),
                old(self).bindings(),
                token@,
            ),
    {
        let bidx = match self.find_token(token) {
            None => {
                return Err(StoreError::UnknownToken);
            },
            Some(b) => b,
        };
        let sid = self.tokens[bidx].subscriber_id;
        proof {
            assert(self.bindings()[bidx as int] == (
                self.tokens@[bidx as int].token@,
                self.tokens@[bidx as int].subscriber_id,
            ));
        }
        let ridx = match self.find_id(sid) {
            None => {
                return Err(StoreError::UnknownSubscriber);
            },
            Some(j) => j,
        };
        proof {
            lemma_index_of_id_bounds(self.records(), sid);
        }
        let already = match self.subscribers[ridx].status {
            SubscriberStatus::Confirmed => true,
            SubscriberStatus::PendingConfirmation => false,
        };
        let ghost pre = self.records();
        let rec = vstd::std_specs::vec::vec_index_mut(&mut self.subscribers, ridx);
        rec.status = SubscriberStatus::Confirmed;
        proof {
            assert(self.records() =~= pre.update(ridx as int, confirmed_record(pre[ridx as int])));
            assert(self.bindings() =~= old(self).bindings());
            assert forall|i: int|
                0 <= i < self.bindings().len() implies has_id(
                self.records(),
                #[trigger] self.bindings()[i].1,
            ) by {
                assert(has_id(pre, self.bindings()[i].1));
                let w = choose|w: int| 0 <= w < pre.len() && pre[w].id == self.bindings()[i].1;
                assert(self.records()[w].id == self.bindings()[i].1);
            }
        }
        if already {
            Ok(ConfirmOutcome::AlreadyConfirmed)
        } else {
            Ok(ConfirmOutcome::NewlyConfirmed)
        }
    }

    /// Bind a confirmation token one-to-one to an existing subscriber.
    pub fn bind_token(&mut self, token: Vec<u8>, subscriber_id: u128) -> (r: Result<
        (),
        StoreError,
    >)
        requires
            old(self).wf(),
        ensures
            final(self).wf(),
            final(self).records() == old(self).records(),
            (final(self).bindings(), r) == spec_bind(
                old(self).bindings(),
                old(self).records(),
                token@,
                subscriber_id,
            ),
    {
        let known = match self.find_id(subscriber_id) {
            Some(_) => true,
            None => false,
        };
        proof {
            lemma_index_of_id_bounds(self.records(), subscriber_id);
        }
        if !known {
            return Err(StoreError::UnknownSubscriber);
        }
        let dup = match self.find_token(token.as_slice()) {
            Some(_) => true,
            None => false,
        };
        if dup {
            proof {
                lemma_binding_for_bounds(self.bindings(), token@);
            }
            return Err(StoreError::DuplicateToken);
        }
        let ghost preb = self.bindings();
        self.tokens.push(TokenBinding { token, subscriber_id });
        proof {
            assert(self.bindings() =~= preb.push((token@, subscriber_id)));
            assert forall|i: int|
                0 <= i < self.bindings().len() implies has_id(
                self.records(),
                #[trigger] self.bindings()[i].1,
            ) by {
                if i < preb.len() {
                    assert(self.bindings()[i] == preb[i]);
                    assert(has_id(self.records(), preb[i].1));
                } else {
                    assert(self.bindings()[i].1 == subscriber_id);
                }
            }
        }
        Ok(())
    }

    /// Every confirmed subscriber's email, in store order: a
    /// point-in-time snapshot the caller must not read an order into.
    pub fn list_confirmed(&self) -> (r: Vec<SubscriberEmail>)
        ensures
            r@.map_values(|e: SubscriberEmail| e@) == confirmed_emails(self.records()),
    {
        let n = self.subscribers.len();
        let mut out: Vec<SubscriberEmail> = Vec::new();
        proof {
            assert(self.records().take(0) =~= Seq::<SubscriberRecord>::empty());
            assert(out@.map_values(|e: SubscriberEmail| e@) =~= Seq::<Seq<u8>>::empty());
        }
        let mut i: usize = 0;
        while i < n
            invariant
                n == self.records().len(),
                i <= n,
                out@.map_values(|e: SubscriberEmail| e@) == confirmed_emails(
                    self.records().take(i as int),
                ),
            decreases n - i,
        {
            let ghost prefix = self.records().take(i as int);
            proof {
                assert(self.records().take(i + 1).drop_last() =~= prefix);
                assert(self.records().take(i + 1).last() == self.records()[i as int]);
            }
            let keep = match self.subscribers[i].status {
                SubscriberStatus::Confirmed => true,
                SubscriberStatus::PendingConfirmation => false,
            };
            if keep {
                let e = self.subscribers[i].email.clone();
                proof {
                    assert(out@.push(e).map_values(|x: SubscriberEmail| x@) =~= out@.map_values(
                        |x: SubscriberEmail| x@,
                    ).push(e@));
                    assert(confirmed_emails(self.records().take(i + 1)) =~= confirmed_emails(
                        prefix,
                    ).push(self.records()[i as int].email@));
                }
                out.push(e);
            } else {
                proof {
                    assert(confirmed_emails(self.records().take(i + 1)) =~= confirmed_emails(
                        prefix,
                    ));
                }
            }
            i = i + 1;
        }
        proof {
            assert(self.records().take(n as int) =~= self.records());
        }
        out
    }

    /// How many subscriber records the store holds.
    pub fn subscriber_count(&self) -> (r: usize)
        ensures
            r == self.records().len(),
    {
        self.subscribers.len()
    }

    /// Read the record at a position, in store order.
    pub fn record_at(&self, i: usize) -> (r: &SubscriberRecord)
        requires
            i < self.records().len(),
        ensures
            *r == self.records()[i as int],
    {
        &self.subscribers[i]
    }

    /// Read the record with this id.
    pub fn get_record(&self, id: u128) -> (r: Option<&SubscriberRecord>)
        ensures
            match r {
                Some(rec) => record_with_id(self.records(), id) == Some(*rec),
                None => record_with_id(self.records(), id) is None,
            },
    {
        match self.find_id(id) {
            Some(k) => {
                proof {
                    lemma_index_of_id_bounds(self.records(), id);
                }
                Some(&self.subscribers[k])
            },
            None => None,
        }
    }
}

/// Creating a subscriber with a fresh email and id succeeds, and
/// immediately reading the record back yields status
/// pending-confirmation with exactly the validated email and name.
pub proof fn lemma_create_then_read(
    rs: Seq<SubscriberRecord>,
    ns: NewSubscriber,
    id: u128,
    now: i64,
)
    requires
        !has_email(rs, ns.email@),
        !has_id(rs, id),
    ensures
        ({
            let (rs1, r) = spec_create(rs, ns, id, now);
            &&& r == Ok::<u128, StoreError>(id)
            &&& record_with_id(rs1, id) == Some(record_created(ns, id, now))
            &&& record_created(ns, id, now).status is PendingConfirmation
            &&& record_created(ns, id, now).email@ == ns.email@
            &&& record_created(ns, id, now).name@ == ns.name@
        }),
{
    let rs1 = rs.push(record_created(ns, id, now));
    assert forall|j: int| 0 <= j < rs.len() implies rs1[j].id != id by {
        assert(rs1[j] == rs[j]);
    }
    lemma_index_of_id_is(rs1, id, rs.len() as int);
}

/// Confirming with an unknown token always fails with the same error,
/// whatever similar tokens exist, and changes nothing.
pub proof fn lemma_confirm_unknown_token(
    rs: Seq<SubscriberRecord>,
    bs: Seq<(Seq<u8>, u128)>,
    tok: Seq<u8>,
)
    requires
        !has_token(bs, tok),
    ensures
        spec_confirm(rs, bs, tok) == (rs, Err::<ConfirmOutcome, StoreError>(
            StoreError::UnknownToken,
        )),
{
    lemma_binding_for_none(bs, tok);
}

/// Confirming with a bound token succeeds and leaves the bound record
/// confirmed; confirming again with the same token succeeds as a no-op:
/// `confirmed` is terminal and no state regression is possible.
pub proof fn lemma_confirm_idempotent(
    rs: Seq<SubscriberRecord>,
    bs: Seq<(Seq<u8>, u128)>,
    tok: Seq<u8>,
)
    requires
        unique_ids(rs),
        bindings_target(rs, bs),
        has_token(bs, tok),
    ensures
        ({
            let (rs1, r1) = spec_confirm(rs, bs, tok);
            let (rs2, r2) = spec_confirm(rs1, bs, tok);
            &&& r1 is Ok
            &&& binding_for(bs, tok) matches Some(sid) && record_with_id(rs1, sid) matches Some(
                rec,
            ) && rec.status is Confirmed
            &&& r2 == Ok::<ConfirmOutcome, StoreError>(ConfirmOutcome::AlreadyConfirmed)
            &&& rs2 == rs1
        }),
{
    lemma_binding_for_bounds(bs, tok);
    let sid = binding_for(bs, tok)->Some_0;
    let w = choose|i: int| 0 <= i < bs.len() && bs[i].0 == tok && bs[i].1 == sid;
    assert(has_id(rs, sid));
    lemma_index_of_id_bounds(rs, sid);
    if index_of_id(rs, sid) is None {
        let v = choose|i: int| 0 <= i < rs.len() && rs[i].id == sid;
        assert(rs[v].id != sid);
    }
    let j = index_of_id(rs, sid)->Some_0;
    let rs1 = rs.update(j, confirmed_record(rs[j]));
    assert(rs1[j].id == sid);
    assert forall|i: int| 0 <= i < j implies rs1[i].id != sid by {
        assert(rs1[i] == rs[i]);
    }
    lemma_index_of_id_is(rs1, sid, j);
    assert(rs1[j].status is Confirmed);
    assert(confirmed_record(rs1[j]) == rs1[j]);
    assert(rs1.update(j, confirmed_record(rs1[j])) =~= rs1);
}

} // verus!
