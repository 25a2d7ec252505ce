//! Confirming a pending subscriber.
//!
//! A confirmation request carries only the raw token. The token — never
//! the subscriber id — is looked up; an unknown token is answered with the
//! same not-found outcome whatever its shape, and a known one moves its
//! subscriber to confirmed. Confirming is idempotent: repeating it
//! succeeds again and changes nothing further.

use vstd::prelude::*;
use crate::store::{
    has_subscriber, has_token, token_subscriber, wf_store, Store, StoreView, SubscriberStatus,
    Subscription, SubscriptionView,
};

verus! {

/// The query parameters of a confirmation request.
pub struct Parameters {
    pub subscription_token: String,
}

/// The store after `subscriber_id`'s status moved to confirmed; every
/// other row, and every token, is untouched.
pub open spec fn with_subscriber_confirmed(s: StoreView, subscriber_id: u128) -> StoreView {
    StoreView {
        subscriptions: s.subscriptions.map_values(
            |row: SubscriptionView|
                if row.id == subscriber_id {
                    SubscriptionView { status: SubscriberStatus::Confirmed, ..row }
                } else {
                    row
                },
        ),
        tokens: s.tokens,
    }
}

/// What a confirmation request does: an unknown token leaves the store
/// unchanged and is answered 401; a known one confirms its subscriber and
/// is answered 200.
pub open spec fn spec_confirm(s: StoreView, token: Seq<char>) -> (u16, StoreView) {
    if has_token(s, token) {
        (200u16, with_subscriber_confirmed(s, token_subscriber(s, token)))
    } else {
        (401u16, s)
    }
}

/// Looks a token string up and resolves the subscriber it is bound to.
pub fn get_subscriber_id_from_token(
    store: &Store,
    subscription_token: &String,
) -> (r: Option<u128>)
    requires
        wf_store(store@),
    ensures
        r is Some <==> has_token(store@, subscription_token@),
        r matches Some(id) ==> id == token_subscriber(store@, subscription_token@),
{
    let n = store.subscription_tokens.len();
    let mut k: usize = 0;
    while k < n
        invariant
            n == store.subscription_tokens.len(),
            0 <= k <= n,
            store@.tokens.len() == n,
            wf_store(store@),
            forall|m: int|
                0 <= m < k
                    ==> #[trigger] store@.tokens[m].subscription_token != subscription_token@,
        decreases n - k,
    {
        if store.subscription_tokens[k].subscription_token == *subscription_token {
            assert(store@.tokens[k as int].subscription_token == subscription_token@);
            proof {
                let w = choose|w: int|
                    0 <= w < store@.tokens.len() && #[trigger] store@.tokens[w].subscription_token
                        == subscription_token@;
                assert(w == k as int);
            }
            return Some(store.subscription_tokens[k].subscriber_id);
        }
        k = k + 1;
    }
    None
}

/// Moves `subscriber_id`'s status to confirmed, touching nothing else.
/// Confirming an already confirmed subscriber changes nothing.
pub fn confirm_subscriber(store: &mut Store, subscriber_id: u128)
    ensures
        final (store)@ == with_subscriber_confirmed(old(store)@, subscriber_id),
{
    let n = store.subscriptions.len();
    let mut updated: Vec<Subscription> = Vec::new();
    let mut k: usize = 0;
    while k < n
        invariant
            n == store.subscriptions.len(),
            0 <= k <= n,
            store@ == old(store)@,
            store@.subscriptions.len() == n,
            updated@.len() == k,
            forall|j: int|
                0 <= j < k ==> (#[trigger] updated@[j])@ == with_subscriber_confirmed(
                    old(store)@,
                    subscriber_id,
                ).subscriptions[j],
        decreases n - k,
    {
        let row = &store.subscriptions[k];
        let new_status = if row.id == subscriber_id {
            SubscriberStatus::Confirmed
        } else {
            row.status
        };
        updated.push(
            Subscription {
                id: row.id,
                email: row.email.clone(),
                name: row.name.clone(),
                status: new_status,
                subscribed_at: row.subscribed_at,
            },
        );
        proof {
            let want = with_subscriber_confirmed(old(store)@, subscriber_id).subscriptions;
            assert(want[k as int] == (if store@.subscriptions[k as int].id == subscriber_id {
                SubscriptionView {
                    status: SubscriberStatus::Confirmed,
                    ..store@.subscriptions[k as int]
                }
            } else {
                store@.subscriptions[k as int]
            }));
            assert(store@.subscriptions[k as int] == row@);
            assert(updated@[k as int]@ == want[k as int]);
        }
        k = k + 1;
    }
    store.subscriptions = updated;
    proof {
        assert(store@.subscriptions =~= with_subscriber_confirmed(
            old(store)@,
            subscriber_id,
        ).subscriptions);
        assert(store@ =~= with_subscriber_confirmed(old(store)@, subscriber_id));
    }
}

/// Handles a confirmation request: answers 200 and confirms the owning
/// subscriber when the token is known, answers 401 and changes nothing
/// when it is not. Repeating a successful confirmation succeeds again.
pub fn confirm(store: &mut Store, params: &Parameters) -> (status: u16)
    requires
        wf_store(old(store)@),
    ensures
        status == spec_confirm(old(store)@, params.subscription_token@).0,
        final (store)@ == spec_confirm(old(store)@, params.subscription_token@).1,
        wf_store(final (store)@),
{
    let id = match get_subscriber_id_from_token(store, &params.subscription_token) {
        Some(subscriber_id) => subscriber_id,
        None => {
            return 401;
        },
    };
    confirm_subscriber(store, id);
    proof {
        lemma_confirm_preserves_wf(old(store)@, id);
    }
    200
}

/// Confirming a subscriber preserves the store's well-formedness: ids,
/// tokens and bindings are untouched, only one status moves forward.
pub proof fn lemma_confirm_preserves_wf(s: StoreView, subscriber_id: u128)
    requires
        wf_store(s),
    ensures
        wf_store(with_subscriber_confirmed(s, subscriber_id)),
{
    let c = with_subscriber_confirmed(s, subscriber_id);
    assert forall|i: int| 0 <= i < c.tokens.len() implies has_subscriber(
        c,
        #[trigger] c.tokens[i].subscriber_id,
    ) by {
        assert(has_subscriber(s, s.tokens[i].subscriber_id));
        let k = choose|k: int|
            0 <= k < s.subscriptions.len() && #[trigger] s.subscriptions[k].id == s.tokens[i]
                .subscriber_id;
        assert(c.subscriptions[k].id == c.tokens[i].subscriber_id);
    }
}

/// Confirmation is idempotent: after a successful confirmation the same
/// token is still accepted, the second call answers 200 again, and it
/// leaves the store exactly as the first call left it — with the owning
/// subscriber confirmed.
pub proof fn lemma_confirm_idempotent(s: StoreView, token: Seq<char>)
    requires
        wf_store(s),
        has_token(s, token),
    ensures
        ({
            let first = spec_confirm(s, token);
            let second = spec_confirm(first.1, token);
            &&& first.0 == 200
            &&& second.0 == 200
            &&& second.1 == first.1
            &&& subscriber_status(first.1, token_subscriber(s, token))
                == Some(SubscriberStatus::Confirmed)
        }),
{
    let id = token_subscriber(s, token);
    let s1 = with_subscriber_confirmed(s, id);
    assert(s1.tokens == s.tokens);
    assert(has_token(s1, token));
    lemma_confirm_preserves_wf(s, id);
    let i = token_index_witness(s, token);
    assert(s1.tokens[i].subscription_token == token);
    let j = token_index_witness(s1, token);
    assert(s1.tokens[j] == s.tokens[j]);
    if i != j {
        assert(s.tokens[i].subscription_token == s.tokens[j].subscription_token);
        assert(false);
    }
    assert(token_subscriber(s1, token) == id);
    assert(spec_confirm(s1, token).1 =~~= s1) by {
        assert forall|k: int| 0 <= k < s1.subscriptions.len() implies #[trigger]
            with_subscriber_confirmed(s1, id).subscriptions[k] == s1.subscriptions[k] by {}
    }
    let w = choose|w: int|
        0 <= w < s.subscriptions.len() && #[trigger] s.subscriptions[w].id == id;
    assert(s1.subscriptions[w].status == SubscriberStatus::Confirmed);
    assert(subscriber_status(s1, id) == Some(SubscriberStatus::Confirmed)) by {
        let v = choose|v: int|
            0 <= v < s1.subscriptions.len() && #[trigger] s1.subscriptions[v].id == id;
        if v != w {
            assert(s.subscriptions[v].id == s.subscriptions[w].id);
            assert(false);
        }
    }
}

/// The index of the token row carrying `token`, under `has_token`.
proof fn token_index_witness(s: StoreView, token: Seq<char>) -> (i: int)
    requires
        has_token(s, token),
    ensures
        0 <= i < s.tokens.len(),
        s.tokens[i].subscription_token == token,
        s.tokens[i].subscriber_id == token_subscriber(s, token),
{
    let i = choose|i: int|
        0 <= i < s.tokens.len() && #[trigger] s.tokens[i].subscription_token == token;
    i
}

/// The status of the subscriber carrying `id`, `None` when no row does.
pub open spec fn subscriber_status(s: StoreView, id: u128) -> Option<SubscriberStatus> {
    if has_subscriber(s, id) {
        let k = choose|k: int|
            0 <= k < s.subscriptions.len() && #[trigger] s.subscriptions[k].id == id;
        Some(s.subscriptions[k].status)
    } else {
        None
    }
}

/// A status only ever moves forward: handling a confirmation request —
/// whatever token it carries — keeps every row, changes no id, email,
/// name or subscription time, and never moves a confirmed subscriber
/// back to pending.
pub proof fn lemma_status_moves_forward(s: StoreView, token: Seq<char>, i: int)
    requires
        0 <= i < s.subscriptions.len(),
    ensures
        spec_confirm(s, token).1.subscriptions.len() == s.subscriptions.len(),
        spec_confirm(s, token).1.subscriptions[i].id == s.subscriptions[i].id,
        spec_confirm(s, token).1.subscriptions[i].email == s.subscriptions[i].email,
        spec_confirm(s, token).1.subscriptions[i].name == s.subscriptions[i].name,
        spec_confirm(s, token).1.subscriptions[i].subscribed_at == s.subscriptions[i].subscribed_at,
        s.subscriptions[i].status is Confirmed ==> spec_confirm(
            s,
            token,
        ).1.subscriptions[i].status is Confirmed,
{
}

/// Every unknown token — malformed or merely never issued — is answered
/// with the very same outcome: 401, store untouched. The two cases are
/// indistinguishable from the outside.
pub proof fn lemma_confirm_unknown_uniform(s: StoreView, token_a: Seq<char>, token_b: Seq<char>)
    requires
        !has_token(s, token_a),
        !has_token(s, token_b),
    ensures
        spec_confirm(s, token_a) == spec_confirm(s, token_b),
        spec_confirm(s, token_a) == (401u16, s),
{
}

} // verus!

