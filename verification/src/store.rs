//! The transactional subscriber store.
//!
//! The store is the single shared mutable resource of the service. It keeps
//! the subscriber rows and the confirmation-token rows, and it is only ever
//! changed through transactions: rows are staged on a [`Transaction`] and
//! appear in the store all at once when the transaction commits, or not at
//! all. Commit enforces the store's uniqueness constraints, so a
//! well-formed store stays well-formed.

use vstd::prelude::*;

verus! {

/// Lifecycle state of a subscriber. The status only ever moves forward,
/// from pending to confirmed.
#[derive(Clone, Copy, PartialEq, Eq, Structural, Debug)]
pub enum SubscriberStatus {
    PendingConfirmation,
    Confirmed,
}

/// One subscriber row.
pub struct Subscription {
    pub id: u128,
    pub email: String,
    pub name: String,
    pub status: SubscriberStatus,
    pub subscribed_at: u64,
}

/// One confirmation-token row, binding a single-use token string to
/// exactly one subscriber. The token, not the subscriber id, is the lookup
/// key of the confirmation link.
pub struct SubscriptionToken {
    pub subscription_token: String,
    pub subscriber_id: u128,
}

/// Mathematical value of a subscriber row.
#[verifier::ext_equal]
pub ghost struct SubscriptionView {
    pub id: u128,
    pub email: Seq<char>,
    pub name: Seq<char>,
    pub status: SubscriberStatus,
    pub subscribed_at: u64,
}

/// Mathematical value of a token row.
#[verifier::ext_equal]
pub ghost struct TokenView {
    pub subscription_token: Seq<char>,
    pub subscriber_id: u128,
}

/// Mathematical value of the whole store.
#[verifier::ext_equal]
pub ghost struct StoreView {
    pub subscriptions: Seq<SubscriptionView>,
    pub tokens: Seq<TokenView>,
}

impl View for Subscription {
    type V = SubscriptionView;

    open spec fn view(&self) -> SubscriptionView {
        SubscriptionView {
            id: self.id,
            email: self.email@,
            name: self.name@,
            status: self.status,
            subscribed_at: self.subscribed_at,
        }
    }
}

impl View for SubscriptionToken {
    type V = TokenView;

    open spec fn view(&self) -> TokenView {
        TokenView {
            subscription_token: self.subscription_token@,
            subscriber_id: self.subscriber_id,
        }
    }
}

/// The in-memory transactional store.
pub struct Store {
    pub subscriptions: Vec<Subscription>,
    pub subscription_tokens: Vec<SubscriptionToken>,
}

impl View for Store {
    type V = StoreView;

    open spec fn view(&self) -> StoreView {
        StoreView {
            subscriptions: self.subscriptions@.map_values(|s: Subscription| s@),
            tokens: self.subscription_tokens@.map_values(|t: SubscriptionToken| t@),
        }
    }
}

/// Some subscriber row carries this id.
pub open spec fn has_subscriber(s: StoreView, id: u128) -> bool {
    exists|k: int| 0 <= k < s.subscriptions.len() && #[trigger] s.subscriptions[k].id == id
}

/// Some token row carries this token string.
pub open spec fn has_token(s: StoreView, token: Seq<char>) -> bool {
    exists|k: int|
        0 <= k < s.tokens.len() && #[trigger] s.tokens[k].subscription_token == token
}

/// Some token row is bound to this subscriber.
pub open spec fn has_token_for(s: StoreView, id: u128) -> bool {
    exists|k: int| 0 <= k < s.tokens.len() && #[trigger] s.tokens[k].subscriber_id == id
}

/// Index of the token row carrying this token string (meaningful only when
/// `has_token` holds; unique in a well-formed store).
pub open spec fn token_index(s: StoreView, token: Seq<char>) -> int {
    choose|k: int|
        0 <= k < s.tokens.len() && #[trigger] s.tokens[k].subscription_token == token
}

/// The subscriber a token string is bound to.
pub open spec fn token_subscriber(s: StoreView, token: Seq<char>) -> u128 {
    s.tokens[token_index(s, token)].subscriber_id
}

/// Store well-formedness: subscriber ids are unique, token strings are
/// unique, each subscriber holds at most one token, and every token is
/// bound to an existing subscriber.
pub open spec fn wf_store(s: StoreView) -> bool {
    &&& forall|i: int, j: int|
        0 <= i < j < s.subscriptions.len()
            ==> #[trigger] s.subscriptions[i].id != #[trigger] s.subscriptions[j].id
    &&& forall|i: int, j: int|
        0 <= i < j < s.tokens.len()
            ==> #[trigger] s.tokens[i].subscription_token
            != #[trigger] s.tokens[j].subscription_token
    &&& forall|i: int, j: int|
        0 <= i < j < s.tokens.len()
            ==> #[trigger] s.tokens[i].subscriber_id != #[trigger] s.tokens[j].subscriber_id
    &&& forall|i: int|
        0 <= i < s.tokens.len() ==> has_subscriber(s, #[trigger] s.tokens[i].subscriber_id)
}

/// Rows staged by an open transaction. Nothing is visible in the store
/// until commit; dropping the transaction rolls everything back.
pub struct Transaction {
    pub new_subscriptions: Vec<Subscription>,
    pub new_tokens: Vec<SubscriptionToken>,
}

/// Mathematical value of a transaction's staged rows.
#[verifier::ext_equal]
pub ghost struct TransactionView {
    pub subscriptions: Seq<SubscriptionView>,
    pub tokens: Seq<TokenView>,
}

impl View for Transaction {
    type V = TransactionView;

    open spec fn view(&self) -> TransactionView {
        TransactionView {
            subscriptions: self.new_subscriptions@.map_values(|s: Subscription| s@),
            tokens: self.new_tokens@.map_values(|t: SubscriptionToken| t@),
        }
    }
}

/// The store a successful commit leaves behind: every staged row appended.
pub open spec fn committed(s: StoreView, t: TransactionView) -> StoreView {
    StoreView { subscriptions: s.subscriptions + t.subscriptions, tokens: s.tokens + t.tokens }
}

/// Commit succeeds exactly when the staged rows respect the store's
/// constraints: staged subscriber ids are fresh and pairwise distinct,
/// staged tokens are fresh, pairwise distinct, bound to distinct
/// subscribers that hold no token yet, and bound to a subscriber that
/// exists in the store or is staged alongside.
pub open spec fn commit_ok(s: StoreView, t: TransactionView) -> bool {
    &&& forall|i: int|
        0 <= i < t.subscriptions.len() ==> !has_subscriber(s, #[trigger] t.subscriptions[i].id)
    &&& forall|i: int, j: int|
        0 <= i < j < t.subscriptions.len()
            ==> #[trigger] t.subscriptions[i].id != #[trigger] t.subscriptions[j].id
    &&& forall|i: int|
        0 <= i < t.tokens.len() ==> !has_token(s, #[trigger] t.tokens[i].subscription_token)
    &&& forall|i: int, j: int|
        0 <= i < j < t.tokens.len()
            ==> #[trigger] t.tokens[i].subscription_token
            != #[trigger] t.tokens[j].subscription_token
    &&& forall|i: int|
        0 <= i < t.tokens.len() ==> !has_token_for(s, #[trigger] t.tokens[i].subscriber_id)
    &&& forall|i: int, j: int|
        0 <= i < j < t.tokens.len()
            ==> #[trigger] t.tokens[i].subscriber_id != #[trigger] t.tokens[j].subscriber_id
    &&& forall|i: int|
        0 <= i < t.tokens.len()
            ==> has_subscriber(s, #[trigger] t.tokens[i].subscriber_id)
            || has_subscriber(committed(s, t), t.tokens[i].subscriber_id)
}

/// Why a commit was refused. The store is left untouched in every case.
#[derive(Debug, PartialEq, Eq, Structural)]
pub enum StoreError {
    SubscriberIdInUse,
    TokenInUse,
    TokenWithoutSubscriber,
}

impl Store {
    /// An empty store; trivially well-formed.
    pub fn new() -> (s: Store)
        ensures
            s@.subscriptions == Seq::<SubscriptionView>::empty(),
            s@.tokens == Seq::<TokenView>::empty(),
            wf_store(s@),
    {
        let s = Store { subscriptions: Vec::new(), subscription_tokens: Vec::new() };
        proof {
            assert(s@.subscriptions =~= Seq::<SubscriptionView>::empty());
            assert(s@.tokens =~= Seq::<TokenView>::empty());
        }
        s
    }

    /// Opens a transaction. Nothing is staged yet.
    pub fn begin(&self) -> (t: Transaction)
        ensures
            t@.subscriptions == Seq::<SubscriptionView>::empty(),
            t@.tokens == Seq::<TokenView>::empty(),
    {
        let t = Transaction { new_subscriptions: Vec::new(), new_tokens: Vec::new() };
        proof {
            assert(t@.subscriptions =~= Seq::<SubscriptionView>::empty());
            assert(t@.tokens =~= Seq::<TokenView>::empty());
        }
        t
    }
}

/// `true` exactly when the store holds a subscriber row with this id.
fn subscriber_id_in_store(store: &Store, id: u128) -> (r: bool)
    ensures
        r == has_subscriber(store@, id),
{
    let n = store.subscriptions.len();
    let mut k: usize = 0;
    while k < n
        invariant
            n == store.subscriptions.len(),
            0 <= k <= n,
            store@.subscriptions.len() == n,
            forall|m: int| 0 <= m < k ==> #[trigger] store@.subscriptions[m].id != id,
        decreases n - k,
    {
        if store.subscriptions[k].id == id {
            assert(store@.subscriptions[k as int].id == id);
            return true;
        }
        k = k + 1;
    }
    false
}

/// `true` exactly when the store holds a token row with this token string.
fn token_in_store(store: &Store, token: &String) -> (r: bool)
    ensures
        r == has_token(store@, token@),
{
    let n = store.subscription_tokens.len();
    let mut k: usize = 0;
    while k < n
        invariant
            n == store.subscription_tokens.len(),
            0 <= k <= n,
            store@.tokens.len() == n,
            forall|m: int| 0 <= m < k ==> #[trigger] store@.tokens[m].subscription_token != token@,
        decreases n - k,
    {
        if store.subscription_tokens[k].subscription_token == *token {
            assert(store@.tokens[k as int].subscription_token == token@);
            return true;
        }
        k = k + 1;
    }
    false
}

/// `true` exactly when the store holds a token row bound to this subscriber.
fn token_for_subscriber_in_store(store: &Store, id: u128) -> (r: bool)
    ensures
        r == has_token_for(store@, id),
{
    let n = store.subscription_tokens.len();
    let mut k: usize = 0;
    while k < n
        invariant
            n == store.subscription_tokens.len(),
            0 <= k <= n,
            store@.tokens.len() == n,
            forall|m: int| 0 <= m < k ==> #[trigger] store@.tokens[m].subscriber_id != id,
        decreases n - k,
    {
        if store.subscription_tokens[k].subscriber_id == id {
            assert(store@.tokens[k as int].subscriber_id == id);
            return true;
        }
        k = k + 1;
    }
    false
}

impl Transaction {
    /// Commits the staged rows: they all appear in the store, or — when a
    /// constraint would be violated — none of them does and the store is
    /// unchanged.
    pub fn commit(self, store: &mut Store) -> (r: Result<(), StoreError>)
        ensures
            r is Ok <==> commit_ok(old(store)@, self@),
            r is Ok ==> final (store)@ == committed(old(store)@, self@),
            r is Err ==> final (store)@ == old(store)@,
            r matches Err(e) ==> commit_error_of(old(store)@, self@) == Some(e),
    {
        match commit_conflict(store, &self) {
            Some(e) => Err(e),
            None => {
                let Transaction { mut new_subscriptions, mut new_tokens } = self;
                let ghost pre = store@;
                let ghost staged_subs = new_subscriptions@.map_values(|s: Subscription| s@);
                let ghost staged_toks = new_tokens@.map_values(|t: SubscriptionToken| t@);
                append_subscriptions(&mut store.subscriptions, new_subscriptions);
                append_tokens(&mut store.subscription_tokens, new_tokens);
                proof {
                    assert(store@.subscriptions =~= pre.subscriptions + staged_subs);
                    assert(store@.tokens =~= pre.tokens + staged_toks);
                    assert(store@ =~= committed(
                        pre,
                        TransactionView { subscriptions: staged_subs, tokens: staged_toks },
                    ));
                }
                Ok(())
            },
        }
    }
}

/// The error a doomed commit reports, `None` when the commit may proceed.
/// Subscriber-id conflicts are reported first, then token conflicts, then
/// tokens bound to no subscriber.
pub open spec fn commit_error_of(s: StoreView, t: TransactionView) -> Option<StoreError> {
    if !subs_ok(s, t) {
        Some(StoreError::SubscriberIdInUse)
    } else if !tokens_ok(s, t) {
        Some(StoreError::TokenInUse)
    } else if !token_owners_ok(s, t) {
        Some(StoreError::TokenWithoutSubscriber)
    } else {
        None
    }
}

/// Staged subscriber ids are fresh and pairwise distinct.
pub open spec fn subs_ok(s: StoreView, t: TransactionView) -> bool {
    &&& forall|i: int|
        0 <= i < t.subscriptions.len() ==> !has_subscriber(s, #[trigger] t.subscriptions[i].id)
    &&& forall|i: int, j: int|
        0 <= i < j < t.subscriptions.len()
            ==> #[trigger] t.subscriptions[i].id != #[trigger] t.subscriptions[j].id
}

/// Staged token strings are fresh and pairwise distinct, and their
/// subscribers hold no token yet, neither stored nor staged twice.
pub open spec fn tokens_ok(s: StoreView, t: TransactionView) -> bool {
    &&& forall|i: int|
        0 <= i < t.tokens.len() ==> !has_token(s, #[trigger] t.tokens[i].subscription_token)
    &&& forall|i: int, j: int|
        0 <= i < j < t.tokens.len()
            ==> #[trigger] t.tokens[i].subscription_token
            != #[trigger] t.tokens[j].subscription_token
    &&& forall|i: int|
        0 <= i < t.tokens.len() ==> !has_token_for(s, #[trigger] t.tokens[i].subscriber_id)
    &&& forall|i: int, j: int|
        0 <= i < j < t.tokens.len()
            ==> #[trigger] t.tokens[i].subscriber_id != #[trigger] t.tokens[j].subscriber_id
}

/// Every staged token is bound to a subscriber that exists in the store or
/// is staged alongside it.
pub open spec fn token_owners_ok(s: StoreView, t: TransactionView) -> bool {
    forall|i: int|
        0 <= i < t.tokens.len()
            ==> has_subscriber(s, #[trigger] t.tokens[i].subscriber_id)
            || has_subscriber(committed(s, t), t.tokens[i].subscriber_id)
}

/// Finds the first constraint the staged rows would violate.
fn commit_conflict(store: &Store, tx: &Transaction) -> (r: Option<StoreError>)
    ensures
        r == commit_error_of(store@, tx@),
{
    let ns = tx.new_subscriptions.len();
    let mut i: usize = 0;
    while i < ns
        invariant
            ns == tx.new_subscriptions.len(),
            0 <= i <= ns,
            tx@.subscriptions.len() == ns,
            forall|m: int|
                0 <= m < i ==> !has_subscriber(store@, #[trigger] tx@.subscriptions[m].id),
            forall|m: int, p: int|
                0 <= m < p < i
                    ==> #[trigger] tx@.subscriptions[m].id != #[trigger] tx@.subscriptions[p].id,
        decreases ns - i,
    {
        let id = tx.new_subscriptions[i].id;
        assert(tx@.subscriptions[i as int].id == id);
        if subscriber_id_in_store(store, id) {
            return Some(StoreError::SubscriberIdInUse);
        }
        let mut p: usize = 0;
        while p < i
            invariant
                ns == tx.new_subscriptions.len(),
                0 <= p <= i < ns,
                tx@.subscriptions.len() == ns,
                tx@.subscriptions[i as int].id == id,
                forall|m: int| 0 <= m < p ==> #[trigger] tx@.subscriptions[m].id != id,
            decreases i - p,
        {
            if tx.new_subscriptions[p].id == id {
                assert(tx@.subscriptions[p as int].id == id);
                return Some(StoreError::SubscriberIdInUse);
            }
            p = p + 1;
        }
        i = i + 1;
    }
    let nt = tx.new_tokens.len();
    let mut i: usize = 0;
    while i < nt
        invariant
            nt == tx.new_tokens.len(),
            0 <= i <= nt,
            tx@.tokens.len() == nt,
            subs_ok(store@, tx@),
            forall|m: int|
                0 <= m < i
                    ==> !has_token(store@, #[trigger] tx@.tokens[m].subscription_token),
            forall|m: int, p: int|
                0 <= m < p < i
                    ==> #[trigger] tx@.tokens[m].subscription_token
                    != #[trigger] tx@.tokens[p].subscription_token,
            forall|m: int|
                0 <= m < i ==> !has_token_for(store@, #[trigger] tx@.tokens[m].subscriber_id),
            forall|m: int, p: int|
                0 <= m < p < i
                    ==> #[trigger] tx@.tokens[m].subscriber_id
                    != #[trigger] tx@.tokens[p].subscriber_id,
        decreases nt - i,
    {
        let tok = &tx.new_tokens[i];
        assert(tx@.tokens[i as int] == tok@);
        if token_in_store(store, &tok.subscription_token) {
            assert(has_token(store@, tx@.tokens[i as int].subscription_token));
            return Some(StoreError::TokenInUse);
        }
        if token_for_subscriber_in_store(store, tok.subscriber_id) {
            assert(has_token_for(store@, tx@.tokens[i as int].subscriber_id));
            return Some(StoreError::TokenInUse);
        }
        let mut p: usize = 0;
        while p < i
            invariant
                nt == tx.new_tokens.len(),
                0 <= p <= i < nt,
                tx@.tokens.len() == nt,
                subs_ok(store@, tx@),
                tx@.tokens[i as int].subscription_token == tok@.subscription_token,
                tx@.tokens[i as int].subscriber_id == tok@.subscriber_id,
                forall|m: int|
                    0 <= m < p
                        ==> #[trigger] tx@.tokens[m].subscription_token
                        != tok@.subscription_token,
                forall|m: int|
                    0 <= m < p ==> #[trigger] tx@.tokens[m].subscriber_id != tok@.subscriber_id,
            decreases i - p,
        {
            if tx.new_tokens[p].subscription_token == tok.subscription_token {
                assert(tx@.tokens[p as int].subscription_token == tx@.tokens[
                    i as int
                ].subscription_token);
                return Some(StoreError::TokenInUse);
            }
            if tx.new_tokens[p].subscriber_id == tok.subscriber_id {
                assert(tx@.tokens[p as int].subscriber_id == tx@.tokens[i as int].subscriber_id);
                return Some(StoreError::TokenInUse);
            }
            p = p + 1;
        }
        i = i + 1;
    }
    let mut i: usize = 0;
    while i < nt
        invariant
            nt == tx.new_tokens.len(),
            0 <= i <= nt,
            tx@.tokens.len() == nt,
            subs_ok(store@, tx@),
            tokens_ok(store@, tx@),
            forall|m: int|
                0 <= m < i
                    ==> has_subscriber(store@, #[trigger] tx@.tokens[m].subscriber_id)
                    || has_subscriber(committed(store@, tx@), tx@.tokens[m].subscriber_id),
        decreases nt - i,
    {
        let owner = tx.new_tokens[i].subscriber_id;
        assert(tx@.tokens[i as int].subscriber_id == owner);
        if !subscriber_id_in_store(store, owner) {
            let mut p: usize = 0;
            let ns2 = tx.new_subscriptions.len();
            let mut found = false;
            while p < ns2
                invariant
                    ns2 == tx.new_subscriptions.len(),
                    0 <= p <= ns2,
                    tx@.subscriptions.len() == ns2,
                    found ==> exists|m: int|
                        0 <= m < ns2 && #[trigger] tx@.subscriptions[m].id == owner,
                    !found ==> forall|m: int|
                        0 <= m < p ==> #[trigger] tx@.subscriptions[m].id != owner,
                decreases ns2 - p,
            {
                if tx.new_subscriptions[p].id == owner {
                    assert(tx@.subscriptions[p as int].id == owner);
                    found = true;
                }
                p = p + 1;
            }
            if !found {
                assert(!has_subscriber(store@, owner));
                assert(!has_subscriber(committed(store@, tx@), owner)) by {
                    let c = committed(store@, tx@);
                    assert forall|k: int| 0 <= k < c.subscriptions.len() implies #[trigger] c
                        .subscriptions[k].id != owner by {
                        if k < store@.subscriptions.len() {
                            assert(c.subscriptions[k] == store@.subscriptions[k]);
                        } else {
                            assert(c.subscriptions[k] == tx@.subscriptions[k - store@
                                .subscriptions.len()]);
                        }
                    }
                }
                return Some(StoreError::TokenWithoutSubscriber);
            } else {
                proof {
                    let m = choose|m: int|
                        0 <= m < ns2 && #[trigger] tx@.subscriptions[m].id == owner;
                    let c = committed(store@, tx@);
                    assert(c.subscriptions[store@.subscriptions.len() + m].id == owner);
                }
            }
        }
        i = i + 1;
    }
    None
}

/// Moves every element of `extra` to the end of `dest`, in order.
fn append_subscriptions(dest: &mut Vec<Subscription>, extra: Vec<Subscription>)
    ensures
        final (dest)@ == old(dest)@ + extra@,
{
    let mut extra = extra;
    let n = extra.len();
    let ghost all = extra@;
    let mut k: usize = 0;
    while k < n
        invariant
            n == all.len(),
            0 <= k <= n,
            extra@ == all.skip(k as int),
            dest@ == old(dest)@ + all.take(k as int),
        decreases n - k,
    {
        let item = extra.remove(0);
        proof {
            assert(item == all[k as int]);
            assert(extra@ =~= all.skip(k as int + 1));
        }
        dest.push(item);
        proof {
            assert(dest@ =~= old(dest)@ + all.take(k as int + 1));
        }
        k = k + 1;
    }
    proof {
        assert(dest@ =~= old(dest)@ + all);
    }
}

/// Moves every element of `extra` to the end of `dest`, in order.
fn append_tokens(dest: &mut Vec<SubscriptionToken>, extra: Vec<SubscriptionToken>)
    ensures
        final (dest)@ == old(dest)@ + extra@,
{
    let mut extra = extra;
    let n = extra.len();
    let ghost all = extra@;
    let mut k: usize = 0;
    while k < n
        invariant
            n == all.len(),
            0 <= k <= n,
            extra@ == all.skip(k as int),
            dest@ == old(dest)@ + all.take(k as int),
        decreases n - k,
    {
        let item = extra.remove(0);
        proof {
            assert(item == all[k as int]);
            assert(extra@ =~= all.skip(k as int + 1));
        }
        dest.push(item);
        proof {
            assert(dest@ =~= old(dest)@ + all.take(k as int + 1));
        }
        k = k + 1;
    }
    proof {
        assert(dest@ =~= old(dest)@ + all);
    }
}

/// A successful commit preserves the store's well-formedness.
pub proof fn lemma_commit_preserves_wf(s: StoreView, t: TransactionView)
    requires
        wf_store(s),
        commit_ok(s, t),
    ensures
        wf_store(committed(s, t)),
{
    let c = committed(s, t);
    let sn = s.subscriptions.len() as int;
    let tn = s.tokens.len() as int;
    assert forall|i: int, j: int|
        0 <= i < j < c.subscriptions.len() implies #[trigger] c.subscriptions[i].id
        != #[trigger] c.subscriptions[j].id by {
        if j < sn {
        } else if i < sn {
            assert(c.subscriptions[j] == t.subscriptions[j - sn]);
            assert(!has_subscriber(s, t.subscriptions[j - sn].id));
            assert(c.subscriptions[i] == s.subscriptions[i]);
        } else {
            assert(c.subscriptions[i] == t.subscriptions[i - sn]);
            assert(c.subscriptions[j] == t.subscriptions[j - sn]);
        }
    }
    assert forall|i: int, j: int|
        0 <= i < j < c.tokens.len() implies #[trigger] c.tokens[i].subscription_token
        != #[trigger] c.tokens[j].subscription_token by {
        if j < tn {
        } else if i < tn {
            assert(c.tokens[j] == t.tokens[j - tn]);
            assert(!has_token(s, t.tokens[j - tn].subscription_token));
            assert(c.tokens[i] == s.tokens[i]);
        } else {
            assert(c.tokens[i] == t.tokens[i - tn]);
            assert(c.tokens[j] == t.tokens[j - tn]);
        }
    }
    assert forall|i: int, j: int|
        0 <= i < j < c.tokens.len() implies #[trigger] c.tokens[i].subscriber_id
        != #[trigger] c.tokens[j].subscriber_id by {
        if j < tn {
        } else if i < tn {
            assert(c.tokens[j] == t.tokens[j - tn]);
            assert(!has_token_for(s, t.tokens[j - tn].subscriber_id));
            assert(c.tokens[i] == s.tokens[i]);
        } else {
            assert(c.tokens[i] == t.tokens[i - tn]);
            assert(c.tokens[j] == t.tokens[j - tn]);
        }
    }
    assert forall|i: int| 0 <= i < c.tokens.len() implies has_subscriber(
        c,
        #[trigger] c.tokens[i].subscriber_id,
    ) by {
        if i < tn {
            assert(c.tokens[i] == s.tokens[i]);
            assert(has_subscriber(s, s.tokens[i].subscriber_id));
            let k = choose|k: int|
                0 <= k < s.subscriptions.len() && #[trigger] s.subscriptions[k].id == s.tokens[i]
                    .subscriber_id;
            assert(c.subscriptions[k].id == c.tokens[i].subscriber_id);
        } else {
            assert(c.tokens[i] == t.tokens[i - tn]);
            if has_subscriber(s, t.tokens[i - tn].subscriber_id) {
                let owner = t.tokens[i - tn].subscriber_id;
                let k = choose|k: int|
                    0 <= k < s.subscriptions.len() && #[trigger] s.subscriptions[k].id == owner;
                assert(c.subscriptions[k].id == c.tokens[i].subscriber_id);
            } else {
                assert(has_subscriber(c, t.tokens[i - tn].subscriber_id));
            }
        }
    }
}

} // verus!
