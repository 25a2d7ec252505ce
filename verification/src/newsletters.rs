//! Publishing a newsletter issue to every confirmed subscriber.
//!
//! The dispatcher reads the confirmed subscribers once, at dispatch start.
//! Rows whose stored email no longer passes validation are skipped — and
//! recorded, with the offending address — rather than aborting the run.
//! Every remaining recipient gets exactly one delivery attempt, and a
//! failed attempt for one recipient never removes the attempts still owed
//! to the others: it is captured as a per-recipient failure record.

use vstd::prelude::*;
use crate::domain::{is_valid_email, SubscriberEmail};
use crate::email_client::{email_request, EmailClient, EmailRequest, EmailRequestView};
use crate::store::{Store, SubscriptionView};

verus! {

/// The JSON body of a publish request: one newsletter issue. Issues are
/// transient; they are never stored.
pub struct BodyData {
    pub title: String,
    pub content: Content,
}

/// The two renderings of a newsletter issue.
pub struct Content {
    pub html: String,
    pub text: String,
}

/// A subscriber row that came back from the confirmed-subscriber fetch
/// with a still-valid stored email.
pub struct ConfirmedSubscriber {
    pub email: SubscriberEmail,
}

/// The stored emails of the confirmed rows, in store order.
pub open spec fn confirmed_emails(subs: Seq<SubscriptionView>) -> Seq<Seq<char>>
    decreases subs.len(),
{
    if subs.len() == 0 {
        Seq::<Seq<char>>::empty()
    } else {
        confirmed_emails(subs.drop_last()) + (if subs.last().status is Confirmed {
            seq![subs.last().email]
        } else {
            Seq::<Seq<char>>::empty()
        })
    }
}

/// The addresses of `emails` that pass validation, in order.
pub open spec fn valid_of(emails: Seq<Seq<char>>) -> Seq<Seq<char>>
    decreases emails.len(),
{
    if emails.len() == 0 {
        Seq::<Seq<char>>::empty()
    } else {
        valid_of(emails.drop_last()) + (if is_valid_email(emails.last()) {
            seq![emails.last()]
        } else {
            Seq::<Seq<char>>::empty()
        })
    }
}

/// The addresses of `emails` that fail validation, in order.
pub open spec fn invalid_of(emails: Seq<Seq<char>>) -> Seq<Seq<char>>
    decreases emails.len(),
{
    if emails.len() == 0 {
        Seq::<Seq<char>>::empty()
    } else {
        invalid_of(emails.drop_last()) + (if is_valid_email(emails.last()) {
            Seq::<Seq<char>>::empty()
        } else {
            seq![emails.last()]
        })
    }
}

/// The recipients a publish run attempts to reach: confirmed rows whose
/// stored email is still valid.
pub open spec fn delivery_targets(subs: Seq<SubscriptionView>) -> Seq<Seq<char>> {
    valid_of(confirmed_emails(subs))
}

/// The confirmed rows a publish run skips: their stored email no longer
/// passes validation.
pub open spec fn skipped_targets(subs: Seq<SubscriptionView>) -> Seq<Seq<char>> {
    invalid_of(confirmed_emails(subs))
}

/// How one fetched row relates to the confirmed email it came from:
/// a valid address parses and is kept, an invalid one is reported back
/// verbatim as the skip's context.
pub open spec fn fetched_row_matches(r: Result<ConfirmedSubscriber, String>, email: Seq<char>) -> bool {
    match r {
        Ok(cs) => cs.email@ == email && is_valid_email(email),
        Err(raw) => raw@ == email && !is_valid_email(email),
    }
}

/// Fetches the confirmed subscribers, re-validating each stored email
/// defensively: a row whose stored address fails today's rules comes back
/// as an error value carrying that address, not as a fatal failure.
pub fn get_confirmed_subscribers(store: &Store) -> (r: Vec<Result<ConfirmedSubscriber, String>>)
    ensures
        r@.len() == confirmed_emails(store@.subscriptions).len(),
        forall|j: int|
            0 <= j < r@.len() ==> fetched_row_matches(
                #[trigger] r@[j],
                confirmed_emails(store@.subscriptions)[j],
            ),
{
    let ghost subs = store@.subscriptions;
    let n = store.subscriptions.len();
    let mut r: Vec<Result<ConfirmedSubscriber, String>> = Vec::new();
    let mut k: usize = 0;
    while k < n
        invariant
            n == store.subscriptions.len(),
            0 <= k <= n,
            subs == store@.subscriptions,
            subs.len() == n,
            r@.len() == confirmed_emails(subs.take(k as int)).len(),
            forall|j: int|
                0 <= j < r@.len() ==> fetched_row_matches(
                    #[trigger] r@[j],
                    confirmed_emails(subs.take(k as int))[j],
                ),
        decreases n - k,
    {
        let ghost prefix = confirmed_emails(subs.take(k as int));
        proof {
            assert(subs.take(k as int + 1).drop_last() =~= subs.take(k as int));
            assert(subs.take(k as int + 1).last() == subs[k as int]);
        }
        let row = &store.subscriptions[k];
        assert(row@ == subs[k as int]);
        match row.status {
            crate::store::SubscriberStatus::Confirmed => {
                match SubscriberEmail::try_from(row.email.clone()) {
                    Ok(email) => {
                        r.push(Ok(ConfirmedSubscriber { email }));
                    },
                    Err(_) => {
                        r.push(Err(row.email.clone()));
                    },
                }
                proof {
                    assert(confirmed_emails(subs.take(k as int + 1)) =~= prefix.push(
                        subs[k as int].email,
                    ));
                }
            },
            crate::store::SubscriberStatus::PendingConfirmation => {
                proof {
                    assert(confirmed_emails(subs.take(k as int + 1)) =~= prefix);
                }
            },
        }
        k = k + 1;
    }
    proof {
        assert(subs.take(n as int) =~= subs);
    }
    r
}

/// One recipient the dispatcher could not reach, and why.
pub struct DeliveryFailure {
    pub email: String,
    pub reason: String,
}

/// Mathematical value of a per-recipient failure record.
#[verifier::ext_equal]
pub ghost struct DeliveryFailureView {
    pub email: Seq<char>,
    pub reason: Seq<char>,
}

impl View for DeliveryFailure {
    type V = DeliveryFailureView;

    open spec fn view(&self) -> DeliveryFailureView {
        DeliveryFailureView { email: self.email@, reason: self.reason@ }
    }
}

/// A newsletter publish run: the delivery attempts still to make, how many
/// were already made, the per-recipient failures captured so far, and the
/// skipped addresses recorded at dispatch start.
pub struct NewsletterDispatch {
    pub requests: Vec<EmailRequest>,
    pub attempted: usize,
    pub failures: Vec<DeliveryFailure>,
    pub skipped: Vec<String>,
}

/// Mathematical value of a publish run.
#[verifier::ext_equal]
pub ghost struct DispatchView {
    pub requests: Seq<EmailRequestView>,
    pub attempted: int,
    pub failures: Seq<DeliveryFailureView>,
    pub skipped: Seq<Seq<char>>,
}

impl View for NewsletterDispatch {
    type V = DispatchView;

    open spec fn view(&self) -> DispatchView {
        DispatchView {
            requests: self.requests@.map_values(|r: EmailRequest| r@),
            attempted: self.attempted as int,
            failures: self.failures@.map_values(|f: DeliveryFailure| f@),
            skipped: self.skipped@.map_values(|s: String| s@),
        }
    }
}

/// The outcome of one delivery attempt, as the transport reports it.
pub open spec fn outcome_view(o: Result<(), String>) -> Result<(), Seq<char>> {
    match o {
        Ok(_) => Ok(()),
        Err(m) => Err(m@),
    }
}

/// What recording one outcome does to a run: the attempt counter moves by
/// one; a failure outcome is captured against its recipient; the attempts
/// still to make are never touched by the outcome.
pub open spec fn spec_record(d: DispatchView, outcome: Result<(), Seq<char>>) -> DispatchView {
    DispatchView {
        requests: d.requests,
        attempted: d.attempted + 1,
        failures: match outcome {
            Ok(_) => d.failures,
            Err(reason) => d.failures.push(
                (DeliveryFailureView { email: d.requests[d.attempted].to, reason }),
            ),
        },
        skipped: d.skipped,
    }
}

/// The delivery attempts not yet made.
pub open spec fn remaining_deliveries(d: DispatchView) -> Seq<EmailRequestView> {
    d.requests.skip(d.attempted)
}

impl NewsletterDispatch {
    /// The next delivery attempt to carry out, `None` once every recipient
    /// got their one attempt.
    pub fn next_delivery(&self) -> (r: Option<&EmailRequest>)
        ensures
            match r {
                Some(req) => self@.attempted < self@.requests.len() && req@ == self@.requests[self@.attempted],
                None => self@.attempted >= self@.requests.len(),
            },
    {
        if self.attempted < self.requests.len() {
            Some(&self.requests[self.attempted])
        } else {
            None
        }
    }

    /// Records the outcome the transport reported for the current attempt
    /// and moves on to the next recipient. A failure is captured with its
    /// recipient and reason; it never cancels the remaining attempts.
    pub fn record_delivery(&mut self, outcome: Result<(), String>)
        requires
            old(self)@.attempted < old(self)@.requests.len(),
        ensures
            final (self)@ == spec_record(old(self)@, outcome_view(outcome)),
    {
        match outcome {
            Ok(()) => {},
            Err(reason) => {
                let email = self.requests[self.attempted].to.clone();
                self.failures.push(DeliveryFailure { email, reason });
                proof {
                    assert(self@.failures =~= old(self)@.failures.push(
                        (DeliveryFailureView {
                            email: old(self)@.requests[old(self)@.attempted].to,
                            reason: reason@,
                        }),
                    ));
                }
            },
        }
        let total = self.requests.len();
        assert(self.attempted < total);
        self.attempted = self.attempted + 1;
        proof {
            assert(self@ =~= spec_record(old(self)@, outcome_view(outcome)));
        }
    }

    /// The response once every recipient got their one attempt: success,
    /// whatever the individual outcomes were.
    pub fn publish_status(&self) -> (code: u16)
        requires
            self@.attempted == self@.requests.len(),
        ensures
            code == 200,
    {
        200
    }
}

/// Starts a publish run: reads the confirmed subscribers once, skips and
/// records the rows whose stored email fails re-validation, and assembles
/// exactly one delivery attempt — carrying the issue's title and both
/// bodies — for each remaining recipient.
pub fn publish_newsletter(
    store: &Store,
    email_client: &EmailClient,
    body: &BodyData,
) -> (d: NewsletterDispatch)
    ensures
        d@.attempted == 0,
        d@.failures == Seq::<DeliveryFailureView>::empty(),
        d@.requests.len() == delivery_targets(store@.subscriptions).len(),
        forall|i: int|
            0 <= i < d@.requests.len() ==> #[trigger] d@.requests[i] == email_request(
                email_client.sender(),
                delivery_targets(store@.subscriptions)[i],
                body.title@,
                body.content.html@,
                body.content.text@,
            ),
        d@.skipped == skipped_targets(store@.subscriptions),
{
    let rows = get_confirmed_subscribers(store);
    let ghost ce = confirmed_emails(store@.subscriptions);
    let n = rows.len();
    let mut requests: Vec<EmailRequest> = Vec::new();
    let mut skipped: Vec<String> = Vec::new();
    let mut j: usize = 0;
    while j < n
        invariant
            n == rows.len(),
            0 <= j <= n,
            ce == confirmed_emails(store@.subscriptions),
            rows@.len() == ce.len(),
            forall|m: int|
                0 <= m < rows@.len() ==> fetched_row_matches(#[trigger] rows@[m], ce[m]),
            requests@.len() == valid_of(ce.take(j as int)).len(),
            forall|i: int|
                0 <= i < requests@.len() ==> (#[trigger] requests@[i])@ == email_request(
                    email_client.sender(),
                    valid_of(ce.take(j as int))[i],
                    body.title@,
                    body.content.html@,
                    body.content.text@,
                ),
            skipped@.len() == invalid_of(ce.take(j as int)).len(),
            forall|i: int|
                0 <= i < skipped@.len() ==> (#[trigger] skipped@[i])@ == invalid_of(
                    ce.take(j as int),
                )[i],
        decreases n - j,
    {
        proof {
            assert(ce.take(j as int + 1).drop_last() =~= ce.take(j as int));
            assert(ce.take(j as int + 1).last() == ce[j as int]);
        }
        match &rows[j] {
            Ok(cs) => {
                let req = email_client.send_email(
                    &cs.email,
                    body.title.as_str(),
                    body.content.html.as_str(),
                    body.content.text.as_str(),
                );
                requests.push(req);
                proof {
                    assert(valid_of(ce.take(j as int + 1)) =~= valid_of(ce.take(j as int)).push(
                        ce[j as int],
                    ));
                    assert(invalid_of(ce.take(j as int + 1)) =~= invalid_of(ce.take(j as int)));
                }
            },
            Err(raw) => {
                skipped.push(raw.clone());
                proof {
                    assert(invalid_of(ce.take(j as int + 1)) =~= invalid_of(ce.take(j as int)).push(
                        ce[j as int],
                    ));
                    assert(valid_of(ce.take(j as int + 1)) =~= valid_of(ce.take(j as int)));
                }
            },
        }
        j = j + 1;
    }
    proof {
        assert(ce.take(n as int) =~= ce);
    }
    let d = NewsletterDispatch { requests, attempted: 0, failures: Vec::new(), skipped };
    proof {
        assert(d@.failures =~= Seq::<DeliveryFailureView>::empty());
        assert(d@.skipped =~= skipped_targets(store@.subscriptions));
    }
    d
}

/// A failed attempt is loop-local: recording a failure moves the run
/// forward exactly as recording a success does — same attempt counter,
/// same remaining deliveries, same skip log — and only adds one failure
/// record naming the recipient and the reason.
pub proof fn lemma_failure_isolation(d: DispatchView, reason: Seq<char>)
    requires
        0 <= d.attempted < d.requests.len(),
    ensures
        spec_record(d, Err(reason)).requests == d.requests,
        spec_record(d, Err(reason)).skipped == d.skipped,
        spec_record(d, Err(reason)).attempted == spec_record(d, Ok(())).attempted,
        remaining_deliveries(spec_record(d, Err(reason))) == remaining_deliveries(
            spec_record(d, Ok(())),
        ),
        spec_record(d, Err(reason)).failures == d.failures.push(
            (DeliveryFailureView { email: d.requests[d.attempted].to, reason }),
        ),
{
}

/// Of `emails`, every address is either kept or skipped: the two parts
/// partition the list.
proof fn lemma_valid_invalid_partition(emails: Seq<Seq<char>>)
    ensures
        valid_of(emails).len() + invalid_of(emails).len() == emails.len(),
    decreases emails.len(),
{
    if emails.len() > 0 {
        lemma_valid_invalid_partition(emails.drop_last());
    }
}

/// Publishing to N confirmed subscribers of which K carry a corrupted
/// stored email makes exactly N − K delivery attempts and records exactly
/// K skips.
pub proof fn lemma_publish_partition(subs: Seq<SubscriptionView>)
    ensures
        delivery_targets(subs).len() + skipped_targets(subs).len() == confirmed_emails(subs).len(),
{
    lemma_valid_invalid_partition(confirmed_emails(subs));
}

} // verus!
