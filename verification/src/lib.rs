//! Double opt-in mailing-list subscription service.
//!
//! The crate models the subscription lifecycle: validated sign-up data is
//! persisted as a pending subscriber together with a single-use confirmation
//! token inside one atomic transaction, a confirmation request transitions the
//! subscriber to confirmed, and a newsletter issue fans out to every confirmed
//! subscriber while isolating per-recipient failures.

pub mod domain;
pub mod store;
pub mod email_client;
pub mod error;
pub mod subscription;
pub mod subscription_confirm;
pub mod newsletters;
