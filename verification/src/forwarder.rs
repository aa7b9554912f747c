//! The forward strategy: one outbound call to the discovered webhook URL,
//! fire-and-forget. The call itself is I/O and lives with the caller;
//! this trait is the shape both the production forwarder and any test
//! double implement. A failed forward is logged by the implementation and
//! neither retried nor propagated.

use vstd::prelude::*;

verus! {

/// The forward strategy as its callers see it: deliver one notification
/// to `webhook_url`; the outcome is deliberately not reported.
pub trait WebhookForwarder {
    fn forward(&self, webhook_url: &str);
}

} // verus!
