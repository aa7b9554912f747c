//! The routing dispatcher: turns one parsed notification into the ordered
//! list of action invocations, one per pushed repository that the lookup
//! resolves, and decides what the webhook boundary answers.
//!
//! Failures below this boundary are absorbed: a lookup miss skips the key,
//! a failed action never aborts the keys after it, and the inbound caller
//! sees success whenever the payload parsed.

use vstd::prelude::*;

use crate::discovery::RoutingTable;
use crate::discovery::map_entry;
use crate::registry::RegistryNotification;
use crate::registry::spec_push_repositories;

verus! {

/// The discovery capability as the dispatcher sees it: resolve a
/// repository to a deployment target, or to nothing. Production and test
/// implementations both satisfy it.
pub trait WebhookLookup {
    /// What this lookup resolves `repository` to.
    spec fn lookup_spec(&self, repository: Seq<char>) -> Option<Seq<char>>;

    /// Resolves `repository`, returning exactly what `lookup_spec` says.
    fn lookup(&self, repository: &str) -> (r: Option<String>)
        ensures
            r.deep_view() == self.lookup_spec(repository@),
    ;
}

impl WebhookLookup for RoutingTable {
    open spec fn lookup_spec(&self, repository: Seq<char>) -> Option<Seq<char>> {
        map_entry(self@, repository)
    }

    fn lookup(&self, repository: &str) -> (r: Option<String>) {
        RoutingTable::lookup(self, repository)
    }
}

/// The targets the dispatcher invokes for `repos`, in order: one per
/// repository the lookup resolves, misses skipped, duplicates kept.
pub open spec fn spec_invocations<L: WebhookLookup>(lookup: &L, repos: Seq<Seq<char>>) -> Seq<
    Seq<char>,
>
    decreases repos.len(),
{
    if repos.len() == 0 {
        Seq::empty()
    } else {
        let rest = spec_invocations(lookup, repos.drop_last());
        match lookup.lookup_spec(repos.last()) {
            Some(target) => rest.push(target),
            None => rest,
        }
    }
}

/// `spec_invocations` is exactly filter-map over the lookup: each
/// repository the lookup resolves is replaced by its target, each miss
/// disappears, and the order is kept.
pub proof fn lemma_invocations_is_filter_map<L: WebhookLookup>(lookup: &L, repos: Seq<Seq<char>>)
    ensures
        spec_invocations(lookup, repos) == repos.filter_map(
            |r: Seq<char>| lookup.lookup_spec(r),
        ),
    decreases repos.len(),
{
    let f = |r: Seq<char>| lookup.lookup_spec(r);
    if repos.len() == 0 {
        assert(spec_invocations(lookup, repos) =~= repos.filter_map(f));
    } else {
        lemma_invocations_is_filter_map(lookup, repos.drop_last());
        if lookup.lookup_spec(repos.last()) is Some {
            assert(spec_invocations(lookup, repos) =~= repos.drop_last().filter_map(f) + seq![
                lookup.lookup_spec(repos.last())->Some_0,
            ]);
        }
    }
}

/// Resolves each pushed repository in payload order and returns the
/// targets to invoke, one per hit; a miss is an ignored event, not an
/// error, and never stops the keys after it.
pub fn invocation_targets<L: WebhookLookup>(lookup: &L, repos: &Vec<&str>) -> (targets: Vec<
    String,
>)
    ensures
        targets.deep_view() == spec_invocations(lookup, repos.deep_view()),
{
    let mut targets: Vec<String> = Vec::new();
    let n = repos.len();
    let mut i: usize = 0;
    while i < n
        invariant
            i <= n,
            n == repos.len(),
            targets.deep_view() == spec_invocations(lookup, repos.deep_view().subrange(0, i as int)),
        decreases n - i,
    {
        proof {
            assert(repos.deep_view().subrange(0, i + 1 as int).drop_last() =~= repos.deep_view()
                .subrange(0, i as int));
            assert(repos.deep_view().subrange(0, i + 1 as int).last() == repos@[i as int]@);
        }
        match lookup.lookup(repos[i]) {
            Some(target) => {
                targets.push(target);
                proof {
                    assert(targets.deep_view() =~= spec_invocations(
                        lookup,
                        repos.deep_view().subrange(0, i + 1 as int),
                    ));
                }
            },
            None => {
                proof {
                    assert(targets.deep_view() =~= spec_invocations(
                        lookup,
                        repos.deep_view().subrange(0, i + 1 as int),
                    ));
                }
            },
        }
        i = i + 1;
    }
    proof {
        assert(repos.deep_view().subrange(0, n as int) =~= repos.deep_view());
    }
    targets
}

/// What one inbound webhook call comes to: whether the payload was
/// accepted, and the action invocations to run, in payload order.
pub struct DispatchPlan {
    pub accepted: bool,
    pub invocations: Vec<String>,
}

/// Decides one inbound webhook call from its parse outcome: a payload
/// that did not parse is rejected and causes no invocation at all; a
/// parsed one is accepted — always, whatever the lookups or the actions
/// below come to — and its push events map to invocations in payload
/// order, one per resolved repository.
pub fn plan_webhook<L: WebhookLookup>(lookup: &L, parsed: Option<&RegistryNotification>) -> (plan:
    DispatchPlan)
    ensures
        plan.accepted == (parsed is Some),
        match parsed {
            None => plan.invocations@.len() == 0,
            Some(notification) => plan.invocations.deep_view() == spec_invocations(
                lookup,
                spec_push_repositories(notification.events@),
            ),
        },
{
    match parsed {
        None => DispatchPlan { accepted: false, invocations: Vec::new() },
        Some(notification) => {
            let repos = notification.push_repositories();
            let invocations = invocation_targets(lookup, &repos);
            DispatchPlan { accepted: true, invocations }
        },
    }
}

} // verus!
