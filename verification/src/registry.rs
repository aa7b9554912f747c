//! Registry notifications: the inbound payload of image events, and the
//! extraction of the repositories that were pushed.

use vstd::prelude::*;

use crate::text::str_eq;

verus! {

/// One event inside a registry notification.
pub struct Event {
    pub action: String,
    pub target: Target,
}

/// The subject of an event: a repository and an optional tag.
pub struct Target {
    pub repository: String,
    pub tag: Option<String>,
}

/// An inbound registry notification: an ordered sequence of events.
pub struct RegistryNotification {
    pub events: Vec<Event>,
}

/// The repositories of the push events among `events`, in payload order,
/// duplicates kept.
pub open spec fn spec_push_repositories(events: Seq<Event>) -> Seq<Seq<char>>
    decreases events.len(),
{
    if events.len() == 0 {
        Seq::empty()
    } else {
        let rest = spec_push_repositories(events.drop_last());
        if events.last().action@ == "push"@ {
            rest.push(events.last().target.repository@)
        } else {
            rest
        }
    }
}

/// `spec_push_repositories` is exactly filter-then-map: the events whose
/// action is `"push"`, each replaced by its repository, in original
/// order, duplicates kept.
pub proof fn lemma_push_repositories_is_filter_map(events: Seq<Event>)
    ensures
        spec_push_repositories(events) == events.filter_map(
            |e: Event|
                if e.action@ == "push"@ {
                    Some(e.target.repository@)
                } else {
                    None
                },
        ),
    decreases events.len(),
{
    let f = |e: Event|
        if e.action@ == "push"@ {
            Some(e.target.repository@)
        } else {
            None
        };
    if events.len() == 0 {
        assert(spec_push_repositories(events) =~= events.filter_map(f));
    } else {
        lemma_push_repositories_is_filter_map(events.drop_last());
        if events.last().action@ == "push"@ {
            assert(spec_push_repositories(events) =~= events.drop_last().filter_map(f) + seq![
                events.last().target.repository@,
            ]);
        }
    }
}

/// How many events of `events` are pushes of repository `r`.
pub open spec fn spec_count_pushes(events: Seq<Event>, r: Seq<char>) -> nat
    decreases events.len(),
{
    if events.len() == 0 {
        0
    } else {
        spec_count_pushes(events.drop_last(), r) + (if events.last().action@ == "push"@
            && events.last().target.repository@ == r {
            1nat
        } else {
            0nat
        })
    }
}

/// How many entries of `repos` are `r`.
pub open spec fn spec_count_occurrences(repos: Seq<Seq<char>>, r: Seq<char>) -> nat
    decreases repos.len(),
{
    if repos.len() == 0 {
        0
    } else {
        spec_count_occurrences(repos.drop_last(), r) + (if repos.last() == r {
            1nat
        } else {
            0nat
        })
    }
}

/// Repeated repository names are not deduplicated: a notification with
/// exactly k push events for repository `r` yields exactly k occurrences
/// of `r`, one per event.
pub proof fn lemma_push_repositories_counts(events: Seq<Event>, r: Seq<char>)
    ensures
        spec_count_occurrences(spec_push_repositories(events), r) == spec_count_pushes(events, r),
    decreases events.len(),
{
    if events.len() > 0 {
        lemma_push_repositories_counts(events.drop_last(), r);
        if events.last().action@ == "push"@ {
            assert(spec_push_repositories(events.drop_last()).push(
                events.last().target.repository@,
            ).drop_last() =~= spec_push_repositories(events.drop_last()));
        }
    }
}

/// Only push events contribute a repository, each exactly where it
/// stands: appending a push event appends its repository, and appending
/// any other event changes nothing.
pub proof fn lemma_push_repositories_step(events: Seq<Event>, event: Event)
    ensures
        spec_push_repositories(events.push(event)) == if event.action@ == "push"@ {
            spec_push_repositories(events).push(event.target.repository@)
        } else {
            spec_push_repositories(events)
        },
{
    assert(events.push(event).drop_last() =~= events);
}

impl RegistryNotification {
    /// The repositories of events whose action is `"push"`, in payload
    /// order; repeated repository names are kept, one per event.
    pub fn push_repositories(&self) -> (repos: Vec<&str>)
        ensures
            repos.deep_view() == spec_push_repositories(self.events@),
    {
        let mut repos: Vec<&str> = Vec::new();
        let n = self.events.len();
        let mut i: usize = 0;
        while i < n
            invariant
                i <= n,
                n == self.events.len(),
                repos.deep_view() == spec_push_repositories(self.events@.subrange(0, i as int)),
            decreases n - i,
        {
            let event = &self.events[i];
            proof {
                assert(self.events@.subrange(0, i + 1 as int).drop_last() =~= self.events@.subrange(
                    0,
                    i as int,
                ));
                assert(self.events@.subrange(0, i + 1 as int).last() == self.events@[i as int]);
            }
            if str_eq(event.action.as_str(), "push") {
                repos.push(event.target.repository.as_str());
                proof {
                    assert(repos.deep_view() =~= spec_push_repositories(
                        self.events@.subrange(0, i + 1 as int),
                    ));
                }
            } else {
                proof {
                    assert(repos.deep_view() =~= spec_push_repositories(
                        self.events@.subrange(0, i + 1 as int),
                    ));
                }
            }
            i = i + 1;
        }
        proof {
            assert(self.events@.subrange(0, n as int) =~= self.events@);
        }
        repos
    }
}

} // verus!
