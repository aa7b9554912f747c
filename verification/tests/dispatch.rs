use stook::dispatch::invocation_targets;
use stook::dispatch::plan_webhook;
use stook::discovery::RouteEntry;
use stook::discovery::RoutingTable;
use stook::registry::Event;
use stook::registry::RegistryNotification;
use stook::registry::Target;

fn table(routes: &[(&str, &str)]) -> RoutingTable {
    RoutingTable {
        entries: routes
            .iter()
            .map(|(repository, target)| RouteEntry {
                repository: repository.to_string(),
                target: target.to_string(),
            })
            .collect(),
    }
}

fn event(action: &str, repository: &str) -> Event {
    Event {
        action: action.to_string(),
        target: Target { repository: repository.to_string(), tag: Some("latest".to_string()) },
    }
}

#[test]
fn matching_repo_invoked_once() {
    let table = table(&[("myrepo", "stackA")]);
    let n = RegistryNotification { events: vec![event("push", "myrepo")] };
    let plan = plan_webhook(&table, Some(&n));
    assert!(plan.accepted);
    assert_eq!(plan.invocations, vec!["stackA".to_string()]);
}

#[test]
fn unmatched_repo_not_invoked() {
    let table = table(&[("myrepo", "stackA")]);
    let n = RegistryNotification { events: vec![event("push", "unknown")] };
    let plan = plan_webhook(&table, Some(&n));
    assert!(plan.accepted);
    assert!(plan.invocations.is_empty());
}

#[test]
fn mixed_push_pull_only_push_invoked() {
    let table = table(&[("a", "stack-a"), ("b", "stack-b")]);
    let n = RegistryNotification { events: vec![event("push", "a"), event("pull", "b")] };
    let plan = plan_webhook(&table, Some(&n));
    assert!(plan.accepted);
    assert_eq!(plan.invocations, vec!["stack-a".to_string()]);
}

#[test]
fn invocations_follow_payload_order() {
    let table = table(&[("a", "stack-a"), ("b", "stack-b")]);
    let n = RegistryNotification {
        events: vec![
            event("push", "b"),
            event("push", "missing"),
            event("push", "a"),
            event("push", "b"),
        ],
    };
    let plan = plan_webhook(&table, Some(&n));
    assert_eq!(
        plan.invocations,
        vec!["stack-b".to_string(), "stack-a".to_string(), "stack-b".to_string()]
    );
}

#[test]
fn unparsed_payload_rejected_without_invocations() {
    let table = table(&[("myrepo", "stackA")]);
    let plan = plan_webhook(&table, None);
    assert!(!plan.accepted);
    assert!(plan.invocations.is_empty());
}

#[test]
fn lookup_misses_skip_without_aborting() {
    let table = table(&[("a", "stack-a")]);
    let repos = vec!["missing", "a", "missing", "a"];
    let targets = invocation_targets(&table, &repos);
    assert_eq!(targets, vec!["stack-a".to_string(), "stack-a".to_string()]);
}
