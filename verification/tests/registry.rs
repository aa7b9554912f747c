use stook::registry::Event;
use stook::registry::RegistryNotification;
use stook::registry::Target;

fn event(action: &str, repository: &str) -> Event {
    Event {
        action: action.to_string(),
        target: Target { repository: repository.to_string(), tag: None },
    }
}

#[test]
fn push_repositories_filters_push_events() {
    let n = RegistryNotification {
        events: vec![event("push", "a"), event("pull", "b"), event("push", "c")],
    };
    assert_eq!(n.push_repositories(), vec!["a", "c"]);
}

#[test]
fn push_repositories_empty_for_non_push() {
    let n = RegistryNotification { events: vec![event("pull", "x")] };
    assert!(n.push_repositories().is_empty());
}

#[test]
fn push_repositories_empty_events() {
    let n = RegistryNotification { events: vec![] };
    assert!(n.push_repositories().is_empty());
}

#[test]
fn push_repositories_keeps_duplicates_in_order() {
    let n = RegistryNotification {
        events: vec![
            event("push", "same"),
            event("pull", "same"),
            event("push", "same"),
            event("push", "other"),
        ],
    };
    assert_eq!(n.push_repositories(), vec!["same", "same", "other"]);
}

#[test]
fn push_repositories_keeps_tagged_events() {
    let n = RegistryNotification {
        events: vec![Event {
            action: "push".to_string(),
            target: Target {
                repository: "myrepo".to_string(),
                tag: Some("latest".to_string()),
            },
        }],
    };
    assert_eq!(n.push_repositories(), vec!["myrepo"]);
}
