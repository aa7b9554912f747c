use stook::discovery::ContainerRecord;
use stook::discovery::DiscoveryCache;
use stook::discovery::Label;
use stook::discovery::RouteEntry;
use stook::discovery::RoutingTable;
use stook::discovery::build_table;
use stook::discovery::repo_from_image;
use stook::discovery::route_of;

fn label(key: &str, value: &str) -> Label {
    Label { key: key.to_string(), value: value.to_string() }
}

fn record(labels: Vec<Label>, image: Option<&str>) -> ContainerRecord {
    ContainerRecord { labels, image: image.map(|s| s.to_string()) }
}

#[test]
fn test_repo_from_image() {
    assert_eq!(repo_from_image("registry.local/myrepo:latest"), "myrepo");
    assert_eq!(repo_from_image("registry.local/org/myrepo:latest"), "org/myrepo");
    assert_eq!(repo_from_image("myrepo:latest"), "myrepo");
    assert_eq!(repo_from_image("myrepo"), "myrepo");
    assert_eq!(repo_from_image("localhost:5000/myrepo:v1"), "myrepo");
    assert_eq!(repo_from_image(""), "");
}

#[test]
fn repo_from_image_port_is_not_a_tag() {
    // A ':' with a '/' after it is a registry port, not a tag: nothing is
    // stripped from the end, and the host rule still removes the host.
    assert_eq!(repo_from_image("localhost:5000/myrepo"), "myrepo");
    assert_eq!(repo_from_image("registry.local:8443/org/myrepo"), "org/myrepo");
    assert_eq!(repo_from_image("localhost:5000/myrepo:v1"), "myrepo");
}

#[test]
fn repo_from_image_keeps_plain_path_segment() {
    // The first segment is stripped only when it contains '.' or ':'.
    assert_eq!(repo_from_image("org/myrepo:latest"), "org/myrepo");
    assert_eq!(repo_from_image("org/myrepo"), "org/myrepo");
}

#[test]
fn route_of_reads_explicit_image_label() {
    let rec = record(
        vec![
            label("stook.image", "myrepo"),
            label("com.docker.compose.project", "stackA"),
        ],
        None,
    );
    let entry = route_of(&rec).expect("a route");
    assert_eq!(entry.repository, "myrepo");
    assert_eq!(entry.target, "stackA");
}

#[test]
fn route_of_derives_key_from_image_reference() {
    let rec = record(
        vec![label("stook", "1"), label("com.docker.compose.project", "stackA")],
        Some("registry.local/myrepo:latest"),
    );
    let entry = route_of(&rec).expect("a route");
    assert_eq!(entry.repository, "myrepo");
    assert_eq!(entry.target, "stackA");
}

#[test]
fn route_of_skips_container_without_group_label() {
    let rec = record(vec![label("stook.image", "myrepo")], None);
    assert!(route_of(&rec).is_none());
}

#[test]
fn route_of_skips_marker_without_image_reference() {
    let rec = record(
        vec![label("stook", "1"), label("com.docker.compose.project", "stackA")],
        None,
    );
    assert!(route_of(&rec).is_none());
}

#[test]
fn route_of_prefers_explicit_image_label() {
    let rec = record(
        vec![
            label("stook", "1"),
            label("stook.image", "labelled"),
            label("com.docker.compose.project", "stackA"),
        ],
        Some("registry.local/from-image:latest"),
    );
    let entry = route_of(&rec).expect("a route");
    assert_eq!(entry.repository, "labelled");
}

#[test]
fn build_table_later_container_wins() {
    let records = vec![
        record(
            vec![label("stook.image", "myrepo"), label("com.docker.compose.project", "old")],
            None,
        ),
        record(
            vec![label("stook.image", "myrepo"), label("com.docker.compose.project", "new")],
            None,
        ),
    ];
    let table = build_table(&records);
    assert_eq!(table.lookup("myrepo"), Some("new".to_string()));
}

#[test]
fn routing_table_lookup_is_exact_match() {
    let table = RoutingTable {
        entries: vec![RouteEntry {
            repository: "myrepo".to_string(),
            target: "stackA".to_string(),
        }],
    };
    assert_eq!(table.lookup("myrepo"), Some("stackA".to_string()));
    assert_eq!(table.lookup("Myrepo"), None);
    assert_eq!(table.lookup("myrepo:latest"), None);
}

#[test]
fn fresh_cache_answers_without_runtime() {
    // A lookup within the TTL window returns what the refresh stored,
    // even though the runtime records have since changed.
    let records = vec![record(
        vec![label("stook.image", "myrepo"), label("com.docker.compose.project", "stackA")],
        None,
    )];
    let mut cache = DiscoveryCache::new(60_000);
    cache.complete_refresh(Ok(records), 1_000);
    let right_after = cache.lookup_cached("myrepo");

    // Within the TTL nothing is queried: the caller passes no outcome.
    assert!(!cache.needs_refresh(30_000));
    let within_ttl = cache.lookup("myrepo", 30_000, None);
    assert_eq!(within_ttl, right_after);
    assert_eq!(within_ttl, Some("stackA".to_string()));
}

#[test]
fn stale_cache_refreshes_once_before_answering() {
    let mut cache = DiscoveryCache::new(60_000);
    assert!(cache.needs_refresh(0));

    let records = vec![record(
        vec![label("stook.image", "myrepo"), label("com.docker.compose.project", "stackA")],
        None,
    )];
    let r = cache.lookup("myrepo", 5_000, Some(Ok(records)));
    assert_eq!(r, Some("stackA".to_string()));
    assert_eq!(cache.refreshed_at, Some(5_000));
    assert!(!cache.needs_refresh(5_001));

    // The TTL elapses; the next lookup applies exactly one new refresh.
    assert!(cache.needs_refresh(70_000));
    let newer = vec![record(
        vec![label("stook.image", "myrepo"), label("com.docker.compose.project", "stackB")],
        None,
    )];
    let r = cache.lookup("myrepo", 70_000, Some(Ok(newer)));
    assert_eq!(r, Some("stackB".to_string()));
    assert_eq!(cache.refreshed_at, Some(70_000));
}

#[test]
fn failed_refresh_keeps_last_good_table() {
    let records = vec![record(
        vec![label("stook.image", "myrepo"), label("com.docker.compose.project", "stackA")],
        None,
    )];
    let mut cache = DiscoveryCache::new(1_000);
    cache.complete_refresh(Ok(records), 0);

    // The TTL has elapsed and the runtime query fails: the stale table
    // still answers, and the timestamp is untouched.
    assert!(cache.needs_refresh(5_000));
    let r = cache.lookup("myrepo", 5_000, Some(Err("runtime unreachable".to_string())));
    assert_eq!(r, Some("stackA".to_string()));
    assert_eq!(cache.refreshed_at, Some(0));
}

#[test]
fn empty_cache_misses_until_refreshed() {
    let cache = DiscoveryCache::new(60_000);
    assert_eq!(cache.lookup_cached("myrepo"), None);
    assert!(cache.needs_refresh(0));
}
