//! Discovery: derives a routing table from container label metadata and
//! serves TTL-bound lookups from it.
//!
//! The container runtime itself is an external collaborator; this module
//! works on plain records of labels and image references handed in by the
//! caller, and owns every decision: which containers contribute a route,
//! what the repository key of each is, when the cache must be rebuilt, and
//! that a rebuild replaces table and timestamp together.

use vstd::prelude::*;

use crate::text::str_eq;

verus! {

/// The prefix of `s` before a trailing `:tag`, or `None` when `s` does
/// not end in one. Scanning from the end, a `:` met before any `/` starts
/// a tag; a `/` met first means any `:` further left sits inside a
/// registry host — a port — and is no tag.
pub open spec fn strip_trailing_tag(s: Seq<char>) -> Option<Seq<char>>
    decreases s.len(),
{
    if s.len() == 0 {
        None
    } else if s.last() == ':' {
        Some(s.drop_last())
    } else if s.last() == '/' {
        None
    } else {
        strip_trailing_tag(s.drop_last())
    }
}

/// The index of the first occurrence of `c` in `s`, or `None` when `c`
/// does not occur in `s`.
pub open spec fn first_index_of(s: Seq<char>, c: char) -> Option<int>
    decreases s.len(),
{
    if s.len() == 0 {
        None
    } else if s[0] == c {
        Some(0int)
    } else {
        match first_index_of(s.drop_first(), c) {
            Some(i) => Some(i + 1),
            None => None,
        }
    }
}

/// An image reference with its trailing `:tag` removed, when it has one.
/// A tag is what follows the last `:`, provided no `/` follows that `:`;
/// a `:` with a `/` after it is a registry port, and nothing is stripped.
pub open spec fn spec_strip_tag(s: Seq<char>) -> Seq<char> {
    match strip_trailing_tag(s) {
        Some(p) => p,
        None => s,
    }
}

/// The repository key of an image reference: strip a trailing `:tag` (a
/// tag follows the last `:` and holds no `/`), then strip the first path
/// segment exactly when it is a registry host, that is, when it contains
/// a `.` or a `:`. The empty reference yields the empty key.
pub open spec fn spec_repo_from_image(s: Seq<char>) -> Seq<char> {
    let without_tag = spec_strip_tag(s);
    match first_index_of(without_tag, '/') {
        Some(i) => {
            let head = without_tag.subrange(0, i);
            if head.contains('.') || head.contains(':') {
                without_tag.subrange(i + 1, without_tag.len() as int)
            } else {
                without_tag
            }
        },
        None => without_tag,
    }
}

/// Exactly one trailing `:tag` is stripped: a reference that ends in one
/// tag — a `:` followed by text holding neither `:` nor `/` — loses that
/// tag and nothing else, whatever colons the rest still holds.
pub proof fn lemma_strip_tag_strips_one(rest: Seq<char>, tag: Seq<char>)
    requires
        !tag.contains(':'),
        !tag.contains('/'),
    ensures
        spec_strip_tag(rest + seq![':'] + tag) == rest,
{
    let s = rest + seq![':'] + tag;
    let j = rest.len() as int;
    assert(s[j] == ':');
    assert forall|k: int| j < k < s.len() implies s[k] != ':' && s[k] != '/' by {
        assert(s[k] == tag[k - j - 1]);
        assert(!(exists|i: int| 0 <= i < tag.len() && tag[i] == ':'));
        assert(!(exists|i: int| 0 <= i < tag.len() && tag[i] == '/'));
    }
    lemma_strip_trailing_tag_at(s, j);
    assert(s.subrange(0, j) =~= rest);
}

/// A reference with no `:` at all keeps its full length: nothing but a
/// tag is ever stripped from the end.
pub proof fn lemma_strip_tag_keeps_untagged(s: Seq<char>)
    requires
        !s.contains(':'),
    ensures
        spec_strip_tag(s) == s,
{
    assert forall|k: int| 0 <= k < s.len() implies s[k] != ':' by {
        assert(!(exists|i: int| 0 <= i < s.len() && s[i] == ':'));
    }
    lemma_strip_trailing_tag_no_colon(s);
}

/// A `:` with a `/` after it is a registry port, not a tag, and nothing
/// is stripped: here `p` is the last `/` of the reference, and no `:`
/// follows it.
pub proof fn lemma_port_is_not_a_tag(s: Seq<char>, p: int)
    requires
        0 <= p < s.len(),
        s[p] == '/',
        forall|k: int| p < k < s.len() ==> s[k] != ':' && s[k] != '/',
    ensures
        spec_strip_tag(s) == s,
{
    lemma_strip_trailing_tag_slash_after(s, p);
}

proof fn lemma_strip_trailing_tag_at(s: Seq<char>, j: int)
    requires
        0 <= j < s.len(),
        s[j] == ':',
        forall|k: int| j < k < s.len() ==> s[k] != ':' && s[k] != '/',
    ensures
        strip_trailing_tag(s) == Some(s.subrange(0, j)),
    decreases s.len(),
{
    if s.last() == ':' {
        assert(j == s.len() - 1);
        assert(s.subrange(0, j) =~= s.drop_last());
    } else {
        assert(j < s.len() - 1);
        assert(s.last() != '/');
        let t = s.drop_last();
        lemma_strip_trailing_tag_at(t, j);
        assert(t.subrange(0, j) =~= s.subrange(0, j));
    }
}

proof fn lemma_strip_trailing_tag_no_colon(s: Seq<char>)
    requires
        forall|k: int| 0 <= k < s.len() ==> s[k] != ':',
    ensures
        strip_trailing_tag(s) is None,
    decreases s.len(),
{
    if s.len() > 0 && s.last() != '/' {
        lemma_strip_trailing_tag_no_colon(s.drop_last());
    }
}

proof fn lemma_strip_trailing_tag_slash_after(s: Seq<char>, p: int)
    requires
        0 <= p < s.len(),
        s[p] == '/',
        forall|k: int| p < k < s.len() ==> s[k] != ':' && s[k] != '/',
    ensures
        strip_trailing_tag(s) is None,
    decreases s.len(),
{
    if p < s.len() - 1 {
        assert(s.last() != ':' && s.last() != '/');
        lemma_strip_trailing_tag_slash_after(s.drop_last(), p);
    }
}

proof fn lemma_first_index_of_at(s: Seq<char>, c: char, j: int)
    requires
        0 <= j < s.len(),
        s[j] == c,
        forall|k: int| 0 <= k < j ==> s[k] != c,
    ensures
        first_index_of(s, c) == Some(j),
    decreases s.len(),
{
    if s[0] == c {
        assert(j == 0);
    } else {
        assert(j > 0);
        lemma_first_index_of_at(s.drop_first(), c, j - 1);
    }
}

proof fn lemma_first_index_of_none(s: Seq<char>, c: char)
    requires
        forall|k: int| 0 <= k < s.len() ==> s[k] != c,
    ensures
        first_index_of(s, c) is None,
    decreases s.len(),
{
    if s.len() > 0 {
        lemma_first_index_of_none(s.drop_first(), c);
    }
}

/// The repository key of an image reference, per the repository-name
/// heuristic: exactly one trailing `:tag` is stripped — a `:` with a `/`
/// after it is a registry port, not a tag — and the first path segment is
/// stripped only when it contains `.` or `:` (a registry host).
pub fn repo_from_image<'a>(image: &'a str) -> (r: &'a str)
    ensures
        r@ == spec_repo_from_image(image@),
{
    let len = image.unicode_len();

    // Last ':' in the reference, if any.
    let mut colon: Option<usize> = None;
    let mut i: usize = 0;
    while i < len
        invariant
            i <= len,
            len == image@.len(),
            match colon {
                Some(j) => j < i && image@[j as int] == ':' && (forall|k: int|
                    j < k < i ==> image@[k] != ':'),
                None => forall|k: int| 0 <= k < i ==> image@[k] != ':',
            },
        decreases len - i,
    {
        if image.get_char(i) == ':' {
            colon = Some(i);
        }
        i = i + 1;
    }

    let without_tag = match colon {
        Some(j) => {
            // Last '/' after that ':', if any: its presence makes the ':'
            // a registry port rather than a tag.
            let mut slash_after: Option<usize> = None;
            let mut k: usize = j + 1;
            while k < len
                invariant
                    j < len,
                    j + 1 <= k <= len,
                    len == image@.len(),
                    match slash_after {
                        Some(p) => j < p < k && image@[p as int] == '/' && (forall|m: int|
                            p < m < k ==> image@[m] != '/'),
                        None => forall|m: int| j < m < k ==> image@[m] != '/',
                    },
                decreases len - k,
            {
                if image.get_char(k) == '/' {
                    slash_after = Some(k);
                }
                k = k + 1;
            }
            match slash_after {
                Some(p) => {
                    proof {
                        lemma_strip_trailing_tag_slash_after(image@, p as int);
                    }
                    image
                },
                None => {
                    proof {
                        lemma_strip_trailing_tag_at(image@, j as int);
                    }
                    image.substring_char(0, j)
                },
            }
        },
        None => {
            proof {
                lemma_strip_trailing_tag_no_colon(image@);
            }
            image
        },
    };
    assert(without_tag@ == spec_strip_tag(image@));

    // First '/' in the remainder, if any.
    let wlen = without_tag.unicode_len();
    let mut slash: Option<usize> = None;
    let mut i: usize = 0;
    while i < wlen
        invariant
            i <= wlen,
            wlen == without_tag@.len(),
            match slash {
                Some(j) => j < i && without_tag@[j as int] == '/' && (forall|k: int|
                    0 <= k < j ==> without_tag@[k] != '/'),
                None => forall|k: int| 0 <= k < i ==> without_tag@[k] != '/',
            },
        decreases wlen - i,
    {
        if slash.is_none() && without_tag.get_char(i) == '/' {
            slash = Some(i);
        }
        i = i + 1;
    }

    match slash {
        Some(j) => {
            proof {
                lemma_first_index_of_at(without_tag@, '/', j as int);
            }
            // Does the first segment name a registry host?
            let mut is_host = false;
            let mut k: usize = 0;
            while k < j
                invariant
                    k <= j,
                    j < wlen,
                    wlen == without_tag@.len(),
                    without_tag@[j as int] == '/',
                    is_host == exists|k2: int|
                        0 <= k2 < k && (without_tag@[k2] == '.' || without_tag@[k2] == ':'),
                decreases j - k,
            {
                let c = without_tag.get_char(k);
                if c == '.' || c == ':' {
                    is_host = true;
                }
                k = k + 1;
            }
            proof {
                let head = without_tag@.subrange(0, j as int);
                assert(forall|k2: int| 0 <= k2 < j ==> head[k2] == without_tag@[k2]);
                if is_host {
                    let k2 = choose|k2: int|
                        0 <= k2 < j && (without_tag@[k2] == '.' || without_tag@[k2] == ':');
                    if without_tag@[k2] == '.' {
                        assert(head.contains('.')) by {
                            assert(head[k2] == '.');
                        }
                    } else {
                        assert(head.contains(':')) by {
                            assert(head[k2] == ':');
                        }
                    }
                } else {
                    assert(!head.contains('.')) by {
                        assert(forall|k2: int| 0 <= k2 < head.len() ==> head[k2] != '.');
                    }
                    assert(!head.contains(':')) by {
                        assert(forall|k2: int| 0 <= k2 < head.len() ==> head[k2] != ':');
                    }
                }
                assert(is_host == (head.contains('.') || head.contains(':')));
            }
            if is_host {
                without_tag.substring_char(j + 1, wlen)
            } else {
                without_tag
            }
        },
        None => {
            proof {
                lemma_first_index_of_none(without_tag@, '/');
            }
            without_tag
        },
    }
}

/// One label on a container: a key/value pair.
pub struct Label {
    pub key: String,
    pub value: String,
}

/// What discovery reads of one container: its labels and its image
/// reference, if it has one.
pub struct ContainerRecord {
    pub labels: Vec<Label>,
    pub image: Option<String>,
}

/// One routing entry: a repository key and the deployment target it
/// resolves to (a webhook URL or a stack name).
pub struct RouteEntry {
    pub repository: String,
    pub target: String,
}

/// A routing table: repository key to deployment target, later entries
/// overriding earlier ones. Keys are case-sensitive, exact match.
pub struct RoutingTable {
    pub entries: Vec<RouteEntry>,
}

/// The map an entry list denotes: entries applied in order, last wins.
pub open spec fn routes_map(entries: Seq<RouteEntry>) -> Map<Seq<char>, Seq<char>>
    decreases entries.len(),
{
    if entries.len() == 0 {
        Map::empty()
    } else {
        routes_map(entries.drop_last()).insert(
            entries.last().repository@,
            entries.last().target@,
        )
    }
}

impl View for RoutingTable {
    type V = Map<Seq<char>, Seq<char>>;

    open spec fn view(&self) -> Map<Seq<char>, Seq<char>> {
        routes_map(self.entries@)
    }
}

/// The value a map holds at `key`, as an option.
pub open spec fn map_entry(m: Map<Seq<char>, Seq<char>>, key: Seq<char>) -> Option<Seq<char>> {
    if m.contains_key(key) {
        Some(m[key])
    } else {
        None
    }
}

proof fn lemma_routes_map_at(entries: Seq<RouteEntry>, j: int)
    requires
        0 <= j < entries.len(),
        forall|k: int| j < k < entries.len() ==> entries[k].repository@ != entries[j].repository@,
    ensures
        routes_map(entries).contains_key(entries[j].repository@),
        routes_map(entries)[entries[j].repository@] == entries[j].target@,
    decreases entries.len(),
{
    if j < entries.len() - 1 {
        lemma_routes_map_at(entries.drop_last(), j);
    }
}

proof fn lemma_routes_map_absent(entries: Seq<RouteEntry>, key: Seq<char>)
    requires
        forall|k: int| 0 <= k < entries.len() ==> entries[k].repository@ != key,
    ensures
        !routes_map(entries).contains_key(key),
    decreases entries.len(),
{
    if entries.len() > 0 {
        lemma_routes_map_absent(entries.drop_last(), key);
    }
}

impl RoutingTable {
    /// An empty routing table.
    pub fn empty() -> (t: Self)
        ensures
            t@ == Map::<Seq<char>, Seq<char>>::empty(),
    {
        RoutingTable { entries: Vec::new() }
    }

    /// The target stored for `repository`, or `None` when the table holds
    /// no entry for it.
    pub fn lookup(&self, repository: &str) -> (r: Option<String>)
        ensures
            r.deep_view() == map_entry(self@, repository@),
    {
        let n = self.entries.len();
        let mut i: usize = n;
        while i > 0
            invariant
                i <= n,
                n == self.entries.len(),
                forall|k: int| i <= k < n ==> self.entries@[k].repository@ != repository@,
            decreases i,
        {
            i = i - 1;
            let entry = &self.entries[i];
            if str_eq(entry.repository.as_str(), repository) {
                proof {
                    lemma_routes_map_at(self.entries@, i as int);
                }
                return Some(entry.target.clone());
            }
        }
        proof {
            lemma_routes_map_absent(self.entries@, repository@);
        }
        None
    }
}

/// The value of the first label named `key`, or `None` when no label has
/// that key.
pub open spec fn label_value(labels: Seq<Label>, key: Seq<char>) -> Option<Seq<char>>
    decreases labels.len(),
{
    if labels.len() == 0 {
        None
    } else if labels[0].key@ == key {
        Some(labels[0].value@)
    } else {
        label_value(labels.drop_first(), key)
    }
}

proof fn lemma_label_value_at(labels: Seq<Label>, key: Seq<char>, j: int)
    requires
        0 <= j < labels.len(),
        labels[j].key@ == key,
        forall|k: int| 0 <= k < j ==> labels[k].key@ != key,
    ensures
        label_value(labels, key) == Some(labels[j].value@),
    decreases labels.len(),
{
    if labels[0].key@ != key {
        lemma_label_value_at(labels.drop_first(), key, j - 1);
    }
}

proof fn lemma_label_value_none(labels: Seq<Label>, key: Seq<char>)
    requires
        forall|k: int| 0 <= k < labels.len() ==> labels[k].key@ != key,
    ensures
        label_value(labels, key) is None,
    decreases labels.len(),
{
    if labels.len() > 0 {
        lemma_label_value_none(labels.drop_first(), key);
    }
}

/// The value of the first label of `labels` named `key`, if any.
pub fn find_label<'a>(labels: &'a Vec<Label>, key: &str) -> (r: Option<&'a String>)
    ensures
        r.deep_view() == label_value(labels@, key@),
{
    let n = labels.len();
    let mut i: usize = 0;
    while i < n
        invariant
            i <= n,
            n == labels.len(),
            forall|k: int| 0 <= k < i ==> labels@[k].key@ != key@,
        decreases n - i,
    {
        let label = &labels[i];
        if str_eq(label.key.as_str(), key) {
            proof {
                lemma_label_value_at(labels@, key@, i as int);
            }
            return Some(&label.value);
        }
        i = i + 1;
    }
    proof {
        lemma_label_value_none(labels@, key@);
    }
    None
}

/// The label whose value names the repository key explicitly.
pub open spec fn spec_image_label() -> Seq<char> {
    "stook.image"@
}

/// The marker label: its presence opts a container in, with the key
/// derived from the container's image reference.
pub open spec fn spec_marker_label() -> Seq<char> {
    "stook"@
}

/// The deployment-group label; its value is the deployment target.
pub open spec fn spec_group_label() -> Seq<char> {
    "com.docker.compose.project"@
}

/// The image reference a record carries, the empty reference when absent.
pub open spec fn spec_image_ref(rec: ContainerRecord) -> Seq<char> {
    match rec.image {
        Some(s) => s@,
        None => Seq::empty(),
    }
}

/// The route one container contributes, if any: a container without the
/// deployment-group label is skipped; the repository key comes from the
/// explicit image label when present, else from the image reference when
/// the marker label is present; an empty key contributes nothing.
pub open spec fn spec_route_of(rec: ContainerRecord) -> Option<(Seq<char>, Seq<char>)> {
    match label_value(rec.labels@, spec_group_label()) {
        None => None,
        Some(group) => {
            let repo = match label_value(rec.labels@, spec_image_label()) {
                Some(img) => Some(img),
                None => match label_value(rec.labels@, spec_marker_label()) {
                    Some(_) => Some(spec_repo_from_image(spec_image_ref(rec))),
                    None => None,
                },
            };
            match repo {
                None => None,
                Some(r) => if r.len() == 0 {
                    None
                } else {
                    Some((r, group))
                },
            }
        },
    }
}

/// The route one container record contributes to the table, if any.
pub fn route_of(rec: &ContainerRecord) -> (r: Option<RouteEntry>)
    ensures
        match r {
            Some(entry) => spec_route_of(*rec) == Some((entry.repository@, entry.target@)),
            None => spec_route_of(*rec) is None,
        },
{
    let group = match find_label(&rec.labels, "com.docker.compose.project") {
        Some(g) => g.clone(),
        None => {
            return None;
        },
    };
    let repo: String = match find_label(&rec.labels, "stook.image") {
        Some(img) => img.clone(),
        None => {
            match find_label(&rec.labels, "stook") {
                Some(_) => {
                    match &rec.image {
                        Some(image_ref) => repo_from_image(image_ref.as_str()).to_owned(),
                        None => String::new(),
                    }
                },
                None => {
                    return None;
                },
            }
        },
    };
    if repo.as_str().unicode_len() == 0 {
        proof {
            assert(repo@ =~= Seq::<char>::empty());
        }
        None
    } else {
        Some(RouteEntry { repository: repo, target: group })
    }
}

/// The routing table one snapshot of container records builds: each
/// record's route applied in order, later records overriding earlier ones.
pub open spec fn table_of(records: Seq<ContainerRecord>) -> Map<Seq<char>, Seq<char>>
    decreases records.len(),
{
    if records.len() == 0 {
        Map::empty()
    } else {
        let m = table_of(records.drop_last());
        match spec_route_of(records.last()) {
            None => m,
            Some(kv) => m.insert(kv.0, kv.1),
        }
    }
}

/// Builds the routing table of one complete snapshot of container records.
pub fn build_table(records: &Vec<ContainerRecord>) -> (t: RoutingTable)
    ensures
        t@ == table_of(records@),
{
    let mut entries: Vec<RouteEntry> = Vec::new();
    let n = records.len();
    let mut i: usize = 0;
    while i < n
        invariant
            i <= n,
            n == records.len(),
            routes_map(entries@) == table_of(records@.subrange(0, i as int)),
        decreases n - i,
    {
        proof {
            assert(records@.subrange(0, i + 1 as int).drop_last() =~= records@.subrange(
                0,
                i as int,
            ));
            assert(records@.subrange(0, i + 1 as int).last() == records@[i as int]);
        }
        match route_of(&records[i]) {
            Some(entry) => {
                let ghost prev = entries@;
                entries.push(entry);
                proof {
                    assert(entries@.drop_last() =~= prev);
                }
            },
            None => {},
        }
        i = i + 1;
    }
    proof {
        assert(records@.subrange(0, n as int) =~= records@);
    }
    RoutingTable { entries }
}

/// The TTL-bound discovery cache: a routing table plus the time it was
/// last refreshed. Created empty; only a completed refresh replaces the
/// table, and it replaces table and timestamp together.
pub struct DiscoveryCache {
    pub table: RoutingTable,
    pub refreshed_at: Option<u64>,
    pub ttl_millis: u64,
}

/// What one lookup returns, given the cache, the time, and — consulted
/// only when the cache is stale — the outcome of the runtime query: a
/// fresh cache answers from its table; a stale one answers from the
/// rebuilt table when the query succeeded, and from its last good table
/// when the query failed.
pub open spec fn spec_lookup_outcome(
    cache: DiscoveryCache,
    now: u64,
    query: Result<Seq<ContainerRecord>, Seq<char>>,
    key: Seq<char>,
) -> Option<Seq<char>> {
    if cache.fresh(now) {
        map_entry(cache.table@, key)
    } else {
        match query {
            Ok(records) => map_entry(table_of(records), key),
            Err(_) => map_entry(cache.table@, key),
        }
    }
}

impl DiscoveryCache {
    /// Whether the cache is within its TTL window: it has been refreshed,
    /// and less than `ttl_millis` have elapsed since.
    pub open spec fn fresh(self, now: u64) -> bool {
        match self.refreshed_at {
            Some(t) => t <= now && now - t < self.ttl_millis,
            None => false,
        }
    }

    /// A cache that has never been refreshed: empty table, no timestamp.
    pub fn new(ttl_millis: u64) -> (c: Self)
        ensures
            c.table@ == Map::<Seq<char>, Seq<char>>::empty(),
            c.refreshed_at is None,
            c.ttl_millis == ttl_millis,
    {
        DiscoveryCache { table: RoutingTable::empty(), refreshed_at: None, ttl_millis }
    }

    /// Whether a lookup at `now` must rebuild the table before answering.
    pub fn needs_refresh(&self, now: u64) -> (r: bool)
        ensures
            r == !self.fresh(now),
    {
        match self.refreshed_at {
            Some(t) => !(t <= now && now - t < self.ttl_millis),
            None => true,
        }
    }

    /// Reads the stored table without consulting the runtime.
    pub fn lookup_cached(&self, repository: &str) -> (r: Option<String>)
        ensures
            r.deep_view() == map_entry(self.table@, repository@),
    {
        self.table.lookup(repository)
    }

    /// Completes one refresh attempt: a successful runtime query replaces
    /// the table and the timestamp together, atomically from any reader's
    /// point of view; a failed query leaves the cache exactly as it was
    /// (stale but available), surfacing the error nowhere but to the
    /// caller's observability channel.
    pub fn complete_refresh(&mut self, query: Result<Vec<ContainerRecord>, String>, now: u64)
        ensures
            match query {
                Ok(records) => {
                    &&& final(self).table@ == table_of(records@)
                    &&& final(self).refreshed_at == Some(now)
                    &&& final(self).ttl_millis == old(self).ttl_millis
                },
                Err(_) => *final(self) == *old(self),
            },
    {
        match query {
            Ok(records) => {
                self.table = build_table(&records);
                self.refreshed_at = Some(now);
            },
            Err(_) => {},
        }
    }

    /// One full lookup: answer from the stored table when fresh; when
    /// stale, apply the caller's completed runtime query as one refresh,
    /// then answer from the now-current table. The caller queries the
    /// runtime exactly when the cache is stale, so `query` is `Some`
    /// exactly then.
    pub fn lookup(&mut self, repository: &str, now: u64, query: Option<
        Result<Vec<ContainerRecord>, String>,
    >) -> (r: Option<String>)
        requires
            query is None <==> old(self).fresh(now),
        ensures
            final(self).ttl_millis == old(self).ttl_millis,
            match query {
                None => {
                    &&& *final(self) == *old(self)
                    &&& r.deep_view() == map_entry(old(self).table@, repository@)
                },
                Some(q) => {
                    &&& r.deep_view() == spec_lookup_outcome(
                        *old(self),
                        now,
                        result_view(q),
                        repository@,
                    )
                    &&& (q is Ok ==> final(self).table@ == table_of(q->Ok_0@)
                        && final(self).refreshed_at == Some(now))
                    &&& (q is Err ==> *final(self) == *old(self))
                },
            },
    {
        match query {
            None => self.lookup_cached(repository),
            Some(q) => {
                self.complete_refresh(q, now);
                self.lookup_cached(repository)
            },
        }
    }
}

/// The view of a runtime-query outcome: the records on success, the error
/// text on failure.
pub open spec fn result_view(q: Result<Vec<ContainerRecord>, String>) -> Result<
    Seq<ContainerRecord>,
    Seq<char>,
> {
    match q {
        Ok(records) => Ok(records@),
        Err(e) => Err(e@),
    }
}

/// Within the TTL window after a refresh, a lookup returns exactly what
/// that refresh stored, whatever the runtime would answer in the
/// meantime: `cache` is any state a refresh with `records` at `at`
/// produced, `query` is arbitrary and is not consulted.
pub proof fn lemma_fresh_lookup_matches_refresh(
    cache: DiscoveryCache,
    records: Seq<ContainerRecord>,
    at: u64,
    now: u64,
    query: Result<Seq<ContainerRecord>, Seq<char>>,
    key: Seq<char>,
)
    requires
        cache.table@ == table_of(records),
        cache.refreshed_at == Some(at),
        at <= now,
        now - at < cache.ttl_millis,
    ensures
        spec_lookup_outcome(cache, now, query, key) == map_entry(table_of(records), key),
{
}

/// Once the TTL has elapsed, a lookup applies exactly one refresh before
/// answering: with a successful query it answers from the rebuilt table,
/// and one refresh at `now` makes the cache fresh again for any later
/// instant within the TTL. Concurrent lookups that each observe the
/// expired cache may each run such a refresh; each one is this single
/// refresh, and the last to complete wins.
pub proof fn lemma_stale_lookup_refreshes_once(
    cache: DiscoveryCache,
    now: u64,
    records: Seq<ContainerRecord>,
    key: Seq<char>,
    later: u64,
)
    requires
        !cache.fresh(now),
        now <= later,
        later - now < cache.ttl_millis,
    ensures
        spec_lookup_outcome(cache, now, Ok(records), key) == map_entry(table_of(records), key),
        (DiscoveryCache {
            table: cache.table,
            refreshed_at: Some(now),
            ttl_millis: cache.ttl_millis,
        }).fresh(later),
{
}

} // verus!
