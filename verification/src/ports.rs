//! Host port assignments per project service.
use vstd::prelude::*;
use crate::config::PortRanges;
use crate::error::EnvibeError;
use crate::namemap::{NameMap, keys_distinct, seq_lookup, lemma_lookup_distinct};
use crate::text::{
    concat3, decimal, is_ascii_text, ascii_lower_text, owned, seq_contains, seq_starts_with, str_contains, str_eq,
    str_starts_with, to_lowercase, lowercase, u64_to_decimal, chars_of, slice_chars,
    string_from_chars,
};

verus! {

/// The registry key of a project's service: `project:service`.
pub open spec fn key_of(project: Seq<char>, service: Seq<char>) -> Seq<char> {
    project + ":"@ + service
}

/// Builds the registry key `project:service`.
pub fn service_key(project: &str, service: &str) -> (k: String)
    ensures
        k@ == key_of(project@, service@),
{
    concat3(project, ":", service)
}

/// Kind of service, which picks the port range used for it.
#[derive(Debug, Clone, Copy, PartialEq, Eq, Structural)]
pub enum ServiceType {
    Postgres,
    Redis,
    Mysql,
    Mongo,
    Http,
    Generic,
}

/// Kind of service for a lowercased image name.
pub open spec fn type_for_image(lower: Seq<char>) -> ServiceType {
    if seq_contains(lower, "postgres"@) {
        ServiceType::Postgres
    } else if seq_contains(lower, "redis"@) {
        ServiceType::Redis
    } else if seq_contains(lower, "mysql"@) || seq_contains(lower, "mariadb"@) {
        ServiceType::Mysql
    } else if seq_contains(lower, "mongo"@) {
        ServiceType::Mongo
    } else if seq_contains(lower, "nginx"@) || seq_contains(lower, "httpd"@) || seq_contains(
        lower,
        "node"@,
    ) {
        ServiceType::Http
    } else {
        ServiceType::Generic
    }
}

/// Kind of service for a lowercased service name.
pub open spec fn type_for_name(lower: Seq<char>) -> ServiceType {
    if seq_contains(lower, "postgres"@) || lower == "db"@ || lower == "database"@ {
        ServiceType::Postgres
    } else if seq_contains(lower, "redis"@) || lower == "cache"@ {
        ServiceType::Redis
    } else if seq_contains(lower, "mysql"@) || seq_contains(lower, "mariadb"@) {
        ServiceType::Mysql
    } else if seq_contains(lower, "mongo"@) {
        ServiceType::Mongo
    } else if seq_contains(lower, "web"@) || seq_contains(lower, "app"@) || seq_contains(
        lower,
        "server"@,
    ) || seq_contains(lower, "api"@) {
        ServiceType::Http
    } else {
        ServiceType::Generic
    }
}

impl ServiceType {
    /// Kind of service guessed from its image name, ignoring case.
    pub fn from_image(image: &str) -> (t: Self)
        ensures
            t == type_for_image(lowercase(image@)),
            is_ascii_text(image@) ==> t == type_for_image(ascii_lower_text(image@)),
    {
        let l = to_lowercase(image);
        let s = l.as_str();
        if str_contains(s, "postgres") {
            ServiceType::Postgres
        } else if str_contains(s, "redis") {
            ServiceType::Redis
        } else if str_contains(s, "mysql") || str_contains(s, "mariadb") {
            ServiceType::Mysql
        } else if str_contains(s, "mongo") {
            ServiceType::Mongo
        } else if str_contains(s, "nginx") || str_contains(s, "httpd") || str_contains(s, "node") {
            ServiceType::Http
        } else {
            ServiceType::Generic
        }
    }

    /// Kind of service guessed from its name, ignoring case.
    pub fn from_service_name(name: &str) -> (t: Self)
        ensures
            t == type_for_name(lowercase(name@)),
            is_ascii_text(name@) ==> t == type_for_name(ascii_lower_text(name@)),
    {
        let l = to_lowercase(name);
        let s = l.as_str();
        if str_contains(s, "postgres") || str_eq(s, "db") || str_eq(s, "database") {
            ServiceType::Postgres
        } else if str_contains(s, "redis") || str_eq(s, "cache") {
            ServiceType::Redis
        } else if str_contains(s, "mysql") || str_contains(s, "mariadb") {
            ServiceType::Mysql
        } else if str_contains(s, "mongo") {
            ServiceType::Mongo
        } else if str_contains(s, "web") || str_contains(s, "app") || str_contains(s, "server")
            || str_contains(s, "api") {
            ServiceType::Http
        } else {
            ServiceType::Generic
        }
    }
}

/// The port range configured for a kind of service.
pub open spec fn range_for(ranges: PortRanges, t: ServiceType) -> (u16, u16) {
    match t {
        ServiceType::Postgres => ranges.postgres,
        ServiceType::Redis => ranges.redis,
        ServiceType::Mysql => ranges.mysql,
        ServiceType::Mongo => ranges.mongo,
        ServiceType::Http => ranges.http,
        ServiceType::Generic => ranges.generic,
    }
}

/// Error text when a range has no free port.
pub open spec fn no_ports_text(start: u16, end: u16) -> Seq<char> {
    "No available ports in range "@ + decimal(start as nat) + "-"@ + decimal(end as nat)
}

/// Error text when a port belongs to another service.
pub open spec fn assigned_text(port: u16, other: Seq<char>) -> Seq<char> {
    "Port "@ + decimal(port as nat) + " is already assigned to "@ + other
}

/// Error text when the system has the port in use.
pub open spec fn in_use_text(port: u16) -> Seq<char> {
    "Port "@ + decimal(port as nat) + " is already in use on the system"@
}

/// Every port in `[lo, hi]` was either marked used or reported unavailable.
pub open spec fn none_free<F: Fn(u16) -> bool>(f: F, used: Set<u16>, lo: int, hi: int) -> bool {
    forall|x: u16| lo <= x <= hi ==> used.contains(x) || call_ensures(f, (x,), false)
}

/// What an allocation from `[start, end]` gives, from assignments `a0` and used
/// ports `u0`, with `f` telling whether a port can be bound.
pub open spec fn allocation<F: Fn(u16) -> bool>(
    f: F,
    key: Seq<char>,
    a0: Map<Seq<char>, u16>,
    u0: Set<u16>,
    start: u16,
    end: u16,
    r: Result<u16, EnvibeError>,
    a1: Map<Seq<char>, u16>,
    u1: Set<u16>,
) -> bool {
    match r {
        Ok(q) => {
            &&& start <= q <= end
            &&& !u0.contains(q)
            &&& call_ensures(f, (q,), true)
            &&& none_free(f, u0, start as int, q - 1)
            &&& a1 == a0.insert(key, q)
            &&& u1 == u0.insert(q)
        },
        Err(e) => {
            &&& e matches EnvibeError::PortAllocation(m) && m@ == no_ports_text(start, end)
            &&& none_free(f, u0, start as int, end as int)
            &&& a1 == a0
            &&& u1 == u0
        },
    }
}

/// No two services hold the same port, and every assigned port is marked used.
pub open spec fn ports_exclusive(a: Map<Seq<char>, u16>, u: Set<u16>) -> bool {
    &&& forall|k1: Seq<char>, k2: Seq<char>|
        #![trigger a[k1], a[k2]]
        a.contains_key(k1) && a.contains_key(k2) && k1 != k2 ==> a[k1] != a[k2]
    &&& forall|k: Seq<char>| #[trigger] a.contains_key(k) ==> u.contains(a[k])
}

/// The services of `project` and their ports, in entry order.
pub open spec fn ports_with_prefix(s: Seq<(Seq<char>, u16)>, prefix: Seq<char>) -> Seq<
    (Seq<char>, u16),
>
    decreases s.len(),
{
    if s.len() == 0 {
        Seq::empty()
    } else {
        let rest = ports_with_prefix(s.drop_last(), prefix);
        let e = s.last();
        if seq_starts_with(e.0, prefix) {
            rest.push((e.0.skip(prefix.len() as int), e.1))
        } else {
            rest
        }
    }
}

/// Ports assigned to project services, and the ports currently in use.
#[derive(Debug)]
pub struct PortRegistry {
    /// Maps "project_name:service_name" to assigned port.
    assignments: NameMap<u16>,
    /// Ports currently in use.
    used_ports: Vec<u16>,
}

fn vec_has(v: &Vec<u16>, x: u16) -> (r: bool)
    ensures
        r == v@.contains(x),
{
    let mut i: usize = 0;
    while i < v.len()
        invariant
            i <= v.len(),
            forall|j: int| 0 <= j < i ==> v@[j] != x,
        decreases v.len() - i,
    {
        if v[i] == x {
            return true;
        }
        i = i + 1;
    }
    false
}

fn vec_set_insert(v: &mut Vec<u16>, x: u16)
    ensures
        forall|y: u16| final(v)@.contains(y) <==> (old(v)@.contains(y) || y == x),
{
    if !vec_has(v, x) {
        v.push(x);
        proof {
            assert forall|y: u16| v@.contains(y) <==> (old(v)@.contains(y) || y == x) by {
                if old(v)@.contains(y) {
                    let j = choose|j: int| 0 <= j < old(v)@.len() && old(v)@[j] == y;
                    assert(v@[j] == y);
                }
                if y == x {
                    assert(v@[v@.len() - 1] == x);
                }
                if v@.contains(y) && y != x {
                    let j = choose|j: int| 0 <= j < v@.len() && v@[j] == y;
                    assert(old(v)@[j] == y);
                }
            }
        }
    }
}

fn vec_set_remove(v: &mut Vec<u16>, x: u16)
    ensures
        forall|y: u16| final(v)@.contains(y) <==> (old(v)@.contains(y) && y != x),
{
    let mut out: Vec<u16> = Vec::new();
    let mut i: usize = 0;
    while i < v.len()
        invariant
            i <= v.len(),
            forall|y: u16|
                out@.contains(y) <==> (y != x && exists|j: int| 0 <= j < i && #[trigger] v@[j] == y),
        decreases v.len() - i,
    {
        let ghost prev = out@;
        let e = v[i];
        if e != x {
            out.push(e);
        }
        proof {
            assert forall|y: u16|
                out@.contains(y) <==> (y != x && exists|j: int| 0 <= j < i + 1 && #[trigger] v@[j] == y) by {
                if out@.contains(y) {
                    let j = choose|j: int| 0 <= j < out@.len() && #[trigger] out@[j] == y;
                    if j < prev.len() {
                        assert(prev[j] == y);
                        assert(prev.contains(y));
                    } else {
                        assert(v@[i as int] == y);
                    }
                }
                if y != x && exists|j: int| 0 <= j < i + 1 && #[trigger] v@[j] == y {
                    let k = choose|k: int| 0 <= k < i + 1 && #[trigger] v@[k] == y;
                    if k < i {
                        assert(prev.contains(y));
                        let j = choose|j: int| 0 <= j < prev.len() && #[trigger] prev[j] == y;
                        assert(out@[j] == y);
                    } else {
                        assert(out@[out@.len() - 1] == y);
                    }
                }
            }
        }
        i = i + 1;
    }
    proof {
        assert forall|y: u16| out@.contains(y) <==> (v@.contains(y) && y != x) by {
            if v@.contains(y) {
                let k = choose|k: int| 0 <= k < v@.len() && #[trigger] v@[k] == y;
            }
        }
    }
    *v = out;
}

impl PortRegistry {
    /// Assigned port per registry key.
    pub closed spec fn assigned(&self) -> Map<Seq<char>, u16> {
        self.assignments@
    }

    /// The assignment entries, in order.
    pub closed spec fn entries(&self) -> Seq<(Seq<char>, u16)> {
        self.assignments.pairs()
    }

    /// Ports marked as in use.
    pub closed spec fn used(&self) -> Set<u16> {
        Set::new(|p: u16| self.used_ports@.contains(p))
    }

    /// Keys are distinct, and every port marked in use is assigned to some key.
    pub open spec fn wf(&self) -> bool {
        &&& keys_distinct(self.entries())
        &&& forall|p: u16| #[trigger]
            self.used().contains(p) ==> exists|k: Seq<char>| #[trigger]
                self.assigned().contains_key(k) && self.assigned()[k] == p
    }

    /// No two services hold the same port, and the ports marked in use are
    /// exactly the assigned ones (with `wf`). Every registry built from an
    /// empty one by the operations below is consistent.
    pub open spec fn consistent(&self) -> bool {
        ports_exclusive(self.assigned(), self.used())
    }

    /// An empty registry.
    pub fn new() -> (r: Self)
        ensures
            r.wf(),
            r.consistent(),
            r.assigned() == Map::<Seq<char>, u16>::empty(),
            r.used() == Set::<u16>::empty(),
            r.entries() == Seq::<(Seq<char>, u16)>::empty(),
    {
        let r = PortRegistry { assignments: NameMap::new(), used_ports: Vec::new() };
        assert(r.assigned() =~= Map::<Seq<char>, u16>::empty());
        assert(r.used() =~= Set::<u16>::empty());
        r
    }

    /// A registry holding saved assignments; the ports in use are rebuilt from them.
    pub fn from_saved(assignments: NameMap<u16>) -> (r: Self)
        requires
            assignments.wf(),
        ensures
            r.wf(),
            r.assigned() == assignments@,
            r.entries() == assignments.pairs(),
            (forall|k1: Seq<char>, k2: Seq<char>|
                #![trigger assignments@[k1], assignments@[k2]]
                assignments@.contains_key(k1) && assignments@.contains_key(k2) && k1 != k2 ==> assignments@[k1]
                    != assignments@[k2]) ==> r.consistent(),
            forall|p: u16| #[trigger]
                r.used().contains(p) <==> exists|k: Seq<char>| #[trigger]
                    assignments@.contains_key(k) && assignments@[k] == p,
    {
        let mut used: Vec<u16> = Vec::new();
        let n = assignments.len();
        let mut i: usize = 0;
        while i < n
            invariant
                n == assignments.pairs().len(),
                i <= n,
                assignments.wf(),
                forall|p: u16|
                    used@.contains(p) <==> exists|j: int| 0 <= j < i && #[trigger] assignments.pairs()[j].1
                        == p,
            decreases n - i,
        {
            let p = *assignments.value_at(i);
            let ghost prev = used@;
            vec_set_insert(&mut used, p);
            proof {
                assert forall|q: u16|
                    used@.contains(q) <==> exists|j: int| 0 <= j < i + 1 && #[trigger] assignments.pairs()[j].1
                        == q by {
                    if used@.contains(q) && q != p {
                        assert(prev.contains(q));
                    }
                    if q == p {
                        assert(assignments.pairs()[i as int].1 == q);
                    }
                    if exists|j: int| 0 <= j < i + 1 && #[trigger] assignments.pairs()[j].1 == q {
                        let j = choose|j: int| 0 <= j < i + 1 && #[trigger] assignments.pairs()[j].1
                            == q;
                        if j < i {
                            assert(prev.contains(q));
                        }
                    }
                }
            }
            i = i + 1;
        }
        let r = PortRegistry { assignments, used_ports: used };
        proof {
            assert forall|p: u16| #[trigger]
                r.used().contains(p) <==> exists|k: Seq<char>| #[trigger]
                    r.assigned().contains_key(k) && r.assigned()[k] == p by {
                if r.used().contains(p) {
                    assert(used@.contains(p));
                    let j = choose|j: int|
                        0 <= j < n && #[trigger] r.assignments.pairs()[j].1 == p;
                    r.assignments.lemma_entry_in_map(j);
                    let k = r.assignments.pairs()[j].0;
                    assert(r.assigned().contains_key(k) && r.assigned()[k] == p);
                }
                if exists|k: Seq<char>| #[trigger]
                    r.assigned().contains_key(k) && r.assigned()[k] == p {
                    let k = choose|k: Seq<char>| #[trigger]
                        r.assigned().contains_key(k) && r.assigned()[k] == p;
                    let j = r.assignments.lemma_entry_of_key(k);
                    assert(r.assignments.pairs()[j].1 == p);
                    assert(used@.contains(p));
                }
            }
        }
        r
    }

    /// The port assigned to a project's service, if any.
    pub fn get_port(&self, project: &str, service: &str) -> (r: Option<u16>)
        ensures
            r == self.assigned().get(key_of(project@, service@)),
    {
        let key = service_key(project, service);
        match self.assignments.get(key.as_str()) {
            Some(p) => Some(*p),
            None => None,
        }
    }

    /// The assignments as they are saved: port per registry key, in order.
    pub fn saved(&self) -> (r: &NameMap<u16>)
        ensures
            r@ == self.assigned(),
            r.pairs() == self.entries(),
    {
        &self.assignments
    }
}


/// The first entry, in order, that holds `port` under a key other than `key`.
pub open spec fn first_conflict(s: Seq<(Seq<char>, u16)>, key: Seq<char>, port: u16) -> Option<
    Seq<char>,
>
    decreases s.len(),
{
    if s.len() == 0 {
        None
    } else if s[0].1 == port && s[0].0 != key {
        Some(s[0].0)
    } else {
        first_conflict(s.drop_first(), key, port)
    }
}

proof fn lemma_first_conflict_none(s: Seq<(Seq<char>, u16)>, key: Seq<char>, port: u16)
    requires
        forall|j: int| 0 <= j < s.len() ==> !(#[trigger] s[j].1 == port && s[j].0 != key),
    ensures
        first_conflict(s, key, port) is None,
    decreases s.len(),
{
    if s.len() > 0 {
        let t = s.drop_first();
        assert forall|j: int| 0 <= j < t.len() implies !(#[trigger] t[j].1 == port && t[j].0
            != key) by {
            assert(t[j] == s[j + 1]);
        }
        lemma_first_conflict_none(t, key, port);
    }
}

proof fn lemma_first_conflict_at(s: Seq<(Seq<char>, u16)>, key: Seq<char>, port: u16, i: int)
    requires
        0 <= i < s.len(),
        s[i].1 == port && s[i].0 != key,
        forall|j: int| 0 <= j < i ==> !(#[trigger] s[j].1 == port && s[j].0 != key),
    ensures
        first_conflict(s, key, port) == Some(s[i].0),
    decreases i,
{
    if i > 0 {
        let t = s.drop_first();
        assert forall|j: int| 0 <= j < i - 1 implies !(#[trigger] t[j].1 == port && t[j].0
            != key) by {
            assert(t[j] == s[j + 1]);
        }
        lemma_first_conflict_at(t, key, port, i - 1);
    }
}

proof fn lemma_first_conflict_none_all(s: Seq<(Seq<char>, u16)>, key: Seq<char>, port: u16)
    requires
        first_conflict(s, key, port) is None,
    ensures
        forall|j: int| 0 <= j < s.len() ==> !(#[trigger] s[j].1 == port && s[j].0 != key),
    decreases s.len(),
{
    if s.len() > 0 {
        let t = s.drop_first();
        lemma_first_conflict_none_all(t, key, port);
        assert forall|j: int| 0 <= j < s.len() implies !(#[trigger] s[j].1 == port && s[j].0 != key) by {
            if j > 0 {
                assert(s[j] == t[j - 1]);
            }
        }
    }
}

/// Without a conflict, no service other than `key` holds `port`.
pub proof fn lemma_no_conflict(r: PortRegistry, key: Seq<char>, port: u16, k: Seq<char>)
    requires
        r.wf(),
        first_conflict(r.entries(), key, port) is None,
        r.assigned().contains_key(k),
        k != key,
    ensures
        r.assigned()[k] != port,
{
    lemma_first_conflict_none_all(r.entries(), key, port);
    let j = r.assignments.lemma_entry_of_key(k);
    assert(r.entries()[j].0 == k);
}

/// The prefix that keys of `project`'s services begin with.
pub open spec fn project_prefix(project: Seq<char>) -> Seq<char> {
    project + ":"@
}

impl PortRegistry {
    proof fn lemma_wf_after(&self, old_reg: &Self, key: Seq<char>)
        requires
            keys_distinct(self.entries()),
            old_reg.wf(),
            forall|p: u16| #[trigger]
                self.used().contains(p) ==> (old_reg.used().contains(p) || (self.assigned().contains_key(key) && self.assigned()[key] == p)),
            forall|k: Seq<char>| k != key ==> #[trigger] self.assigned().get(k) == old_reg.assigned().get(k),
            forall|p: u16| #[trigger]
                self.used().contains(p) && old_reg.assigned().contains_key(key) && old_reg.assigned()[key] == p ==> (self.assigned().contains_key(key) && self.assigned()[key] == p) || exists|k: Seq<char>| k != key && #[trigger] old_reg.assigned().contains_key(k) && old_reg.assigned()[k] == p,
        ensures
            self.wf(),
    {
        assert forall|p: u16| #[trigger] self.used().contains(p) implies exists|k: Seq<char>| #[trigger]
            self.assigned().contains_key(k) && self.assigned()[k] == p by {
            if self.assigned().contains_key(key) && self.assigned()[key] == p {
                assert(self.assigned().contains_key(key) && self.assigned()[key] == p);
            } else {
                assert(old_reg.used().contains(p));
                let k = choose|k: Seq<char>| #[trigger]
                    old_reg.assigned().contains_key(k) && old_reg.assigned()[k] == p;
                if k == key {
                    let k2 = choose|k2: Seq<char>| k2 != key && #[trigger] old_reg.assigned().contains_key(k2) && old_reg.assigned()[k2] == p;
                    assert(self.assigned().get(k2) == old_reg.assigned().get(k2));
                    assert(self.assigned().contains_key(k2) && self.assigned()[k2] == p);
                } else {
                    assert(self.assigned().get(k) == old_reg.assigned().get(k));
                    assert(self.assigned().contains_key(k) && self.assigned()[k] == p);
                }
            }
        }
    }

    /// Picks the kind's range from `ranges`.
    pub fn get_range(&self, ranges: &PortRanges, service_type: ServiceType) -> (r: (u16, u16))
        ensures
            r == range_for(*ranges, service_type),
    {
        match service_type {
            ServiceType::Postgres => ranges.postgres,
            ServiceType::Redis => ranges.redis,
            ServiceType::Mysql => ranges.mysql,
            ServiceType::Mongo => ranges.mongo,
            ServiceType::Http => ranges.http,
            ServiceType::Generic => ranges.generic,
        }
    }

    /// The first port of `[start, end]` that is not marked in use and that
    /// `available` reports free.
    pub fn find_available_port<F: Fn(u16) -> bool>(&self, start: u16, end: u16, available: &F) -> (r:
        Result<u16, EnvibeError>)
        requires
            forall|p: u16| call_requires(*available, (p,)),
        ensures
            match r {
                Ok(q) => {
                    &&& start <= q <= end
                    &&& !self.used().contains(q)
                    &&& call_ensures(*available, (q,), true)
                    &&& none_free(*available, self.used(), start as int, q - 1)
                },
                Err(e) => {
                    &&& e matches EnvibeError::PortAllocation(m) && m@ == no_ports_text(start, end)
                    &&& none_free(*available, self.used(), start as int, end as int)
                },
            },
    {
        let mut port: u32 = start as u32;
        assert(none_free(*available, self.used(), start as int, port - 1));
        while port <= end as u32
            invariant
                start <= port,
                port <= end as u32 + 1 || port == start as u32,
                forall|p: u16| call_requires(*available, (p,)),
                none_free(*available, self.used(), start as int, port - 1),
            decreases end as u32 + 1 - port,
        {
            let p = port as u16;
            let marked = vec_has(&self.used_ports, p);
            if !marked {
                let free = available(p);
                if free {
                    return Ok(p);
                }
            }
            proof {
                assert(self.used().contains(p) == marked);
            }
            port = port + 1;
        }
        let text = concat3("No available ports in range ", u64_to_decimal(start as u64).as_str(), "-");
        let mut msg = text;
        msg.append(u64_to_decimal(end as u64).as_str());
        Err(EnvibeError::PortAllocation(msg))
    }
}

impl PortRegistry {
    /// Forgets the port of a project's service.
    pub fn release(&mut self, project: &str, service: &str)
        requires
            old(self).wf(),
        ensures
            final(self).wf(),
            old(self).consistent() ==> final(self).consistent(),
            final(self).assigned() == old(self).assigned().remove(key_of(project@, service@)),
            final(self).used() == match old(self).assigned().get(key_of(project@, service@)) {
                Some(p) => old(self).used().remove(p),
                None => old(self).used(),
            },
    {
        let key = service_key(project, service);
        let ghost old_reg = *self;
        match self.assignments.remove(key.as_str()) {
            Some(port) => {
                vec_set_remove(&mut self.used_ports, port);
                proof {
                    assert(self.used() =~= old_reg.used().remove(port));
                    self.lemma_wf_after(&old_reg, key@);
                }
            },
            None => {
                proof {
                    assert(self.used() =~= old_reg.used());
                    self.lemma_wf_after(&old_reg, key@);
                }
            },
        }
    }

    /// Assigns `key` to port `q`, marking `q` in use.
    fn assign(&mut self, key: String, q: u16)
        requires
            old(self).wf(),
            old(self).assigned().contains_key(key@) ==> !old(self).used().contains(
                old(self).assigned()[key@],
            ),
        ensures
            final(self).wf(),
            final(self).assigned() == old(self).assigned().insert(key@, q),
            final(self).used() == old(self).used().insert(q),
    {
        let ghost old_reg = *self;
        let ghost k = key@;
        self.assignments.insert(key, q);
        vec_set_insert(&mut self.used_ports, q);
        proof {
            assert(self.used() =~= old_reg.used().insert(q));
            assert(self.assigned().contains_key(k) && self.assigned()[k] == q);
            self.lemma_wf_after(&old_reg, k);
        }
    }

    /// The port of a project's service: its assigned port while `available`
    /// reports it free, otherwise the first free port of the range for the
    /// service's kind, which becomes its assignment.
    pub fn get_or_allocate<F: Fn(u16) -> bool>(
        &mut self,
        project: &str,
        service: &str,
        ranges: &PortRanges,
        service_type: ServiceType,
        available: F,
    ) -> (r: Result<u16, EnvibeError>)
        requires
            old(self).wf(),
            forall|p: u16| call_requires(available, (p,)),
        ensures
            final(self).wf(),
            old(self).consistent() ==> final(self).consistent(),
            old(self).consistent() ==> (r matches Ok(q) ==> forall|k: Seq<char>| #[trigger]
                old(self).assigned().contains_key(k) && k != key_of(project@, service@) ==> old(self).assigned()[k] != q),
            ({
                let key = key_of(project@, service@);
                let start = range_for(*ranges, service_type).0;
                let end = range_for(*ranges, service_type).1;
                match old(self).assigned().get(key) {
                    None => allocation(
                        available,
                        key,
                        old(self).assigned(),
                        old(self).used(),
                        start,
                        end,
                        r,
                        final(self).assigned(),
                        final(self).used(),
                    ),
                    Some(p) => ({
                        &&& call_ensures(available, (p,), true)
                        &&& r matches Ok(q) && q == p
                        &&& final(self).assigned() == old(self).assigned()
                        &&& final(self).used() == old(self).used().insert(p)
                    }) || ({
                        &&& call_ensures(available, (p,), false)
                        &&& allocation(
                            available,
                            key,
                            old(self).assigned().remove(key),
                            old(self).used().remove(p),
                            start,
                            end,
                            r,
                            final(self).assigned(),
                            final(self).used(),
                        )
                    }),
                }
            }),
    {
        let key = service_key(project, service);
        let ghost a0 = self.assigned();
        let ghost u0 = self.used();
        let existing = match self.assignments.get(key.as_str()) {
            Some(p) => Some(*p),
            None => None,
        };
        if let Some(port) = existing {
            if available(port) {
                let ghost old_reg = *self;
                vec_set_insert(&mut self.used_ports, port);
                proof {
                    assert(self.used() =~= old_reg.used().insert(port));
                    self.lemma_wf_after(&old_reg, key@);
                }
                return Ok(port);
            }
            self.release(project, service);
        }
        let (start, end) = self.get_range(ranges, service_type);
        match self.find_available_port(start, end, &available) {
            Ok(q) => {
                let ghost a1 = self.assigned();
                let ghost u1 = self.used();
                self.assign(key, q);
                Ok(q)
            },
            Err(e) => Err(e),
        }
    }

    /// Records `port` for a project's service, unless another service holds it,
    /// or `available` reports it taken and it is not already this service's port.
    pub fn set_port<F: Fn(u16) -> bool>(&mut self, project: &str, service: &str, port: u16, available: F) -> (r: Result<(), EnvibeError>)
        requires
            old(self).wf(),
            call_requires(available, (port,)),
        ensures
            final(self).wf(),
            old(self).consistent() ==> final(self).consistent(),
            ({
                let key = key_of(project@, service@);
                match first_conflict(old(self).entries(), key, port) {
                    Some(other) => {
                        &&& r matches Err(EnvibeError::PortAllocation(m)) && m@ == assigned_text(port, other)
                        &&& final(self).assigned() == old(self).assigned()
                        &&& final(self).used() == old(self).used()
                    },
                    None => ({
                        &&& call_ensures(available, (port,), false)
                        &&& old(self).assigned().get(key) != Some(port)
                        &&& r matches Err(EnvibeError::PortAllocation(m)) && m@ == in_use_text(port)
                        &&& final(self).assigned() == old(self).assigned()
                        &&& final(self).used() == old(self).used()
                    }) || ({
                        &&& call_ensures(available, (port,), true) || old(self).assigned().get(key) == Some(port)
                        &&& r is Ok
                        &&& final(self).assigned() == old(self).assigned().insert(key, port)
                        &&& final(self).used() == match old(self).assigned().get(key) {
                            Some(p) => old(self).used().remove(p).insert(port),
                            None => old(self).used().insert(port),
                        }
                    }),
                }
            }),
    {
        let key = service_key(project, service);
        let n = self.assignments.len();
        let mut i: usize = 0;
        while i < n
            invariant
                n == self.entries().len(),
                i <= n,
                self.entries() == self.assignments.pairs(),
                self.wf(),
                *self == *old(self),
                key@ == key_of(project@, service@),
                forall|j: int| 0 <= j < i ==> !(#[trigger] self.entries()[j].1 == port && self.entries()[j].0 != key@),
            decreases n - i,
        {
            let existing_port = *self.assignments.value_at(i);
            let existing_key = self.assignments.key_at(i);
            if existing_port == port && !str_eq(existing_key.as_str(), key.as_str()) {
                proof {
                    lemma_first_conflict_at(self.entries(), key@, port, i as int);
                }
                let mut msg = concat3("Port ", u64_to_decimal(port as u64).as_str(), " is already assigned to ");
                msg.append(existing_key.as_str());
                proof {
                    assert(existing_key@ == self.entries()[i as int].0);
                    assert(msg@ =~= assigned_text(port, self.entries()[i as int].0));
                }
                return Err(EnvibeError::PortAllocation(msg));
            }
            i = i + 1;
        }
        proof {
            lemma_first_conflict_none(self.entries(), key@, port);
        }
        let current = match self.assignments.get(key.as_str()) {
            Some(p) => Some(*p),
            None => None,
        };
        if !available(port) {
            let same = match current {
                Some(p) => p == port,
                None => false,
            };
            if !same {
                let mut msg = concat3("Port ", u64_to_decimal(port as u64).as_str(), " is already in use on the system");
                return Err(EnvibeError::PortAllocation(msg));
            }
        }
        let ghost old_reg = *self;
        if let Some(old_port) = current {
            vec_set_remove(&mut self.used_ports, old_port);
            proof {
                assert(self.used() =~= old_reg.used().remove(old_port));
                self.lemma_wf_after(&old_reg, key@);
            }
        }
        let ghost mid = self.used();
        let ghost k = key@;
        self.assign(key, port);
        proof {
            if old(self).consistent() {
                crate::laws::law_set_port_exclusive(*old(self), k, port, self.assigned(), self.used());
            }
        }
        Ok(())
    }

    /// The ports of `project`'s services, as (service name, port), in entry order.
    pub fn get_project_ports(&self, project: &str) -> (r: Vec<(String, u16)>)
        ensures
            r@.map_values(|e: (String, u16)| (e.0@, e.1)) == ports_with_prefix(
                self.entries(),
                project_prefix(project@),
            ),
    {
        let prefix = concat3(project, ":", "");
        proof {
            reveal_strlit("");
            assert(prefix@ =~= project_prefix(project@));
        }
        let pv = chars_of(prefix.as_str());
        let mut out: Vec<(String, u16)> = Vec::new();
        let n = self.assignments.len();
        let mut i: usize = 0;
        while i < n
            invariant
                n == self.entries().len(),
                i <= n,
                self.entries() == self.assignments.pairs(),
                pv@ == project_prefix(project@),
                prefix@ == project_prefix(project@),
                out@.map_values(|e: (String, u16)| (e.0@, e.1)) == ports_with_prefix(
                    self.entries().take(i as int),
                    project_prefix(project@),
                ),
            decreases n - i,
        {
            let key = self.assignments.key_at(i);
            let port = *self.assignments.value_at(i);
            let ghost before = out@.map_values(|e: (String, u16)| (e.0@, e.1));
            proof {
                assert(self.entries().take(i + 1).drop_last() =~= self.entries().take(i as int));
                assert(self.entries().take(i + 1).last() == self.entries()[i as int]);
            }
            if str_starts_with(key.as_str(), prefix.as_str()) {
                let kv = chars_of(key.as_str());
                let rest = slice_chars(&kv, pv.len(), kv.len());
                out.push((string_from_chars(&rest), port));
                proof {
                    assert(rest@ =~= key@.skip(pv@.len() as int));
                    assert(out@.map_values(|e: (String, u16)| (e.0@, e.1)) =~= before.push((key@.skip(pv@.len() as int), port)));
                }
            }
            i = i + 1;
        }
        proof {
            assert(self.entries().take(n as int) =~= self.entries());
        }
        out
    }
}
} // verus!
