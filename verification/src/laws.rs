//! Properties the library keeps across calls and states, proved over the
//! specifications its functions are verified against.
use vstd::prelude::*;
use crate::error::EnvibeError;
use crate::namemap::{NameMap, inserts_onto, keys_distinct, lemma_inserts_onto_distinct, seq_lookup};
use crate::ports::{PortRegistry, type_for_image, type_for_name, allocation, first_conflict, ports_exclusive};
use crate::detect::internal_port_for;
use crate::docker::{ExistingContainerPlan, bind_of, existing_plan, is_named_volume};
use crate::process::{interpolation, layered, placeholders, resolve, settings_of};
use crate::scan::{name_lt, sorted_by_name};
use crate::state::{registered, same_path, without};
use crate::terminal::{capped, shell_name};
use crate::text::{ascii_lower, ascii_lower_text, ascii_upper_text, is_ascii_text, decimal, digit_char, first_index_of, seq_starts_with, split_once};
use crate::tui::{App, Key, KeyEffect, LOG_LIMIT, LogEntry, key_effect, logs_after, next_panel, prev_panel};
use crate::config::{ServiceConfigView, ServiceStateView, env_view};
use crate::ports::key_of;
use crate::server::{info_from_config, project_service_info, status_word};
use crate::state::AppState;
use crate::ports::ServiceType;
use crate::docker::{container_port_of, image_port_for};
use crate::config::DockerView;
use crate::detect::{ProjectMarkers, dev_command, has_script, script_command};
use crate::process::{env_entries, env_line_entry, lines_entries, split_lines};
use crate::namemap::inserts_map;
use crate::text::{seq_contains, lowercase, trim, leading_space, trailing_space, is_space, lemma_first_index_of, lemma_first_index_of_spec};

verus! {

/// Cycling forward and back through the panels: one step forward undoes one
/// step back and the other way round, and three steps forward come back.
pub proof fn law_panel_cycle(p: crate::tui::Panel)
    ensures
        next_panel(prev_panel(p)) == p,
        prev_panel(next_panel(p)) == p,
        next_panel(next_panel(next_panel(p))) == p,
{
}

/// `q`, and Control-C, quit from any state of the interface, as the help
/// says.
pub proof fn law_quit_keys(a: App, ctrl: bool)
    ensures
        key_effect(a, Key::Char { c: 'q', ctrl }) == KeyEffect::Quit,
        key_effect(a, Key::Char { c: 'c', ctrl: true }) == KeyEffect::Quit,
{
}

/// An allocation hands out a port no other service holds, and keeps ports
/// exclusive.
pub proof fn law_allocation_exclusive<F: Fn(u16) -> bool>(
    f: F,
    key: Seq<char>,
    a0: Map<Seq<char>, u16>,
    u0: Set<u16>,
    start: u16,
    end: u16,
    r: Result<u16, EnvibeError>,
    a1: Map<Seq<char>, u16>,
    u1: Set<u16>,
)
    requires
        ports_exclusive(a0, u0),
        !a0.contains_key(key),
        allocation(f, key, a0, u0, start, end, r, a1, u1),
    ensures
        ports_exclusive(a1, u1),
        r matches Ok(q) ==> forall|k: Seq<char>| #[trigger] a0.contains_key(k) ==> a0[k] != q,
{
    match r {
        Ok(q) => {
            assert forall|k: Seq<char>| #[trigger] a0.contains_key(k) implies a0[k] != q by {
                assert(u0.contains(a0[k]));
            }
            assert forall|k1: Seq<char>, k2: Seq<char>|
                #![trigger a1[k1], a1[k2]]
                a1.contains_key(k1) && a1.contains_key(k2) && k1 != k2 implies a1[k1] != a1[k2] by {
                if k1 != key && k2 != key {
                    assert(a0[k1] != a0[k2]);
                } else if k1 == key {
                    assert(a0.contains_key(k2));
                } else {
                    assert(a0.contains_key(k1));
                }
            }
        },
        Err(_) => {},
    }
}

/// A successful allocation is what the service's port reads back as
/// afterwards, and every other service keeps the port it had; a failed one
/// changes no assignment.
pub proof fn law_allocation_recorded<F: Fn(u16) -> bool>(
    f: F,
    key: Seq<char>,
    a0: Map<Seq<char>, u16>,
    u0: Set<u16>,
    start: u16,
    end: u16,
    r: Result<u16, EnvibeError>,
    a1: Map<Seq<char>, u16>,
    u1: Set<u16>,
    other: Seq<char>,
)
    requires
        allocation(f, key, a0, u0, start, end, r, a1, u1),
        other != key,
    ensures
        r matches Ok(q) ==> a1.get(key) == Some(q),
        r is Err ==> a1 == a0,
        a1.get(other) == a0.get(other),
{
}

/// What the API shows of a service is what was last recorded for it: its
/// status, process and error message, and its recorded port; a service whose
/// recorded state and configuration give no port shows the port the registry
/// assigned it. Recording one service changes nothing shown of another.
pub proof fn law_recorded_state_shown(
    before: AppState,
    after: AppState,
    registry: PortRegistry,
    project: Seq<char>,
    name: Seq<char>,
    c: ServiceConfigView,
    v: ServiceStateView,
    other: Seq<char>,
    oc: ServiceConfigView,
)
    requires
        AppState::recorded(before, after, project, name, v),
        other != name,
    ensures
        ({
            let i = project_service_info(project, name, c, after, registry);
            &&& i.status == status_word(v.status)
            &&& i.process_id == v.process_id
            &&& i.error_message == v.error_message
            &&& v.port is Some ==> i.port == v.port
            &&& (v.port is None && info_from_config(name, c).port is None) ==> i.port == registry.assigned().get(
                key_of(project, name),
            )
        }),
        project_service_info(project, other, oc, after, registry) == project_service_info(
            project,
            other,
            oc,
            before,
            registry,
        ),
{
    assert(after.state_of(project, other) == before.state_of(project, other));
}

/// In a consistent registry (an empty registry is one, and allocating,
/// pinning and releasing ports keep it so), no two services hold the same
/// port, and a port is marked in use exactly when some service holds it.
pub proof fn law_no_shared_port(r: PortRegistry, k1: Seq<char>, k2: Seq<char>, p: u16)
    requires
        r.wf(),
        r.consistent(),
    ensures
        r.assigned().contains_key(k1) && r.assigned().contains_key(k2) && k1 != k2 ==> r.assigned()[k1]
            != r.assigned()[k2],
        r.used().contains(p) <==> exists|k: Seq<char>| #[trigger] r.assigned().contains_key(k) && r.assigned()[k] == p,
{
    if r.used().contains(p) {
    } else if exists|k: Seq<char>| #[trigger] r.assigned().contains_key(k) && r.assigned()[k] == p {
        let k = choose|k: Seq<char>| #[trigger] r.assigned().contains_key(k) && r.assigned()[k] == p;
        assert(r.used().contains(r.assigned()[k]));
    }
}

/// A consistent registry read back from its saved assignments (`saved`,
/// then `from_saved`) has the same ports and is consistent again.
pub proof fn law_ports_round_trip(r: PortRegistry, r2: PortRegistry)
    requires
        r.wf(),
        r.consistent(),
        r2.assigned() == r.assigned(),
        forall|p: u16| #[trigger]
            r2.used().contains(p) <==> exists|k: Seq<char>| #[trigger]
                r.assigned().contains_key(k) && r.assigned()[k] == p,
    ensures
        r2.consistent(),
        forall|k: Seq<char>| r2.assigned().get(k) == r.assigned().get(k),
{
    assert forall|k: Seq<char>| #[trigger] r2.assigned().contains_key(k) implies r2.used().contains(r2.assigned()[k]) by {
        assert(r.assigned().contains_key(k) && r.assigned()[k] == r2.assigned()[k]);
    }
}

/// Guessing a service's kind or its container's port from ASCII text
/// ignores case: upper- or lowercasing the text first changes nothing.
pub proof fn law_kinds_ignore_ascii_case(text: Seq<char>)
    requires
        is_ascii_text(text),
    ensures
        is_ascii_text(ascii_upper_text(text)),
        is_ascii_text(ascii_lower_text(text)),
        type_for_image(ascii_lower_text(ascii_upper_text(text))) == type_for_image(ascii_lower_text(text)),
        type_for_image(ascii_lower_text(ascii_lower_text(text))) == type_for_image(ascii_lower_text(text)),
        type_for_name(ascii_lower_text(ascii_upper_text(text))) == type_for_name(ascii_lower_text(text)),
        type_for_name(ascii_lower_text(ascii_lower_text(text))) == type_for_name(ascii_lower_text(text)),
        internal_port_for(ascii_lower_text(ascii_upper_text(text))) == internal_port_for(ascii_lower_text(text)),
        internal_port_for(ascii_lower_text(ascii_lower_text(text))) == internal_port_for(ascii_lower_text(text)),
{
    assert forall|i: int| 0 <= i < text.len() implies (#[trigger] ascii_upper_text(text)[i] as u32) < 128
        && ascii_lower(ascii_upper_text(text)[i]) == ascii_lower(text[i]) by {
        assert((text[i] as u32) < 128);
    }
    assert forall|i: int| 0 <= i < text.len() implies (#[trigger] ascii_lower_text(text)[i] as u32) < 128
        && ascii_lower(ascii_lower_text(text)[i]) == ascii_lower(text[i]) by {
        assert((text[i] as u32) < 128);
    }
    assert(ascii_lower_text(ascii_upper_text(text)) =~= ascii_lower_text(text));
    assert(ascii_lower_text(ascii_lower_text(text)) =~= ascii_lower_text(text));
}

/// Pinning a service to a port that no other service holds keeps ports
/// exclusive, and the service then has that port.
pub proof fn law_set_port_exclusive(before: PortRegistry, key: Seq<char>, port: u16, a1: Map<Seq<char>, u16>, u1: Set<u16>)
    requires
        before.wf(),
        ports_exclusive(before.assigned(), before.used()),
        first_conflict(before.entries(), key, port) is None,
        a1 == before.assigned().insert(key, port),
        u1 == match before.assigned().get(key) {
            Some(p) => before.used().remove(p).insert(port),
            None => before.used().insert(port),
        },
    ensures
        ports_exclusive(a1, u1),
        a1.get(key) == Some(port),
{
    let a0 = before.assigned();
    assert forall|k: Seq<char>| #[trigger] a0.contains_key(k) && k != key implies a0[k] != port by {
        crate::ports::lemma_no_conflict(before, key, port, k);
    }
    assert forall|k1: Seq<char>, k2: Seq<char>|
        #![trigger a1[k1], a1[k2]]
        a1.contains_key(k1) && a1.contains_key(k2) && k1 != k2 implies a1[k1] != a1[k2] by {
        if k1 != key && k2 != key {
            assert(a0[k1] != a0[k2]);
        } else if k1 == key {
            assert(a0.contains_key(k2) && k2 != key);
        } else {
            assert(a0.contains_key(k1) && k1 != key);
        }
    }
    assert forall|k: Seq<char>| #[trigger] a1.contains_key(k) implies u1.contains(a1[k]) by {
        if k != key {
            assert(u0_has(a0, before.used(), k));
            match a0.get(key) {
                Some(p) => {
                    assert(a0[k] != a0[key]);
                },
                None => {},
            }
        }
    }
}

spec fn u0_has(a0: Map<Seq<char>, u16>, u0: Set<u16>, k: Seq<char>) -> bool {
    u0.contains(a0[k])
}

/// Forgetting a service's port keeps ports exclusive, and the service then
/// has no port.
pub proof fn law_release_exclusive(a0: Map<Seq<char>, u16>, u0: Set<u16>, key: Seq<char>)
    requires
        ports_exclusive(a0, u0),
    ensures
        ports_exclusive(a0.remove(key), match a0.get(key) {
            Some(p) => u0.remove(p),
            None => u0,
        }),
        a0.remove(key).get(key) is None,
{
    let a1 = a0.remove(key);
    let u1 = match a0.get(key) {
        Some(p) => u0.remove(p),
        None => u0,
    };
    assert forall|k: Seq<char>| #[trigger] a1.contains_key(k) implies u1.contains(a1[k]) by {
        assert(u0.contains(a0[k]));
        if a0.contains_key(key) {
            assert(a0[k] != a0[key]);
        }
    }
}

/// A path is no longer registered once it is removed, under any spelling of
/// it (paths compare by components); registered paths that are other paths
/// stay registered, and nothing else appears.
pub proof fn law_removed_path_is_gone(s: Seq<Seq<char>>, x: Seq<char>, y: Seq<char>)
    ensures
        !registered(without(s, x), x),
        !same_path(y, x) && s.contains(y) ==> without(s, x).contains(y),
        without(s, x).contains(y) ==> s.contains(y),
    decreases s.len(),
{
    if s.len() > 0 {
        let t = s.drop_last();
        law_removed_path_is_gone(t, x, y);
        let wt = without(t, x);
        let ws = without(s, x);
        if !same_path(s.last(), x) {
            assert(ws == wt.push(s.last()));
            assert(ws.drop_last() =~= wt);
            if !same_path(y, x) && s.contains(y) {
                let i = choose|i: int| 0 <= i < s.len() && s[i] == y;
                if i < t.len() {
                    assert(t[i] == y);
                    assert(t.contains(y));
                    let k = choose|k: int| 0 <= k < wt.len() && wt[k] == y;
                    assert(ws[k] == y);
                } else {
                    assert(ws[wt.len() as int] == y);
                }
                assert(ws.contains(y));
            }
            if ws.contains(y) {
                let i = choose|i: int| 0 <= i < ws.len() && ws[i] == y;
                if i < wt.len() {
                    assert(wt[i] == y);
                    let k = choose|k: int| 0 <= k < t.len() && t[k] == y;
                    assert(s[k] == y);
                } else {
                    assert(s[s.len() - 1] == y);
                }
            }
        } else {
            if !same_path(y, x) && s.contains(y) {
                let i = choose|i: int| 0 <= i < s.len() && s[i] == y;
                assert(i < t.len());
                assert(t[i] == y);
            }
            if ws.contains(y) {
                let k = choose|k: int| 0 <= k < t.len() && t[k] == y;
                assert(s[k] == y);
            }
        }
    }
}

/// Text without placeholders is left as it is by interpolation.
pub proof fn law_plain_text_unchanged(
    s: Seq<char>,
    ports: Map<Seq<char>, u16>,
    environment: Map<Seq<char>, Seq<char>>,
)
    requires
        placeholders(s, 0).len() == 0,
    ensures
        interpolation(s, ports, environment) == Ok::<Seq<char>, Seq<char>>(s),
{
}

/// A service's own variables override the same variables of its env files.
pub proof fn law_own_variables_win(
    project_env: Option<NameMap<String>>,
    service_env: Option<NameMap<String>>,
    inline: NameMap<String>,
    k: Seq<char>,
)
    requires
        inline.wf(),
        inline@.contains_key(k),
    ensures
        layered(project_env, service_env, inline).contains_key(k),
        layered(project_env, service_env, inline)[k] == inline@[k]@,
{
    let s = settings_of(inline.pairs());
    assert(keys_distinct(s)) by {
        assert forall|i: int, j: int| 0 <= i < j < s.len() implies #[trigger] s[i].0 != #[trigger] s[j].0 by {
            assert(s[i].0 == inline.pairs()[i].0 && s[j].0 == inline.pairs()[j].0);
        }
    }
    let base = inserts_onto(
        inserts_onto(Map::empty(), crate::process::opt_settings(project_env)),
        crate::process::opt_settings(service_env),
    );
    lemma_inserts_onto_distinct(base, s);
    let j = inline.lemma_entry_of_key(k);
    inline.lemma_entry_in_map(j);
    crate::namemap::lemma_lookup_distinct(s, j);
    assert(s[j] == (inline.pairs()[j].0, inline.pairs()[j].1@));
}

/// A terminal's kept history never exceeds its cap, and is the end of
/// everything it was given.
pub proof fn law_history_capped(history: Seq<u8>, data: Seq<u8>, cap: nat)
    ensures
        capped(history, data, cap).len() <= cap || capped(history, data, cap) == history + data,
        capped(history, data, cap).len() <= cap || history.len() + data.len() <= cap,
        (history + data).subrange(
            (history + data).len() - capped(history, data, cap).len(),
            (history + data).len() as int,
        ) == capped(history, data, cap),
{
    let all = history + data;
    if all.len() > cap {
        assert(all.subrange(all.len() - cap, all.len() as int) =~= all.skip(all.len() - cap));
    } else {
        assert(all.subrange(0, all.len() as int) =~= all);
    }
}

/// The console never holds more than its limit of lines.
pub proof fn law_console_bounded(logs: Seq<LogEntry>, e: LogEntry)
    requires
        logs.len() <= LOG_LIMIT,
    ensures
        logs_after(logs, e).len() <= LOG_LIMIT,
        logs_after(logs, e).last() == e,
{
}

/// Name order is a strict total order, so sorting by it is well defined.
pub proof fn law_name_order(a: Seq<char>, b: Seq<char>, c: Seq<char>)
    ensures
        !name_lt(a, a),
        name_lt(a, b) ==> !name_lt(b, a),
        name_lt(a, b) && name_lt(b, c) ==> name_lt(a, c),
        a != b ==> name_lt(a, b) || name_lt(b, a),
{
    crate::scan::lemma_name_lt_order(a, b, c);
}

/// A configuration's own services win over discovered compose services of
/// the same name, and discovered ones it lacks are added.
pub proof fn law_configured_services_win<V>(compose: Map<Seq<char>, V>, configured: Map<Seq<char>, V>, k: Seq<char>)
    ensures
        configured.contains_key(k) ==> compose.union_prefer_right(configured)[k] == configured[k],
        !configured.contains_key(k) && compose.contains_key(k) ==> compose.union_prefer_right(configured)[k]
            == compose[k],
        compose.union_prefer_right(configured).contains_key(k) <==> (configured.contains_key(k)
            || compose.contains_key(k)),
{
}

proof fn lemma_digit_injective(a: nat, b: nat)
    requires
        a < 10,
        b < 10,
        digit_char(a) == digit_char(b),
    ensures
        a == b,
{
}

proof fn lemma_decimal_len(n: nat)
    ensures
        decimal(n).len() >= 1,
        n >= 10 ==> decimal(n).len() >= 2,
    decreases n,
{
    if n >= 10 {
        lemma_decimal_len(n / 10);
    }
}

proof fn lemma_decimal_injective(n: nat, m: nat)
    requires
        decimal(n) == decimal(m),
    ensures
        n == m,
    decreases n,
{
    lemma_decimal_len(n);
    lemma_decimal_len(m);
    if n < 10 && m < 10 {
        assert(decimal(n)[0] == digit_char(n));
        assert(decimal(m)[0] == digit_char(m));
        lemma_digit_injective(n, m);
    } else if n >= 10 && m >= 10 {
        let a = decimal(n / 10);
        let b = decimal(m / 10);
        assert(decimal(n).last() == digit_char(n % 10));
        assert(decimal(m).last() == digit_char(m % 10));
        lemma_digit_injective(n % 10, m % 10);
        assert(decimal(n).drop_last() =~= a);
        assert(decimal(m).drop_last() =~= b);
        lemma_decimal_injective(n / 10, m / 10);
    }
}

/// Shell sessions with different numbers get different names.
pub proof fn law_shell_names_distinct(n: u32, m: u32)
    requires
        n != m,
    ensures
        shell_name(n) != shell_name(m),
{
    if shell_name(n) == shell_name(m) {
        let p = "Terminal "@;
        assert(shell_name(n).skip(p.len() as int) =~= decimal(n as nat));
        assert(shell_name(m).skip(p.len() as int) =~= decimal(m as nat));
        lemma_decimal_injective(n as nat, m as nat);
    }
}


/// Binding a volume twice for a project gives the same bind as once: a
/// named volume is prefixed with the project name only the first time
/// (for project names without `:`).
pub proof fn law_volume_bind_idempotent(project: Seq<char>, v: Seq<char>)
    requires
        !project.contains(':'),
    ensures
        bind_of(project, bind_of(project, v)) == bind_of(project, v),
{
    match split_once(v, ':') {
        Some((source, dest)) => {
            crate::text::lemma_first_index_of_spec(v, ':');
            let i = first_index_of(v, ':')->0;
            assert(source == v.take(i));
            if is_named_volume(source) && !seq_starts_with(source, project + "_"@) {
                reveal_strlit("_");
                assert("_"@ =~= seq!['_']);
                let prefix = project + "_"@;
                let source2 = prefix + source;
                assert(!source2.contains(':')) by {
                    if source2.contains(':') {
                        let k = choose|k: int| 0 <= k < source2.len() && source2[k] == ':';
                        if k < project.len() {
                            assert(source2[k] == project[k]);
                            assert(project.contains(':'));
                        } else if k == project.len() {
                            assert(source2[k] == '_');
                        } else {
                            assert(source2[k] == source[k - prefix.len()]);
                            assert(v[k - prefix.len()] == ':');
                        }
                    }
                }
                let w = project + "_"@ + source + ":"@ + dest;
                reveal_strlit(":");
                assert(w =~= source2 + seq![':'] + dest);
                crate::text::lemma_split_at_separator(source2, ':', dest);
                assert(source2.subrange(0, prefix.len() as int) =~= prefix);
                assert(seq_starts_with(source2, prefix));
            }
        },
        None => {},
    }
}

/// `${service.port}` stands for the service's port and `${service.host}` for
/// `localhost`, for service names without `.`.
pub proof fn law_port_and_host_placeholders(
    full: Seq<char>,
    service: Seq<char>,
    ports: Map<Seq<char>, u16>,
    environment: Map<Seq<char>, Seq<char>>,
)
    requires
        !service.contains('.'),
    ensures
        ports.contains_key(service) ==> resolve(full, service + "."@ + "port"@, ports, environment) == Ok::<
            Seq<char>,
            Seq<char>,
        >(decimal(ports[service] as nat)),
        resolve(full, service + "."@ + "host"@, ports, environment) == Ok::<Seq<char>, Seq<char>>("localhost"@),
{
    reveal_strlit(".");
    assert(service + "."@ + "port"@ =~= service + seq!['.'] + "port"@);
    assert(service + "."@ + "host"@ =~= service + seq!['.'] + "host"@);
    crate::text::lemma_split_at_separator(service, '.', "port"@);
    crate::text::lemma_split_at_separator(service, '.', "host"@);
    reveal_strlit("port");
    reveal_strlit("host");
    assert("host"@ != "port"@) by {
        assert("host"@[0] != "port"@[0]);
    }
}

/// An existing container is used again only when it is bound to the
/// requested host port; otherwise it is recreated, and stopped first only
/// when it runs.
pub proof fn law_container_reuse(existing: Option<Seq<char>>, running: bool, host_port: u16)
    ensures
        !(existing_plan(existing, running, host_port) is Recreate) ==> existing == Some(decimal(host_port as nat)),
        existing_plan(existing, running, host_port) is Keep ==> running,
        existing_plan(existing, running, host_port) matches ExistingContainerPlan::Recreate { stop_first } ==> stop_first
            == running,
{
}


/// The two names a store service may have without naming its engine, and
/// the one a cache may have.
pub open spec fn plain_store_name(l: Seq<char>) -> bool {
    l == "db"@ || l == "database"@ || l == "cache"@
}

/// A service's kind follows the words its lowercased name `l` mentions,
/// earlier words taking precedence: `postgres` (or the name `db` or
/// `database`) makes it Postgres; `redis` (or the name `cache`) Redis;
/// `mysql` or `mariadb` MySQL; `mongo` Mongo; `web`, `app`, `server` or
/// `api` HTTP; a name mentioning none of them is Generic.
pub proof fn law_service_name_kinds(l: Seq<char>)
    ensures
        seq_contains(l, "postgres"@) || l == "db"@ || l == "database"@ ==> type_for_name(l)
            == ServiceType::Postgres,
        (seq_contains(l, "redis"@) || l == "cache"@) && !seq_contains(l, "postgres"@) && l != "db"@
            && l != "database"@ ==> type_for_name(l) == ServiceType::Redis,
        (seq_contains(l, "mysql"@) || seq_contains(l, "mariadb"@)) && !seq_contains(l, "postgres"@)
            && !seq_contains(l, "redis"@) && !plain_store_name(l) ==> type_for_name(l)
            == ServiceType::Mysql,
        seq_contains(l, "mongo"@) && !seq_contains(l, "postgres"@) && !seq_contains(l, "redis"@)
            && !seq_contains(l, "mysql"@) && !seq_contains(l, "mariadb"@) && !plain_store_name(l)
            ==> type_for_name(l) == ServiceType::Mongo,
        (seq_contains(l, "web"@) || seq_contains(l, "app"@) || seq_contains(l, "server"@)
            || seq_contains(l, "api"@)) && !seq_contains(l, "postgres"@) && !seq_contains(l, "redis"@)
            && !seq_contains(l, "mysql"@) && !seq_contains(l, "mariadb"@) && !seq_contains(l, "mongo"@)
            && !plain_store_name(l) ==> type_for_name(l) == ServiceType::Http,
        !seq_contains(l, "postgres"@) && !seq_contains(l, "redis"@) && !seq_contains(l, "mysql"@)
            && !seq_contains(l, "mariadb"@) && !seq_contains(l, "mongo"@) && !seq_contains(l, "web"@)
            && !seq_contains(l, "app"@) && !seq_contains(l, "server"@) && !seq_contains(l, "api"@)
            && !plain_store_name(l) ==> type_for_name(l) == ServiceType::Generic,
{
}

/// An image's kind follows the words its lowercased name `l` mentions,
/// earlier words taking precedence: `postgres`, `redis`, `mysql` or
/// `mariadb`, `mongo`, then `nginx`, `httpd` or `node` for HTTP; an image
/// mentioning none of them is Generic.
pub proof fn law_image_kinds(l: Seq<char>)
    ensures
        seq_contains(l, "postgres"@) ==> type_for_image(l) == ServiceType::Postgres,
        seq_contains(l, "redis"@) && !seq_contains(l, "postgres"@) ==> type_for_image(l)
            == ServiceType::Redis,
        (seq_contains(l, "mysql"@) || seq_contains(l, "mariadb"@)) && !seq_contains(l, "postgres"@)
            && !seq_contains(l, "redis"@) ==> type_for_image(l) == ServiceType::Mysql,
        seq_contains(l, "mongo"@) && !seq_contains(l, "postgres"@) && !seq_contains(l, "redis"@)
            && !seq_contains(l, "mysql"@) && !seq_contains(l, "mariadb"@) ==> type_for_image(l)
            == ServiceType::Mongo,
        (seq_contains(l, "nginx"@) || seq_contains(l, "httpd"@) || seq_contains(l, "node"@))
            && !seq_contains(l, "postgres"@) && !seq_contains(l, "redis"@) && !seq_contains(l, "mysql"@)
            && !seq_contains(l, "mariadb"@) && !seq_contains(l, "mongo"@) ==> type_for_image(l)
            == ServiceType::Http,
        !seq_contains(l, "postgres"@) && !seq_contains(l, "redis"@) && !seq_contains(l, "mysql"@)
            && !seq_contains(l, "mariadb"@) && !seq_contains(l, "mongo"@) && !seq_contains(l, "nginx"@)
            && !seq_contains(l, "httpd"@) && !seq_contains(l, "node"@) ==> type_for_image(l)
            == ServiceType::Generic,
{
}

/// A container listens on its engine's well-known port, read from the
/// words its lowercased image name `l` mentions, earlier words taking
/// precedence: `postgres` 5432, `redis` 6379, `mysql` or `mariadb` 3306,
/// `mongo` 27017, `nginx` 80; other images have no known port.
pub proof fn law_image_ports(l: Seq<char>)
    ensures
        seq_contains(l, "postgres"@) ==> image_port_for(l) == Some(5432u16),
        seq_contains(l, "redis"@) && !seq_contains(l, "postgres"@) ==> image_port_for(l) == Some(
            6379u16,
        ),
        (seq_contains(l, "mysql"@) || seq_contains(l, "mariadb"@)) && !seq_contains(l, "postgres"@)
            && !seq_contains(l, "redis"@) ==> image_port_for(l) == Some(3306u16),
        seq_contains(l, "mongo"@) && !seq_contains(l, "postgres"@) && !seq_contains(l, "redis"@)
            && !seq_contains(l, "mysql"@) && !seq_contains(l, "mariadb"@) ==> image_port_for(l) == Some(
            27017u16,
        ),
        seq_contains(l, "nginx"@) && !seq_contains(l, "postgres"@) && !seq_contains(l, "redis"@)
            && !seq_contains(l, "mysql"@) && !seq_contains(l, "mariadb"@) && !seq_contains(l, "mongo"@)
            ==> image_port_for(l) == Some(80u16),
        !seq_contains(l, "postgres"@) && !seq_contains(l, "redis"@) && !seq_contains(l, "mysql"@)
            && !seq_contains(l, "mariadb"@) && !seq_contains(l, "mongo"@) && !seq_contains(l, "nginx"@)
            ==> image_port_for(l) is None,
{
}

/// The host port of a docker service is bound to the configured internal
/// port when there is one; otherwise to the port its image is known to
/// listen on (3306 for a MySQL or MariaDB image, and so on); otherwise to
/// 8080.
pub proof fn law_container_port(c: DockerView)
    ensures
        c.internal_port matches Some(p) ==> container_port_of(c) == p,
        c.internal_port is None ==> container_port_of(c) == match image_port_for(lowercase(c.image)) {
            Some(p) => p,
            None => 8080u16,
        },
        c.internal_port is None && (seq_contains(lowercase(c.image), "mysql"@) || seq_contains(
            lowercase(c.image),
            "mariadb"@,
        )) && !seq_contains(lowercase(c.image), "postgres"@) && !seq_contains(
            lowercase(c.image),
            "redis"@,
        ) ==> container_port_of(c) == 3306u16,
{
    law_image_ports(lowercase(c.image));
}

/// A port detected for an image of a compose file follows the words its
/// lowercased name `l` mentions, earlier words taking precedence:
/// `postgres` 5432, `redis` 6379, `mysql` or `mariadb` 3306, `mongo` 27017,
/// `nginx`, `httpd` or `apache` 80; other images get none.
pub proof fn law_detected_ports(l: Seq<char>)
    ensures
        seq_contains(l, "postgres"@) ==> internal_port_for(l) == Some(5432u16),
        seq_contains(l, "redis"@) && !seq_contains(l, "postgres"@) ==> internal_port_for(l) == Some(
            6379u16,
        ),
        (seq_contains(l, "mysql"@) || seq_contains(l, "mariadb"@)) && !seq_contains(l, "postgres"@)
            && !seq_contains(l, "redis"@) ==> internal_port_for(l) == Some(3306u16),
        seq_contains(l, "mongo"@) && !seq_contains(l, "postgres"@) && !seq_contains(l, "redis"@)
            && !seq_contains(l, "mysql"@) && !seq_contains(l, "mariadb"@) ==> internal_port_for(l)
            == Some(27017u16),
        (seq_contains(l, "nginx"@) || seq_contains(l, "httpd"@) || seq_contains(l, "apache"@))
            && !seq_contains(l, "postgres"@) && !seq_contains(l, "redis"@) && !seq_contains(l, "mysql"@)
            && !seq_contains(l, "mariadb"@) && !seq_contains(l, "mongo"@) ==> internal_port_for(l)
            == Some(80u16),
        !seq_contains(l, "postgres"@) && !seq_contains(l, "redis"@) && !seq_contains(l, "mysql"@)
            && !seq_contains(l, "mariadb"@) && !seq_contains(l, "mongo"@) && !seq_contains(l, "nginx"@)
            && !seq_contains(l, "httpd"@) && !seq_contains(l, "apache"@) ==> internal_port_for(l) is None,
{
}

/// The port detected for a compose service's image and the port its
/// container is bound to agree wherever the image has a well-known port;
/// the detector knows only `httpd` and `apache` images besides.
pub proof fn law_detected_and_container_ports_agree(l: Seq<char>)
    ensures
        image_port_for(l) is Some ==> internal_port_for(l) == image_port_for(l),
        image_port_for(l) is None && !seq_contains(l, "httpd"@) && !seq_contains(l, "apache"@)
            ==> internal_port_for(l) is None,
{
}

/// The dev command of a project: the first of the package scripts `dev`,
/// `start` and `serve` that exists, run with the package manager whose lock
/// file is present (bun, then pnpm, then yarn, else npm); without such a
/// script `cargo run` for a Cargo.toml, else `go run .` for a go.mod, else
/// `python -m main` for a pyproject.toml or setup.py, else none.
pub proof fn law_dev_command_choice(m: ProjectMarkers, name: Seq<char>)
    ensures
        has_script(m, "dev"@) ==> dev_command(m) == Some(script_command(m, "dev"@)),
        !has_script(m, "dev"@) && has_script(m, "start"@) ==> dev_command(m) == Some(
            script_command(m, "start"@),
        ),
        !has_script(m, "dev"@) && !has_script(m, "start"@) && has_script(m, "serve"@) ==> dev_command(
            m,
        ) == Some(script_command(m, "serve"@)),
        !has_script(m, "dev"@) && !has_script(m, "start"@) && !has_script(m, "serve"@)
            && m.has_cargo_toml ==> dev_command(m) == Some("cargo run"@),
        !has_script(m, "dev"@) && !has_script(m, "start"@) && !has_script(m, "serve"@)
            && !m.has_cargo_toml && m.has_go_mod ==> dev_command(m) == Some("go run ."@),
        !has_script(m, "dev"@) && !has_script(m, "start"@) && !has_script(m, "serve"@)
            && !m.has_cargo_toml && !m.has_go_mod && (m.has_pyproject || m.has_setup_py)
            ==> dev_command(m) == Some("python -m main"@),
        !has_script(m, "dev"@) && !has_script(m, "start"@) && !has_script(m, "serve"@)
            && !m.has_cargo_toml && !m.has_go_mod && !m.has_pyproject && !m.has_setup_py
            ==> dev_command(m) is None,
        m.has_bun_lock ==> script_command(m, name) == "bun run "@ + name,
        !m.has_bun_lock && m.has_pnpm_lock ==> script_command(m, name) == "pnpm run "@ + name,
        !m.has_bun_lock && !m.has_pnpm_lock && m.has_yarn_lock ==> script_command(m, name) == "yarn "@
            + name,
        !m.has_bun_lock && !m.has_pnpm_lock && !m.has_yarn_lock ==> script_command(m, name)
            == "npm run "@ + name,
{
}

proof fn lemma_leading_space_stops(s: Seq<char>)
    ensures
        leading_space(s) <= s.len(),
        leading_space(s) < s.len() ==> !is_space(s[leading_space(s) as int]),
    decreases s.len(),
{
    if s.len() > 0 && is_space(s[0]) {
        let t = s.drop_first();
        lemma_leading_space_stops(t);
        if leading_space(t) < t.len() {
            assert(t[leading_space(t) as int] == s[leading_space(t) + 1int]);
        }
    }
}

proof fn lemma_trailing_space_bounds(s: Seq<char>)
    ensures
        trailing_space(s) <= s.len(),
        s.len() > 0 && !is_space(s[0]) ==> trailing_space(s) < s.len(),
    decreases s.len(),
{
    if s.len() > 0 && is_space(s.last()) {
        let t = s.drop_last();
        lemma_trailing_space_bounds(t);
        if s.len() > 1 {
            assert(t[0] == s[0]);
        }
    }
}

/// Trimmed text that is not empty starts with the first character of the
/// text that is not white space.
proof fn lemma_trim_first(s: Seq<char>)
    ensures
        trim(s).len() > 0 ==> !is_space(trim(s)[0]),
        s.len() > 0 && !is_space(s[0]) ==> trim(s).len() > 0 && trim(s)[0] == s[0],
{
    lemma_leading_space_stops(s);
    let t = s.skip(leading_space(s) as int);
    lemma_trailing_space_bounds(t);
    if trim(s).len() > 0 {
        assert(trim(s)[0] == t[0]);
        assert(t[0] == s[leading_space(s) as int]);
    }
    if s.len() > 0 && !is_space(s[0]) {
        assert(leading_space(s) == 0);
        assert(t =~= s);
        assert(trim(s)[0] == s[0]);
    }
}

/// A blank line, or one whose first character that is not white space is
/// `#`, defines no variable; a line that defines one has a key that is not
/// empty and starts with that line's first character that is not white
/// space, so never with `#` or white space.
pub proof fn law_env_comment_lines(line: Seq<char>)
    ensures
        trim(line).len() == 0 || trim(line)[0] == '#' ==> env_line_entry(line) is None,
        env_line_entry(line) matches Some((k, v)) ==> k.len() > 0 && k[0] == trim(line)[0] && k[0]
            != '#' && !is_space(k[0]),
{
    let t = trim(line);
    lemma_trim_first(line);
    if t.len() > 0 && t[0] != '#' {
        lemma_first_index_of_spec(t, '=');
        match first_index_of(t, '=') {
            Some(i) => {
                let k = t.take(i);
                if i > 0 {
                    assert(k[0] == t[0]);
                    lemma_trim_first(k);
                } else {
                    assert(k.len() == 0);
                    assert(trim(k).len() == 0);
                }
            },
            None => {},
        }
    }
}

/// A line `KEY=VALUE` (around white space, `KEY` without `=` and not blank,
/// the line not starting with `#`) defines `KEY` trimmed, with `VALUE`
/// trimmed and one pair of matching surrounding double or single quotes
/// removed from it.
pub proof fn law_env_assignment_line(line: Seq<char>, key: Seq<char>, value: Seq<char>)
    requires
        trim(line) == key + seq!['='] + value,
        !key.contains('='),
        trim(key).len() > 0,
        trim(line)[0] != '#',
    ensures
        env_line_entry(line) == Some(
            (
                trim(key),
                if trim(value).len() >= 2 && ((trim(value)[0] == '"' && trim(value).last() == '"') || (
                trim(value)[0] == '\'' && trim(value).last() == '\'')) {
                    trim(value).subrange(1, trim(value).len() - 1)
                } else {
                    trim(value)
                },
            ),
        ),
{
    let t = trim(line);
    let n = key.len() as int;
    assert forall|j: int| 0 <= j < n implies t[j] != '=' by {
        assert(t[j] == key[j]);
    }
    assert(t[n] == '=');
    lemma_first_index_of(t, '=', n);
    assert(t.take(n) =~= key);
    assert(t.skip(n + 1) =~= value);
}

/// Env-file content is read line by line, in order: a first line without a
/// newline contributes what it defines alone, followed by what the rest of
/// the content defines.
pub proof fn law_env_lines_in_order(first: Seq<char>, rest: Seq<char>)
    requires
        !first.contains('\n'),
    ensures
        env_entries(first + seq!['\n'] + rest) == match env_line_entry(first) {
            Some(e) => seq![e] + env_entries(rest),
            None => env_entries(rest),
        },
{
    let c = first + seq!['\n'] + rest;
    let n = first.len() as int;
    assert forall|j: int| 0 <= j < n implies c[j] != '\n' by {
        assert(c[j] == first[j]);
    }
    assert(c[n] == '\n');
    lemma_first_index_of(c, '\n', n);
    assert(c.take(n) =~= first);
    assert(c.skip(n + 1) =~= rest);
    let lines = seq![first] + split_lines(rest);
    assert(split_lines(c) == lines);
    assert(lines.drop_first() =~= split_lines(rest));
    assert(lines[0] == first);
    match env_line_entry(first) {
        Some(e) => {},
        None => {
            assert(Seq::<(Seq<char>, Seq<char>)>::empty() + env_entries(rest) =~= env_entries(rest));
        },
    }
}

proof fn lemma_entry_keys(lines: Seq<Seq<char>>)
    ensures
        forall|j: int|
            0 <= j < lines_entries(lines).len() ==> (#[trigger] lines_entries(lines)[j]).0.len() > 0
                && lines_entries(lines)[j].0[0] != '#',
    decreases lines.len(),
{
    if lines.len() > 0 {
        let rest = lines_entries(lines.drop_first());
        lemma_entry_keys(lines.drop_first());
        law_env_comment_lines(lines[0]);
        let first = match env_line_entry(lines[0]) {
            Some(e) => seq![e],
            None => Seq::<(Seq<char>, Seq<char>)>::empty(),
        };
        assert(lines_entries(lines) == first + rest);
        assert forall|j: int| 0 <= j < lines_entries(lines).len() implies (#[trigger] lines_entries(
            lines,
        )[j]).0.len() > 0 && lines_entries(lines)[j].0[0] != '#' by {
            if j >= first.len() {
                assert(lines_entries(lines)[j] == rest[j - first.len()]);
            }
        }
    }
}

proof fn lemma_inserted_key_listed<V>(s: Seq<(Seq<char>, V)>, k: Seq<char>)
    requires
        inserts_map(s).contains_key(k),
    ensures
        exists|j: int| 0 <= j < s.len() && (#[trigger] s[j]).0 == k,
    decreases s.len(),
{
    if s.last().0 != k {
        lemma_inserted_key_listed(s.drop_last(), k);
        let j = choose|j: int| 0 <= j < s.drop_last().len() && (#[trigger] s.drop_last()[j]).0 == k;
        assert(s[j] == s.drop_last()[j]);
    } else {
        assert(s[s.len() - 1].0 == k);
    }
}

/// No variable read from env-file content is a commented-out one: every key
/// is non-empty and none starts with `#`.
pub proof fn law_env_keys_not_comments(content: Seq<char>, k: Seq<char>)
    requires
        inserts_map(env_entries(content)).contains_key(k),
    ensures
        k.len() > 0,
        k[0] != '#',
{
    lemma_entry_keys(split_lines(content));
    lemma_inserted_key_listed(env_entries(content), k);
}

} // verus!
