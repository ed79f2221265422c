//! Environment files, variable interpolation, and what process services are started with.
use vstd::prelude::*;
use crate::config::{ProcessServiceConfig, ServiceStatus, env_view, joined_path, opt_view, path_join};
use crate::ports::{key_of, service_key};
use crate::error::EnvibeError;
use crate::namemap::{
    NameMap, inserts_map, inserts_onto, lemma_empty_view, lemma_map_values_empty, lemma_map_values_insert,
};
use crate::text::{
    chars_of, concat2, concat3, decimal, find_char, first_index_of,
    lemma_first_index_of_spec, owned, replace_all, replace_str, slice_chars, split_once,
    split_once_chars, split_once_str, str_eq, string_from_chars, i32_to_decimal, signed_decimal, trim, trim_chars, u64_to_decimal,
};

verus! {

/// The lines of `s`, split at each newline.
pub open spec fn split_lines(s: Seq<char>) -> Seq<Seq<char>>
    decreases s.len(),
{
    match first_index_of(s, '\n') {
        Some(i) => {
            proof {
                lemma_first_index_of_spec(s, '\n');
            }
            seq![s.take(i)] + split_lines(s.skip(i + 1))
        },
        None => seq![s],
    }
}

/// A value wrapped in matching double or single quotes (a lone quote
/// character is no wrapped value).
pub open spec fn quoted(v: Seq<char>) -> bool {
    v.len() >= 2 && ((v[0] == '"' && v.last() == '"') || (v[0] == '\'' && v.last() == '\''))
}

/// The `KEY=value` split of a meaningful line (not blank, not a `#` comment).
pub open spec fn env_line_split(line: Seq<char>) -> Option<(Seq<char>, Seq<char>)> {
    let t = trim(line);
    if t.len() == 0 || t[0] == '#' {
        None
    } else {
        split_once(t, '=')
    }
}

/// The entry an env-file line defines: trimmed key, trimmed value with one
/// pair of surrounding quotes removed; none for blank, comment, malformed lines
/// and empty keys.
pub open spec fn env_line_entry(line: Seq<char>) -> Option<(Seq<char>, Seq<char>)> {
    match env_line_split(line) {
        Some((k, v)) => {
            let key = trim(k);
            let v1 = trim(v);
            let value = if quoted(v1) {
                v1.subrange(1, v1.len() - 1)
            } else {
                v1
            };
            if key.len() == 0 {
                None
            } else {
                Some((key, value))
            }
        },
        None => None,
    }
}

/// The entries of a list of lines, in order.
pub open spec fn lines_entries(lines: Seq<Seq<char>>) -> Seq<(Seq<char>, Seq<char>)>
    decreases lines.len(),
{
    if lines.len() == 0 {
        Seq::empty()
    } else {
        let first = match env_line_entry(lines[0]) {
            Some(e) => seq![e],
            None => Seq::empty(),
        };
        first + lines_entries(lines.drop_first())
    }
}

/// The entries of env-file content, in order.
pub open spec fn env_entries(content: Seq<char>) -> Seq<(Seq<char>, Seq<char>)> {
    lines_entries(split_lines(content))
}

proof fn lemma_lines_entries_add(a: Seq<Seq<char>>, b: Seq<Seq<char>>)
    ensures
        lines_entries(a + b) == lines_entries(a) + lines_entries(b),
    decreases a.len(),
{
    if a.len() == 0 {
        assert(a + b =~= b);
        assert(Seq::<(Seq<char>, Seq<char>)>::empty() + lines_entries(b) =~= lines_entries(b));
    } else {
        assert((a + b).drop_first() =~= a.drop_first() + b);
        assert((a + b)[0] == a[0]);
        lemma_lines_entries_add(a.drop_first(), b);
        let first = match env_line_entry(a[0]) {
            Some(e) => seq![e],
            None => Seq::empty(),
        };
        assert(first + (lines_entries(a.drop_first()) + lines_entries(b)) =~= first
            + lines_entries(a.drop_first()) + lines_entries(b));
    }
}

/// Removes one pair of surrounding quotes.
fn unquote(v: Vec<char>) -> (r: Vec<char>)
    ensures
        r@ == if quoted(v@) {
            v@.subrange(1, v@.len() - 1)
        } else {
            v@
        },
{
    let n = v.len();
    if n >= 2 && ((v[0] == '"' && v[n - 1] == '"') || (v[0] == '\'' && v[n - 1] == '\'')) {
        slice_chars(&v, 1, n - 1)
    } else {
        v
    }
}

/// The entry of one env-file line.
fn line_entry(line: &Vec<char>) -> (r: Option<(Vec<char>, Vec<char>)>)
    ensures
        match r {
            Some((k, v)) => env_line_entry(line@) == Some((k@, v@)),
            None => env_line_entry(line@) is None,
        },
{
    let t = trim_chars(line);
    if t.len() == 0 || t[0] == '#' {
        return None;
    }
    match split_once_chars(&t, '=') {
        Some((k, v)) => {
            let key = trim_chars(&k);
            let v1 = trim_chars(&v);
            let value = unquote(v1);
            if key.len() == 0 {
                None
            } else {
                Some((key, value))
            }
        },
        None => None,
    }
}

/// The variables defined by env-file content: `KEY=value` lines, with blank
/// lines and `#` comments skipped, keys and values trimmed, one pair of
/// surrounding quotes removed from values (a value that is a lone quote
/// character stays as it is); a later line overrides an earlier one.
pub fn parse_env_content(content: &str) -> (env: NameMap<String>)
    ensures
        env.wf(),
        env_view(env) == inserts_map(env_entries(content@)),
{
    let all = chars_of(content);
    let mut rest = slice_chars(&all, 0, all.len());
    let mut env: NameMap<String> = NameMap::new();
    let ghost mut done: Seq<(Seq<char>, Seq<char>)> = Seq::empty();
    let ghost mut seen: Seq<Seq<char>> = Seq::empty();
    proof {
        lemma_empty_view(&env);
        lemma_map_values_empty(|s: String| s@);
        assert(all@.subrange(0, all@.len() as int) =~= all@);
        assert(seen + split_lines(rest@) =~= split_lines(content@));
        assert(done =~= lines_entries(seen));
    }
    loop
        invariant_except_break
            seen + split_lines(rest@) == split_lines(content@),
        invariant
            env.wf(),
            env_view(env) == inserts_map(done),
            done == lines_entries(seen),
        ensures
            env.wf(),
            env_view(env) == inserts_map(env_entries(content@)),
        decreases rest@.len(),
    {
        let ghost lines_rest = split_lines(rest@);
        let (line, next, last) = match find_char(&rest, '\n') {
            Some(i) => {
                let line = slice_chars(&rest, 0, i);
                let next = slice_chars(&rest, i + 1, rest.len());
                proof {
                    assert(line@ =~= rest@.take(i as int));
                    assert(next@ =~= rest@.skip(i + 1));
                    assert(lines_rest == seq![line@] + split_lines(next@));
                }
                (line, next, false)
            },
            None => {
                let line = slice_chars(&rest, 0, rest.len());
                proof {
                    assert(line@ =~= rest@);
                    assert(lines_rest == seq![line@]);
                }
                (line, Vec::new(), true)
            },
        };
        proof {
            assert(lines_rest[0] == line@);
            assert(split_lines(content@)[seen.len() as int] == line@);
        }
        let ghost done0 = done;
        let ghost seen0 = seen;
        match line_entry(&line) {
            Some((k, v)) => {
                let ks = string_from_chars(&k);
                let vs = string_from_chars(&v);
                let ghost before = env@;
                env.insert(ks, vs);
                proof {
                    lemma_map_values_insert(before, k@, vs, |s: String| s@);
                    done = done0.push((k@, v@));
                    assert(inserts_map(done) == inserts_map(done0).insert(k@, v@)) by {
                        assert(done.drop_last() =~= done0);
                    }
                }
            },
            None => {},
        }
        proof {
            seen = seen0.push(line@);
            assert(seen =~= seen0 + seq![line@]);
            lemma_lines_entries_add(seen0, seq![line@]);
            assert(seq![line@].drop_first() =~= Seq::<Seq<char>>::empty());
            assert(lines_entries(Seq::<Seq<char>>::empty()) =~= Seq::<(Seq<char>, Seq<char>)>::empty());
            assert(seq![line@][0] == line@);
            assert(lines_entries(seq![line@]) =~= match env_line_entry(line@) {
                Some(e) => seq![e],
                None => Seq::<(Seq<char>, Seq<char>)>::empty(),
            });
            assert(done =~= lines_entries(seen));
        }
        if last {
            proof {
                assert(seen =~= split_lines(content@));
            }
            break;
        }
        proof {
            assert(seen + split_lines(next@) =~= split_lines(content@));
        }
        rest = next;
    }
    env
}


/// A `${name}` placeholder starting at `i`: its name and the index just past
/// its closing brace. The name is one or more characters other than `}`.
pub open spec fn placeholder_at(s: Seq<char>, i: int) -> Option<(Seq<char>, int)> {
    if 0 <= i && i + 1 < s.len() && s[i] == '$' && s[i + 1] == '{' {
        match first_index_of(s.skip(i + 2), '}') {
            Some(d) => if d >= 1 {
                Some((s.subrange(i + 2, i + 2 + d), i + 2 + d + 1))
            } else {
                None
            },
            None => None,
        }
    } else {
        None
    }
}

/// The placeholders of `s` from position `pos` on, scanning left to right
/// without overlap: (full text, name) of each.
pub open spec fn placeholders(s: Seq<char>, pos: int) -> Seq<(Seq<char>, Seq<char>)>
    decreases s.len() - pos,
{
    if pos < 0 || pos >= s.len() {
        Seq::empty()
    } else {
        match placeholder_at(s, pos) {
            Some((name, end)) => {
                proof {
                    lemma_first_index_of_spec(s.skip(pos + 2), '}');
                }
                seq![(s.subrange(pos, end), name)] + placeholders(s, end)
            },
            None => placeholders(s, pos + 1),
        }
    }
}

/// What a placeholder stands for: `service.port`, `service.host`,
/// `service.url`, or an environment variable (left as is when unset).
/// An error gives the text of the interpolation error.
pub open spec fn resolve(
    full: Seq<char>,
    name: Seq<char>,
    ports: Map<Seq<char>, u16>,
    environment: Map<Seq<char>, Seq<char>>,
) -> Result<Seq<char>, Seq<char>> {
    match split_once(name, '.') {
        Some((service, prop)) => if prop == "port"@ {
            if ports.contains_key(service) {
                Ok(decimal(ports[service] as nat))
            } else {
                Err("Service '"@ + service + "' not found for port interpolation"@)
            }
        } else if prop == "host"@ {
            Ok("localhost"@)
        } else if prop == "url"@ {
            if ports.contains_key(service) {
                Ok("localhost:"@ + decimal(ports[service] as nat))
            } else {
                Err("Service '"@ + service + "' not found for URL interpolation"@)
            }
        } else {
            Err("Unknown property '"@ + prop + "' for service '"@ + service + "'"@)
        },
        None => if environment.contains_key(name) {
            Ok(environment[name])
        } else {
            Ok(full)
        },
    }
}

/// The replacements for a list of placeholders, or the first error among them.
pub open spec fn resolve_all(
    ph: Seq<(Seq<char>, Seq<char>)>,
    ports: Map<Seq<char>, u16>,
    environment: Map<Seq<char>, Seq<char>>,
) -> Result<Seq<(Seq<char>, Seq<char>)>, Seq<char>>
    decreases ph.len(),
{
    if ph.len() == 0 {
        Ok(Seq::empty())
    } else {
        match resolve(ph[0].0, ph[0].1, ports, environment) {
            Err(e) => Err(e),
            Ok(to) => match resolve_all(ph.drop_first(), ports, environment) {
                Err(e) => Err(e),
                Ok(rest) => Ok(seq![(ph[0].0, to)] + rest),
            },
        }
    }
}

/// `s` with each (from, to) replacement applied in turn, every occurrence each time.
pub open spec fn apply_replacements(s: Seq<char>, reps: Seq<(Seq<char>, Seq<char>)>) -> Seq<char>
    decreases reps.len(),
{
    if reps.len() == 0 {
        s
    } else {
        apply_replacements(replace_all(s, reps[0].0, reps[0].1), reps.drop_first())
    }
}

/// Interpolation of `s`: its placeholders resolved, then replaced.
pub open spec fn interpolation(
    s: Seq<char>,
    ports: Map<Seq<char>, u16>,
    environment: Map<Seq<char>, Seq<char>>,
) -> Result<Seq<char>, Seq<char>> {
    match resolve_all(placeholders(s, 0), ports, environment) {
        Ok(reps) => Ok(apply_replacements(s, reps)),
        Err(e) => Err(e),
    }
}

fn placeholder_at_exec(s: &Vec<char>, i: usize) -> (r: Option<(Vec<char>, usize)>)
    ensures
        match r {
            Some((name, end)) => placeholder_at(s@, i as int) == Some((name@, end as int)),
            None => placeholder_at(s@, i as int) is None,
        },
{
    if i < s.len() && i + 1 < s.len() && s[i] == '$' && s[i + 1] == '{' {
        let tail = slice_chars(s, i + 2, s.len());
        assert(tail@ =~= s@.skip(i + 2));
        match find_char(&tail, '}') {
            Some(d) => {
                if d >= 1 {
                    let name = slice_chars(s, i + 2, i + 2 + d);
                    Some((name, i + 2 + d + 1))
                } else {
                    None
                }
            },
            None => None,
        }
    } else {
        None
    }
}

/// The placeholders of `s`, left to right: (full text, name) of each.
pub fn find_placeholders(s: &Vec<char>) -> (r: Vec<(Vec<char>, Vec<char>)>)
    ensures
        r@.map_values(|e: (Vec<char>, Vec<char>)| (e.0@, e.1@)) == placeholders(s@, 0),
{
    let mut out: Vec<(Vec<char>, Vec<char>)> = Vec::new();
    let mut pos: usize = 0;
    while pos < s.len()
        invariant
            pos <= s.len(),
            out@.map_values(|e: (Vec<char>, Vec<char>)| (e.0@, e.1@)) + placeholders(s@, pos as int)
                == placeholders(s@, 0),
        decreases s.len() - pos,
    {
        let ghost before = out@.map_values(|e: (Vec<char>, Vec<char>)| (e.0@, e.1@));
        match placeholder_at_exec(s, pos) {
            Some((name, end)) => {
                proof {
                    lemma_first_index_of_spec(s@.skip(pos + 2), '}');
                }
                let full = slice_chars(s, pos, end);
                let ghost item = (full@, name@);
                out.push((full, name));
                proof {
                    assert(out@.map_values(|e: (Vec<char>, Vec<char>)| (e.0@, e.1@)) =~= before.push(item));
                    assert(before.push(item) + placeholders(s@, end as int) =~= before + (seq![item]
                        + placeholders(s@, end as int)));
                }
                pos = end;
            },
            None => {
                pos = pos + 1;
            },
        }
    }
    assert(placeholders(s@, pos as int) =~= Seq::<(Seq<char>, Seq<char>)>::empty());
    assert(out@.map_values(|e: (Vec<char>, Vec<char>)| (e.0@, e.1@)) + Seq::<(Seq<char>, Seq<char>)>::empty()
        =~= out@.map_values(|e: (Vec<char>, Vec<char>)| (e.0@, e.1@)));
    out
}

fn resolve_exec(
    full: &Vec<char>,
    name: &Vec<char>,
    ports: &NameMap<u16>,
    environment: &NameMap<String>,
) -> (r: Result<Vec<char>, String>)
    ensures
        match r {
            Ok(v) => resolve(full@, name@, ports@, env_view(*environment)) == Ok::<Seq<char>, Seq<char>>(v@),
            Err(e) => resolve(full@, name@, ports@, env_view(*environment)) == Err::<Seq<char>, Seq<char>>(e@),
        },
{
    match split_once_chars(name, '.') {
        Some((service_v, prop_v)) => {
            let service = string_from_chars(&service_v);
            let prop = string_from_chars(&prop_v);
            proof {
                assert(split_once(name@, '.') == Some((service@, prop@)));
            }
            if str_eq(prop.as_str(), "port") {
                match ports.get(service.as_str()) {
                    Some(p) => {
                        assert(ports@.contains_key(service@) && ports@[service@] == *p);
                        Ok(chars_of(u64_to_decimal(*p as u64).as_str()))
                    },
                    None => {
                        let msg = concat3("Service '", service.as_str(), "' not found for port interpolation");
                        Err(msg)
                    },
                }
            } else if str_eq(prop.as_str(), "host") {
                Ok(chars_of("localhost"))
            } else if str_eq(prop.as_str(), "url") {
                match ports.get(service.as_str()) {
                    Some(p) => {
                        assert(ports@.contains_key(service@) && ports@[service@] == *p);
                        Ok(chars_of(concat2("localhost:", u64_to_decimal(*p as u64).as_str()).as_str()))
                    },
                    None => {
                        let msg = concat3("Service '", service.as_str(), "' not found for URL interpolation");
                        Err(msg)
                    },
                }
            } else {
                let mut msg = concat3("Unknown property '", prop.as_str(), "' for service '");
                msg.append(service.as_str());
                msg.append("'");
                Err(msg)
            }
        },
        None => {
            let key = string_from_chars(name);
            match environment.get(key.as_str()) {
                Some(v) => {
                    assert(environment@.contains_key(name@) && environment@[name@] == *v);
                    assert(env_view(*environment).contains_key(name@));
                    assert(env_view(*environment)[name@] == v@);
                    Ok(chars_of(v.as_str()))
                },
                None => {
                    assert(!env_view(*environment).contains_key(name@));
                    let r = slice_chars(full, 0, full.len());
                    assert(r@ =~= full@);
                    Ok(r)
                },
            }
        },
    }
}

proof fn lemma_apply_replacements_push(s: Seq<char>, reps: Seq<(Seq<char>, Seq<char>)>, x: (Seq<char>, Seq<char>))
    ensures
        apply_replacements(s, reps.push(x)) == replace_all(apply_replacements(s, reps), x.0, x.1),
    decreases reps.len(),
{
    if reps.len() == 0 {
        assert(reps.push(x).drop_first() =~= Seq::<(Seq<char>, Seq<char>)>::empty());
        assert(reps.push(x)[0] == x);
        assert(apply_replacements(replace_all(s, x.0, x.1), Seq::<(Seq<char>, Seq<char>)>::empty()) == replace_all(s, x.0, x.1));
    } else {
        assert(reps.push(x)[0] == reps[0]);
        assert(reps.push(x).drop_first() =~= reps.drop_first().push(x));
        lemma_apply_replacements_push(replace_all(s, reps[0].0, reps[0].1), reps.drop_first(), x);
    }
}

proof fn lemma_resolve_all_prefix(
    ph: Seq<(Seq<char>, Seq<char>)>,
    i: int,
    ports: Map<Seq<char>, u16>,
    environment: Map<Seq<char>, Seq<char>>,
    done: Seq<(Seq<char>, Seq<char>)>,
)
    requires
        0 <= i <= ph.len(),
        done.len() == i,
        forall|j: int| 0 <= j < i ==> #[trigger] resolve(ph[j].0, ph[j].1, ports, environment) == Ok::<Seq<char>, Seq<char>>(done[j].1) && done[j].0 == ph[j].0,
    ensures
        resolve_all(ph, ports, environment) == match resolve_all(ph.skip(i), ports, environment) {
            Ok(rest) => Ok(done + rest),
            Err(e) => Err::<Seq<(Seq<char>, Seq<char>)>, Seq<char>>(e),
        },
    decreases i,
{
    if i == 0 {
        assert(ph.skip(0) =~= ph);
        match resolve_all(ph, ports, environment) {
            Ok(rest) => assert(done + rest =~= rest),
            Err(e) => {},
        }
    } else {
        let t = ph.drop_first();
        assert(t.skip(i - 1) =~= ph.skip(i));
        lemma_resolve_all_prefix(t, i - 1, ports, environment, done.drop_first());
        assert(resolve(ph[0].0, ph[0].1, ports, environment) == Ok::<Seq<char>, Seq<char>>(done[0].1));
        match resolve_all(ph.skip(i), ports, environment) {
            Ok(rest) => {
                assert(seq![(ph[0].0, done[0].1)] + (done.drop_first() + rest) =~= done + rest);
            },
            Err(e) => {},
        }
    }
}

/// Interpolates the placeholders of `value`: `${service.port}` and
/// `${service.url}` from the service ports, `${service.host}` as `localhost`,
/// and `${NAME}` from the process environment (left as is when unset).
pub fn interpolate_env(
    value: &str,
    service_ports: &NameMap<u16>,
    environment: &NameMap<String>,
) -> (r: Result<String, EnvibeError>)
    ensures
        match interpolation(value@, service_ports@, env_view(*environment)) {
            Ok(t) => r matches Ok(v) && v@ == t,
            Err(m) => r matches Err(EnvibeError::Interpolation(e)) && e@ == m,
        },
{
    let sv = chars_of(value);
    let ph = find_placeholders(&sv);
    let ghost phs = placeholders(value@, 0);
    let mut reps: Vec<(Vec<char>, Vec<char>)> = Vec::new();
    let mut i: usize = 0;
    while i < ph.len()
        invariant
            i <= ph.len(),
            sv@ == value@,
            ph@.map_values(|e: (Vec<char>, Vec<char>)| (e.0@, e.1@)) == phs,
            phs == placeholders(value@, 0),
            reps@.len() == i,
            forall|j: int| 0 <= j < i ==> #[trigger] resolve(phs[j].0, phs[j].1, service_ports@, env_view(*environment)) == Ok::<Seq<char>, Seq<char>>(reps@[j].1@) && reps@[j].0@ == phs[j].0,
        decreases ph.len() - i,
    {
        let ghost pj = phs[i as int];
        assert(pj == (ph@[i as int].0@, ph@[i as int].1@));
        match resolve_exec(&ph[i].0, &ph[i].1, service_ports, environment) {
            Ok(to) => {
                let from = slice_chars(&ph[i].0, 0, ph[i].0.len());
                assert(from@ =~= ph@[i as int].0@);
                reps.push((from, to));
            },
            Err(msg) => {
                proof {
                    let done = reps@.map_values(|e: (Vec<char>, Vec<char>)| (e.0@, e.1@));
                    lemma_resolve_all_prefix(phs, i as int, service_ports@, env_view(*environment), done);
                    assert(phs.skip(i as int)[0] == pj);
                }
                return Err(EnvibeError::Interpolation(msg));
            },
        }
        i = i + 1;
    }
    let ghost done = reps@.map_values(|e: (Vec<char>, Vec<char>)| (e.0@, e.1@));
    proof {
        lemma_resolve_all_prefix(phs, i as int, service_ports@, env_view(*environment), done);
        assert(phs.skip(i as int) =~= Seq::<(Seq<char>, Seq<char>)>::empty());
        assert(done + Seq::<(Seq<char>, Seq<char>)>::empty() =~= done);
    }
    let mut result = slice_chars(&sv, 0, sv.len());
    let mut k: usize = 0;
    assert(done.take(0) =~= Seq::<(Seq<char>, Seq<char>)>::empty());
    while k < reps.len()
        invariant
            k <= reps.len(),
            done == reps@.map_values(|e: (Vec<char>, Vec<char>)| (e.0@, e.1@)),
            result@ == apply_replacements(value@, done.take(k as int)),
        decreases reps.len() - k,
    {
        result = replace_all_chars_owned(&result, &reps[k].0, &reps[k].1);
        proof {
            assert(done.take(k + 1) =~= done.take(k as int).push(done[k as int]));
            lemma_apply_replacements_push(value@, done.take(k as int), done[k as int]);
        }
        k = k + 1;
    }
    assert(done.take(reps.len() as int) =~= done);
    Ok(string_from_chars(&result))
}

fn replace_all_chars_owned(s: &Vec<char>, from: &Vec<char>, to: &Vec<char>) -> (r: Vec<char>)
    ensures
        r@ == replace_all(s@, from@, to@),
{
    crate::text::replace_all_chars(s, from, to)
}

/// Interpolation of each value of an environment map, in entry order; the
/// first failure is the error.
pub open spec fn interpolate_pairs(
    s: Seq<(Seq<char>, String)>,
    ports: Map<Seq<char>, u16>,
    environment: Map<Seq<char>, Seq<char>>,
) -> Result<Seq<(Seq<char>, Seq<char>)>, Seq<char>>
    decreases s.len(),
{
    if s.len() == 0 {
        Ok(Seq::empty())
    } else {
        match interpolation(s[0].1@, ports, environment) {
            Err(e) => Err(e),
            Ok(v) => match interpolate_pairs(s.drop_first(), ports, environment) {
                Err(e) => Err(e),
                Ok(rest) => Ok(seq![(s[0].0, v)] + rest),
            },
        }
    }
}

/// Interpolates all values of an environment map.
pub fn interpolate_env_map(
    env: &NameMap<String>,
    service_ports: &NameMap<u16>,
    environment: &NameMap<String>,
) -> (r: Result<NameMap<String>, EnvibeError>)
    requires
        env.wf(),
    ensures
        match interpolate_pairs(env.pairs(), service_ports@, env_view(*environment)) {
            Ok(ps) => r matches Ok(m) && m.wf() && env_view(m) == inserts_map(ps),
            Err(msg) => r matches Err(EnvibeError::Interpolation(e)) && e@ == msg,
        },
        all_interpolate(env_view(*env), service_ports@, env_view(*environment)) ==> (r matches Ok(m)
            && env_view(m) == interpolated_map(env_view(*env), service_ports@, env_view(*environment))),
        !all_interpolate(env_view(*env), service_ports@, env_view(*environment)) ==> (r matches Err(
            EnvibeError::Interpolation(e),
        ) && fails_with(env_view(*env), service_ports@, env_view(*environment), e@)),
{
    let mut result: NameMap<String> = NameMap::new();
    let ghost ports = service_ports@;
    let ghost envm = env_view(*environment);
    let ghost mut done: Seq<(Seq<char>, Seq<char>)> = Seq::empty();
    proof {
        lemma_empty_view(&result);
        lemma_map_values_empty(|s: String| s@);
    }
    let mut i: usize = 0;
    proof {
        assert(env.pairs().skip(0) =~= env.pairs());
        match interpolate_pairs(env.pairs(), ports, envm) {
            Ok(rest) => assert(done + rest =~= rest),
            Err(e) => {},
        }
    }
    while i < env.len()
        invariant
            i <= env.pairs().len(),
            env.wf(),
            result.wf(),
            env_view(result) == inserts_map(done),
            interpolate_pairs(env.pairs(), ports, envm) == match interpolate_pairs(env.pairs().skip(i as int), ports, envm) {
                Ok(rest) => Ok(done + rest),
                Err(e) => Err::<Seq<(Seq<char>, Seq<char>)>, Seq<char>>(e),
            },
            ports == service_ports@,
            envm == env_view(*environment),
        decreases env.pairs().len() - i,
    {
        let ghost tail = env.pairs().skip(i as int);
        assert(tail[0] == env.pairs()[i as int]);
        assert(tail.drop_first() =~= env.pairs().skip(i + 1));
        let k = env.key_at(i);
        let v = env.value_at(i);
        match interpolate_env(v.as_str(), service_ports, environment) {
            Ok(t) => {
                let ghost before = result@;
                let ghost kv = (k@, t@);
                result.insert(k.clone(), t);
                proof {
                    lemma_map_values_insert(before, kv.0, t, |s: String| s@);
                    let d0 = done;
                    done = d0.push(kv);
                    assert(done.drop_last() =~= d0);
                    match interpolate_pairs(env.pairs().skip(i + 1), ports, envm) {
                        Ok(rest) => assert(d0 + (seq![kv] + rest) =~= done + rest),
                        Err(e) => {},
                    }
                }
            },
            Err(e) => {
                proof {
                    lemma_interpolation_result(*env, service_ports@, env_view(*environment));
                }
                return Err(e);
            },
        }
        i = i + 1;
    }
    proof {
        assert(env.pairs().skip(i as int) =~= Seq::<(Seq<char>, String)>::empty());
        assert(done + Seq::<(Seq<char>, Seq<char>)>::empty() =~= done);
        lemma_interpolation_result(*env, service_ports@, env_view(*environment));
    }
    Ok(result)
}

/// Where a process service runs: the project directory for `.`, else the
/// configured directory joined onto it.
pub open spec fn working_dir_of(config_dir: Seq<char>, project_path: Seq<char>) -> Seq<char> {
    if config_dir == seq!['.'] {
        project_path
    } else {
        joined_path(project_path, config_dir)
    }
}

/// The directory a process service runs in.
pub fn process_working_dir(config_dir: &str, project_path: &str) -> (r: String)
    ensures
        r@ == working_dir_of(config_dir@, project_path@),
{
    proof {
        reveal_strlit(".");
        assert("."@ =~= seq!['.']);
    }
    if str_eq(config_dir, ".") {
        owned(project_path)
    } else {
        path_join(project_path, config_dir)
    }
}

/// The variables a started process takes over from this program's
/// environment, when they are set.
pub open spec fn passed_through() -> Seq<Seq<char>> {
    seq!["PATH"@, "HOME"@, "USER"@, "NODE_PATH"@, "BUN_INSTALL"@]
}

/// The settings for those of `names` that `environment` defines, in order.
pub open spec fn inherited_settings(environment: NameMap<String>, names: Seq<Seq<char>>) -> Seq<(Seq<char>, Seq<char>)>
    decreases names.len(),
{
    if names.len() == 0 {
        Seq::empty()
    } else {
        let rest = inherited_settings(environment, names.drop_last());
        match environment.lookup(names.last()) {
            Some(v) => rest.push((names.last(), v@)),
            None => rest,
        }
    }
}

/// The settings of an environment map, in entry order.
pub open spec fn settings_of(pairs: Seq<(Seq<char>, String)>) -> Seq<(Seq<char>, Seq<char>)> {
    pairs.map_values(|e: (Seq<char>, String)| (e.0, e.1@))
}

/// The environment settings a process service is started with, in the order
/// they are applied (a later one overrides an earlier one): the passed-through
/// variables, the merged and interpolated variables, the service's own
/// variables once more as written (uninterpolated), then `TERM` and
/// `FORCE_COLOR`.
pub open spec fn launch_settings(
    environment: NameMap<String>,
    env_vars: NameMap<String>,
    config_env: NameMap<String>,
) -> Seq<(Seq<char>, Seq<char>)> {
    inherited_settings(environment, passed_through()) + settings_of(env_vars.pairs()) + settings_of(
        config_env.pairs(),
    ) + seq![("TERM"@, "xterm-256color"@), ("FORCE_COLOR"@, "1"@)]
}

/// A pair of strings seen over character sequences.
pub open spec fn pair_view(p: (String, String)) -> (Seq<char>, Seq<char>) {
    (p.0@, p.1@)
}

fn push_settings(out: &mut Vec<(String, String)>, m: &NameMap<String>)
    ensures
        final(out)@.map_values(|p: (String, String)| pair_view(p)) == old(out)@.map_values(
            |p: (String, String)| pair_view(p),
        ) + settings_of(m.pairs()),
{
    let ghost start = out@.map_values(|p: (String, String)| pair_view(p));
    let mut i: usize = 0;
    while i < m.len()
        invariant
            i <= m.pairs().len(),
            out@.map_values(|p: (String, String)| pair_view(p)) == start + settings_of(
                m.pairs().take(i as int),
            ),
        decreases m.pairs().len() - i,
    {
        let k = m.key_at(i).clone();
        let v = m.value_at(i).clone();
        let ghost before = out@.map_values(|p: (String, String)| pair_view(p));
        out.push((k, v));
        proof {
            assert(m.pairs().take(i + 1) =~= m.pairs().take(i as int).push(m.pairs()[i as int]));
            assert(out@.map_values(|p: (String, String)| pair_view(p)) =~= before.push(pair_view((k, v))));
            assert(settings_of(m.pairs().take(i + 1)) =~= settings_of(m.pairs().take(i as int)).push(
                (m.pairs()[i as int].0, m.pairs()[i as int].1@),
            ));
        }
        i = i + 1;
    }
    assert(m.pairs().take(m.pairs().len() as int) =~= m.pairs());
}

fn push_inherited(out: &mut Vec<(String, String)>, environment: &NameMap<String>, name: &str)
    ensures
        final(out)@.map_values(|p: (String, String)| pair_view(p)) == old(out)@.map_values(
            |p: (String, String)| pair_view(p),
        ) + match environment.lookup(name@) {
            Some(v) => seq![(name@, v@)],
            None => Seq::empty(),
        },
{
    let ghost before = out@.map_values(|p: (String, String)| pair_view(p));
    match environment.get(name) {
        Some(v) => {
            let e = (owned(name), v.clone());
            out.push(e);
            assert(out@.map_values(|p: (String, String)| pair_view(p)) =~= before + seq![(name@, v@)]);
        },
        None => {
            assert(out@.map_values(|p: (String, String)| pair_view(p)) =~= before + Seq::<(Seq<char>, Seq<char>)>::empty());
        },
    }
}

/// The environment settings a process service is started with, in order.
pub fn launch_environment(
    environment: &NameMap<String>,
    env_vars: &NameMap<String>,
    config_env: &NameMap<String>,
) -> (r: Vec<(String, String)>)
    ensures
        r@.map_values(|p: (String, String)| pair_view(p)) == launch_settings(*environment, *env_vars, *config_env),
{
    let mut out: Vec<(String, String)> = Vec::new();
    proof {
        reveal_strlit("PATH");
        reveal_strlit("HOME");
        reveal_strlit("USER");
        reveal_strlit("NODE_PATH");
        reveal_strlit("BUN_INSTALL");
    }
    push_inherited(&mut out, environment, "PATH");
    push_inherited(&mut out, environment, "HOME");
    push_inherited(&mut out, environment, "USER");
    push_inherited(&mut out, environment, "NODE_PATH");
    push_inherited(&mut out, environment, "BUN_INSTALL");
    proof {
        let names = passed_through();
        let n4 = seq!["PATH"@, "HOME"@, "USER"@, "NODE_PATH"@];
        let n3 = seq!["PATH"@, "HOME"@, "USER"@];
        let n2 = seq!["PATH"@, "HOME"@];
        let n1 = seq!["PATH"@];
        assert(names.drop_last() =~= n4);
        assert(n4.drop_last() =~= n3);
        assert(n3.drop_last() =~= n2);
        assert(n2.drop_last() =~= n1);
        assert(n1.drop_last() =~= Seq::<Seq<char>>::empty());
        let e = *environment;
        let step = |v: Option<String>, k: Seq<char>| match v {
            Some(x) => seq![(k, x@)],
            None => Seq::<(Seq<char>, Seq<char>)>::empty(),
        };
        assert(inherited_settings(e, Seq::<Seq<char>>::empty()) =~= Seq::<(Seq<char>, Seq<char>)>::empty());
        assert(inherited_settings(e, n1) =~= inherited_settings(e, Seq::<Seq<char>>::empty()) + step(e.lookup("PATH"@), "PATH"@));
        assert(inherited_settings(e, n2) =~= inherited_settings(e, n1) + step(e.lookup("HOME"@), "HOME"@));
        assert(inherited_settings(e, n3) =~= inherited_settings(e, n2) + step(e.lookup("USER"@), "USER"@));
        assert(inherited_settings(e, n4) =~= inherited_settings(e, n3) + step(e.lookup("NODE_PATH"@), "NODE_PATH"@));
        assert(inherited_settings(e, names) =~= inherited_settings(e, n4) + step(e.lookup("BUN_INSTALL"@), "BUN_INSTALL"@));
        assert(out@.map_values(|p: (String, String)| pair_view(p)) =~= inherited_settings(*environment, names));
    }
    push_settings(&mut out, env_vars);
    push_settings(&mut out, config_env);
    let ghost before = out@.map_values(|p: (String, String)| pair_view(p));
    out.push((owned("TERM"), owned("xterm-256color")));
    out.push((owned("FORCE_COLOR"), owned("1")));
    assert(out@.map_values(|p: (String, String)| pair_view(p)) =~= before + seq![("TERM"@, "xterm-256color"@), ("FORCE_COLOR"@, "1"@)]);
    out
}


/// The processes started for services, by `project:service` key.
#[derive(Debug)]
pub struct ProcessManager {
    processes: NameMap<u32>,
}

/// What starting a process service comes to.
#[derive(Debug)]
pub enum StartStep {
    /// The service's process is alive: nothing is started, this is its pid.
    AlreadyRunning(u32),
    /// A new process is to be spawned as described.
    Launch(LaunchPlan),
}

/// How to spawn a process service: `shell -c command` in `working_dir`, with
/// the environment settings applied in order.
#[derive(Debug)]
pub struct LaunchPlan {
    pub shell: String,
    pub command: String,
    pub working_dir: String,
    pub env: Vec<(String, String)>,
}

/// The shell used to run a command: the configured one, else `/bin/sh`.
pub open spec fn shell_of(shell: Option<Seq<char>>) -> Seq<char> {
    match shell {
        Some(s) => s,
        None => "/bin/sh"@,
    }
}

impl ProcessManager {
    /// The pid recorded for each started service.
    pub closed spec fn pids(&self) -> Map<Seq<char>, u32> {
        self.processes@
    }

    /// The recorded keys, in the order the processes were started.
    pub closed spec fn keys(&self) -> Seq<Seq<char>> {
        self.processes.key_seq()
    }

    /// The record has one pid per key.
    pub closed spec fn wf(&self) -> bool {
        self.processes.wf()
    }

    /// The recorded keys are those of the pid map.
    pub proof fn lemma_keys(&self)
        requires
            self.wf(),
        ensures
            forall|k: Seq<char>| self.keys().contains(k) <==> #[trigger] self.pids().contains_key(k),
    {
        assert forall|k: Seq<char>| self.keys().contains(k) <==> #[trigger] self.pids().contains_key(k) by {
            if self.keys().contains(k) {
                let i = choose|i: int| 0 <= i < self.keys().len() && self.keys()[i] == k;
                self.processes.lemma_entry_in_map(i);
            }
            if self.pids().contains_key(k) {
                let j = self.processes.lemma_entry_of_key(k);
                assert(self.keys()[j] == k);
            }
        }
    }

    /// No process recorded.
    pub fn new() -> (r: Self)
        ensures
            r.wf(),
            r.pids() == Map::<Seq<char>, u32>::empty(),
            r.keys().len() == 0,
    {
        let r = ProcessManager { processes: NameMap::new() };
        proof {
            lemma_empty_view(&r.processes);
        }
        r
    }

    /// The pid recorded for a project's service.
    pub fn pid_of(&self, project: &str, service: &str) -> (r: Option<u32>)
        ensures
            r == self.pids().get(key_of(project@, service@)),
    {
        let key = service_key(project, service);
        match self.processes.get(key.as_str()) {
            Some(p) => Some(*p),
            None => None,
        }
    }

    /// Whether the service's recorded process is alive, as `alive` reports.
    pub fn is_running<F: Fn(u32) -> bool>(&self, project: &str, service: &str, alive: &F) -> (r: bool)
        requires
            forall|p: u32| call_requires(*alive, (p,)),
        ensures
            match self.pids().get(key_of(project@, service@)) {
                Some(pid) => call_ensures(*alive, (pid,), r),
                None => !r,
            },
    {
        match self.pid_of(project, service) {
            Some(pid) => alive(pid),
            None => false,
        }
    }

    /// `Running` while the service's recorded process is alive, else `Stopped`.
    pub fn get_status<F: Fn(u32) -> bool>(&self, project: &str, service: &str, alive: &F) -> (r: ServiceStatus)
        requires
            forall|p: u32| call_requires(*alive, (p,)),
        ensures
            r == ServiceStatus::Running || r == ServiceStatus::Stopped,
            match self.pids().get(key_of(project@, service@)) {
                Some(pid) => call_ensures(*alive, (pid,), r == ServiceStatus::Running),
                None => r == ServiceStatus::Stopped,
            },
    {
        if self.is_running(project, service, alive) {
            ServiceStatus::Running
        } else {
            ServiceStatus::Stopped
        }
    }

    /// Records the pid of a newly started service process.
    pub fn record_started(&mut self, project: &str, service: &str, pid: u32)
        requires
            old(self).wf(),
        ensures
            final(self).wf(),
            final(self).pids() == old(self).pids().insert(key_of(project@, service@), pid),
    {
        let key = service_key(project, service);
        self.processes.insert(key, pid);
    }

    /// Forgets a service's process and hands back its pid, so that it can be
    /// signalled; nothing when none is recorded.
    pub fn take(&mut self, project: &str, service: &str) -> (r: Option<u32>)
        requires
            old(self).wf(),
        ensures
            final(self).wf(),
            r == old(self).pids().get(key_of(project@, service@)),
            final(self).pids() == old(self).pids().remove(key_of(project@, service@)),
    {
        let key = service_key(project, service);
        self.processes.remove(key.as_str())
    }

    /// The (project, service) of every recorded process, in start order: the
    /// keys split at their first `:`.
    pub fn stop_targets(&self) -> (r: Vec<(String, String)>)
        ensures
            r@.map_values(|p: (String, String)| pair_view(p)) == split_keys(self.keys()),
    {
        let mut r: Vec<(String, String)> = Vec::new();
        let mut i: usize = 0;
        while i < self.processes.len()
            invariant
                i <= self.keys().len(),
                self.keys() == self.processes.key_seq(),
                r@.map_values(|p: (String, String)| pair_view(p)) == split_keys(self.keys().take(i as int)),
            decreases self.keys().len() - i,
        {
            proof {
                assert(self.keys().take(i + 1).drop_last() =~= self.keys().take(i as int));
                assert(self.keys().take(i + 1).last() == self.keys()[i as int]);
            }
            let ghost before = r@.map_values(|p: (String, String)| pair_view(p));
            match split_once_str(self.processes.key_at(i).as_str(), ':') {
                Some((a, b)) => {
                    r.push((a, b));
                    assert(r@.map_values(|p: (String, String)| pair_view(p)) =~= before.push((a@, b@)));
                },
                None => {},
            }
            i = i + 1;
        }
        assert(self.keys().take(self.keys().len() as int) =~= self.keys());
        r
    }

    /// The first step of starting a process service: while its recorded
    /// process is alive, that process; otherwise (a record of a process that
    /// is gone is dropped) how to launch a new one.
    pub fn prepare_start<F: Fn(u32) -> bool>(
        &mut self,
        project: &str,
        service: &str,
        config: &ProcessServiceConfig,
        project_path: &str,
        env_vars: &NameMap<String>,
        environment: &NameMap<String>,
        shell: Option<String>,
        alive: &F,
    ) -> (r: StartStep)
        requires
            old(self).wf(),
            forall|p: u32| call_requires(*alive, (p,)),
        ensures
            final(self).wf(),
            ({
                let key = key_of(project@, service@);
                let launched = is_launch_of(r, opt_view(shell), *config, project_path@, *env_vars, *environment);
                match old(self).pids().get(key) {
                    Some(pid) => ({
                        &&& call_ensures(*alive, (pid,), true)
                        &&& r == StartStep::AlreadyRunning(pid)
                        &&& final(self).pids() == old(self).pids()
                    }) || ({
                        &&& call_ensures(*alive, (pid,), false)
                        &&& launched
                        &&& final(self).pids() == old(self).pids().remove(key)
                    }),
                    None => launched && final(self).pids() == old(self).pids(),
                }
            }),
    {
        match self.pid_of(project, service) {
            Some(pid) => {
                if alive(pid) {
                    return StartStep::AlreadyRunning(pid);
                }
                let _ = self.take(project, service);
            },
            None => {},
        }
        let sh = match shell {
            Some(s) => s,
            None => owned("/bin/sh"),
        };
        StartStep::Launch(LaunchPlan {
            shell: sh,
            command: config.command.clone(),
            working_dir: process_working_dir(config.working_dir.as_str(), project_path),
            env: launch_environment(environment, env_vars, &config.env),
        })
    }
}

/// `r` launches the service as configured: through the given shell (or
/// `/bin/sh`), in its working directory, with its launch environment.
pub open spec fn is_launch_of(
    r: StartStep,
    shell: Option<Seq<char>>,
    config: ProcessServiceConfig,
    project_path: Seq<char>,
    env_vars: NameMap<String>,
    environment: NameMap<String>,
) -> bool {
    match r {
        StartStep::Launch(plan) => {
            &&& plan.shell@ == shell_of(shell)
            &&& plan.command == config.command
            &&& plan.working_dir@ == working_dir_of(config.working_dir@, project_path)
            &&& plan.env@.map_values(|p: (String, String)| pair_view(p)) == launch_settings(
                environment,
                env_vars,
                config.env,
            )
        },
        StartStep::AlreadyRunning(_) => false,
    }
}

/// The (project, service) pairs of keys, split at their first `:`; keys
/// without one are skipped.
pub open spec fn split_keys(keys: Seq<Seq<char>>) -> Seq<(Seq<char>, Seq<char>)>
    decreases keys.len(),
{
    if keys.len() == 0 {
        Seq::empty()
    } else {
        let rest = split_keys(keys.drop_last());
        match split_once(keys.last(), ':') {
            Some(p) => rest.push(p),
            None => rest,
        }
    }
}


/// A line a service process wrote to its standard output, tagged: `[service] line`.
pub open spec fn stdout_text(service: Seq<char>, line: Seq<char>) -> Seq<char> {
    "["@ + service + "] "@ + line
}

/// A line a service process wrote to its standard error, tagged: `[service ERR] line`.
pub open spec fn stderr_text(service: Seq<char>, line: Seq<char>) -> Seq<char> {
    "["@ + service + " ERR] "@ + line
}

/// Tags a line of a service's standard output.
pub fn stdout_line(service: &str, line: &str) -> (r: String)
    ensures
        r@ == stdout_text(service@, line@),
{
    let head = concat3("[", service, "] ");
    let r = concat2(head.as_str(), line);
    assert(r@ =~= stdout_text(service@, line@));
    r
}

/// Tags a line of a service's standard error.
pub fn stderr_line(service: &str, line: &str) -> (r: String)
    ensures
        r@ == stderr_text(service@, line@),
{
    let head = concat3("[", service, " ERR] ");
    let r = concat2(head.as_str(), line);
    assert(r@ =~= stderr_text(service@, line@));
    r
}

/// How waiting for a service process ended.
#[derive(Debug)]
pub enum ExitOutcome {
    /// It exited with status zero.
    Success,
    /// It exited otherwise; the code, when it exited with one (not by a signal).
    Failure { code: Option<i32> },
    /// Waiting for it failed, with this message.
    WaitFailed { message: String },
}

/// What is reported when a service process ends.
#[derive(Debug)]
pub struct ExitReport {
    /// The log line announcing the exit.
    pub message: String,
    /// Whether the exit counts as an error.
    pub is_error: bool,
    /// The status line the frontend reads.
    pub status_line: String,
}

/// The log line announcing how a service process ended.
pub open spec fn exit_text(service: Seq<char>, outcome: ExitOutcome) -> Seq<char> {
    "["@ + service + " EXIT] "@ + match outcome {
        ExitOutcome::Success => "Process exited successfully"@,
        ExitOutcome::Failure { code } => "Process exited with code "@ + match code {
            Some(c) => signed_decimal(c as int),
            None => "unknown"@,
        },
        ExitOutcome::WaitFailed { message } => "Process error: "@ + message@,
    }
}

/// The status line for a project's service: `[__STATUS__] project=P service=S status=X`.
pub open spec fn status_text(project: Seq<char>, service: Seq<char>, status: Seq<char>) -> Seq<char> {
    "[__STATUS__] project="@ + project + " service="@ + service + " status="@ + status
}

/// Builds the status line of a project's service.
pub fn status_line(project: &str, service: &str, status: &str) -> (r: String)
    ensures
        r@ == status_text(project@, service@, status@),
{
    let a = concat3("[__STATUS__] project=", project, " service=");
    let b = concat3(a.as_str(), service, " status=");
    let r = concat2(b.as_str(), status);
    assert(r@ =~= status_text(project@, service@, status@));
    r
}

/// What is reported when a service process ends: only a successful exit is
/// no error; the status line says `stopped` or `error` accordingly.
pub fn exit_report(project: &str, service: &str, outcome: &ExitOutcome) -> (r: ExitReport)
    ensures
        r.is_error == !(outcome is Success),
        r.message@ == exit_text(service@, *outcome),
        r.status_line@ == status_text(project@, service@, if r.is_error { "error"@ } else { "stopped"@ }),
{
    let head = concat3("[", service, " EXIT] ");
    let (tail, is_error) = match outcome {
        ExitOutcome::Success => (owned("Process exited successfully"), false),
        ExitOutcome::Failure { code } => {
            let c = match code {
                Some(c) => i32_to_decimal(*c),
                None => owned("unknown"),
            };
            (concat2("Process exited with code ", c.as_str()), true)
        },
        ExitOutcome::WaitFailed { message } => (concat2("Process error: ", message.as_str()), true),
    };
    let message = concat2(head.as_str(), tail.as_str());
    assert(message@ =~= exit_text(service@, *outcome));
    let status = if is_error {
        status_line(project, service, "error")
    } else {
        status_line(project, service, "stopped")
    };
    ExitReport { message, is_error, status_line: status }
}

/// The error for a process that could not be spawned.
pub fn spawn_error(command: &str, reason: &str) -> (r: EnvibeError)
    ensures
        r matches EnvibeError::Process(m) && m@ == "Failed to spawn process '"@ + command@ + "': "@ + reason@,
{
    let a = concat3("Failed to spawn process '", command, "': ");
    let m = concat2(a.as_str(), reason);
    EnvibeError::Process(m)
}


/// Adds the variables of `other` to `m` in `other`'s entry order; a variable
/// of `other` replaces one of the same name.
pub fn extend_env(m: &mut NameMap<String>, other: &NameMap<String>)
    requires
        old(m).wf(),
    ensures
        final(m).wf(),
        env_view(*final(m)) == inserts_onto(env_view(*old(m)), settings_of(other.pairs())),
{
    let ghost base = env_view(*m);
    let mut i: usize = 0;
    assert(settings_of(other.pairs().take(0)) =~= Seq::<(Seq<char>, Seq<char>)>::empty());
    while i < other.len()
        invariant
            i <= other.pairs().len(),
            m.wf(),
            env_view(*m) == inserts_onto(base, settings_of(other.pairs().take(i as int))),
        decreases other.pairs().len() - i,
    {
        let k = other.key_at(i).clone();
        let v = other.value_at(i).clone();
        let ghost before = m@;
        let ghost kk = k@;
        m.insert(k, v);
        proof {
            lemma_map_values_insert(before, kk, v, |s: String| s@);
            let sq = settings_of(other.pairs().take(i + 1));
            assert(other.pairs().take(i + 1) =~= other.pairs().take(i as int).push(other.pairs()[i as int]));
            assert(sq.drop_last() =~= settings_of(other.pairs().take(i as int)));
            assert(sq.last() == (kk, v@));
        }
        i = i + 1;
    }
    assert(other.pairs().take(other.pairs().len() as int) =~= other.pairs());
}


/// Every value of `env` interpolates.
pub open spec fn all_interpolate(
    env: Map<Seq<char>, Seq<char>>,
    ports: Map<Seq<char>, u16>,
    environment: Map<Seq<char>, Seq<char>>,
) -> bool {
    forall|k: Seq<char>| #[trigger] env.contains_key(k) ==> interpolation(env[k], ports, environment) is Ok
}

/// `env` with each value interpolated (a value that fails is kept as is).
pub open spec fn interpolated_map(
    env: Map<Seq<char>, Seq<char>>,
    ports: Map<Seq<char>, u16>,
    environment: Map<Seq<char>, Seq<char>>,
) -> Map<Seq<char>, Seq<char>> {
    env.map_values(
        |v: Seq<char>|
            match interpolation(v, ports, environment) {
                Ok(t) => t,
                Err(_) => v,
            },
    )
}

/// Some value of `env` fails to interpolate with error `e`.
pub open spec fn fails_with(
    env: Map<Seq<char>, Seq<char>>,
    ports: Map<Seq<char>, u16>,
    environment: Map<Seq<char>, Seq<char>>,
    e: Seq<char>,
) -> bool {
    exists|k: Seq<char>| #[trigger] env.contains_key(k) && interpolation(env[k], ports, environment) == Err::<
        Seq<char>,
        Seq<char>,
    >(e)
}

proof fn lemma_interpolate_pairs(
    s: Seq<(Seq<char>, String)>,
    ports: Map<Seq<char>, u16>,
    envm: Map<Seq<char>, Seq<char>>,
)
    ensures
        match interpolate_pairs(s, ports, envm) {
            Ok(ps) => ps.len() == s.len() && forall|i: int| 0 <= i < s.len() ==> ps[i].0 == s[i].0 && #[trigger]
                interpolation(s[i].1@, ports, envm) == Ok::<Seq<char>, Seq<char>>(ps[i].1),
            Err(e) => exists|i: int| 0 <= i < s.len() && #[trigger] interpolation(s[i].1@, ports, envm)
                == Err::<Seq<char>, Seq<char>>(e),
        },
        (interpolate_pairs(s, ports, envm) is Ok) == forall|i: int| 0 <= i < s.len() ==> #[trigger] interpolation(
            s[i].1@,
            ports,
            envm,
        ) is Ok,
    decreases s.len(),
{
    if s.len() > 0 {
        let t = s.drop_first();
        lemma_interpolate_pairs(t, ports, envm);
        assert forall|i: int| 0 < i < s.len() implies s[i] == t[i - 1] by {}
        match interpolation(s[0].1@, ports, envm) {
            Err(e) => {},
            Ok(v) => match interpolate_pairs(t, ports, envm) {
                Err(e) => {
                    let j = choose|j: int| 0 <= j < t.len() && #[trigger] interpolation(t[j].1@, ports, envm)
                        == Err::<Seq<char>, Seq<char>>(e);
                    assert(interpolation(s[j + 1].1@, ports, envm) == Err::<Seq<char>, Seq<char>>(e));
                    assert(!(interpolation(s[j + 1].1@, ports, envm) is Ok));
                },
                Ok(rest) => {
                    let ps = seq![(s[0].0, v)] + rest;
                    assert forall|i: int| 0 <= i < s.len() implies ps[i].0 == s[i].0 && #[trigger]
                        interpolation(s[i].1@, ports, envm) == Ok::<Seq<char>, Seq<char>>(ps[i].1) by {
                        if i > 0 {
                            assert(ps[i] == rest[i - 1]);
                            assert(interpolation(t[i - 1].1@, ports, envm) == Ok::<Seq<char>, Seq<char>>(rest[i - 1].1));
                        }
                    }
                },
            },
        }
        if forall|i: int| 0 <= i < s.len() ==> #[trigger] interpolation(s[i].1@, ports, envm) is Ok {
            assert(interpolation(s[0].1@, ports, envm) is Ok);
            assert forall|i: int| 0 <= i < t.len() implies #[trigger] interpolation(t[i].1@, ports, envm) is Ok by {
                assert(interpolation(s[i + 1].1@, ports, envm) is Ok);
            }
        }
    }
}

proof fn lemma_inserts_map_distinct<V>(s: Seq<(Seq<char>, V)>)
    requires
        crate::namemap::keys_distinct(s),
    ensures
        forall|i: int| 0 <= i < s.len() ==> #[trigger] inserts_map(s).contains_key(s[i].0) && inserts_map(s)[s[i].0] == s[i].1,
        forall|k: Seq<char>| #[trigger] inserts_map(s).contains_key(k) ==> exists|i: int| 0 <= i < s.len() && s[i].0 == k,
    decreases s.len(),
{
    if s.len() > 0 {
        let t = s.drop_last();
        assert(crate::namemap::keys_distinct(t)) by {
            assert forall|i: int, j: int| 0 <= i < j < t.len() implies t[i].0 != t[j].0 by {
                assert(t[i] == s[i] && t[j] == s[j]);
            }
        }
        lemma_inserts_map_distinct(t);
        assert(inserts_map(s) == inserts_map(t).insert(s.last().0, s.last().1));
        assert forall|i: int| 0 <= i < s.len() implies #[trigger] inserts_map(s).contains_key(s[i].0) && inserts_map(s)[s[i].0] == s[i].1 by {
            if i < s.len() - 1 {
                assert(t[i] == s[i]);
                assert(inserts_map(t).contains_key(t[i].0));
                assert(s[i].0 != s[s.len() - 1].0);
            } else {
                assert(s[i] == s.last());
            }
        }
        assert forall|k: Seq<char>| #[trigger] inserts_map(s).contains_key(k) implies exists|i: int| 0 <= i < s.len() && s[i].0 == k by {
            if k != s.last().0 {
                assert(inserts_map(t).contains_key(k));
                let i = choose|i: int| 0 <= i < t.len() && t[i].0 == k;
                assert(s[i].0 == k);
            } else {
                assert(s[s.len() - 1].0 == k);
            }
        }
    }
}

proof fn lemma_env_view_entries(env: NameMap<String>)
    requires
        env.wf(),
    ensures
        forall|i: int| 0 <= i < env.pairs().len() ==> #[trigger] env_view(env).contains_key(env.pairs()[i].0)
            && env_view(env)[env.pairs()[i].0] == env.pairs()[i].1@,
        forall|k: Seq<char>| #[trigger] env_view(env).contains_key(k) ==> exists|i: int| 0 <= i < env.pairs().len()
            && env.pairs()[i].0 == k,
{
    assert forall|i: int| 0 <= i < env.pairs().len() implies #[trigger] env_view(env).contains_key(env.pairs()[i].0)
        && env_view(env)[env.pairs()[i].0] == env.pairs()[i].1@ by {
        env.lemma_entry_in_map(i);
    }
    assert forall|k: Seq<char>| #[trigger] env_view(env).contains_key(k) implies exists|i: int| 0 <= i < env.pairs().len()
        && env.pairs()[i].0 == k by {
        let j = env.lemma_entry_of_key(k);
    }
}

/// What interpolating a whole map comes to, stated over the map alone: when
/// every value interpolates, the map of interpolated values; otherwise the
/// error of some value that fails.
proof fn lemma_interpolation_result(
    env: NameMap<String>,
    ports: Map<Seq<char>, u16>,
    envm: Map<Seq<char>, Seq<char>>,
)
    requires
        env.wf(),
    ensures
        match interpolate_pairs(env.pairs(), ports, envm) {
            Ok(ps) => all_interpolate(env_view(env), ports, envm) && inserts_map(ps) == interpolated_map(
                env_view(env),
                ports,
                envm,
            ),
            Err(e) => !all_interpolate(env_view(env), ports, envm) && fails_with(env_view(env), ports, envm, e),
        },
{
    let s = env.pairs();
    let ev = env_view(env);
    lemma_interpolate_pairs(s, ports, envm);
    lemma_env_view_entries(env);
    match interpolate_pairs(s, ports, envm) {
        Ok(ps) => {
            assert(crate::namemap::keys_distinct(ps)) by {
                assert forall|i: int, j: int| 0 <= i < j < ps.len() implies ps[i].0 != ps[j].0 by {
                    assert(interpolation(s[i].1@, ports, envm) == Ok::<Seq<char>, Seq<char>>(ps[i].1));
                    assert(interpolation(s[j].1@, ports, envm) == Ok::<Seq<char>, Seq<char>>(ps[j].1));
                    assert(ps[i].0 == s[i].0 && ps[j].0 == s[j].0);
                    assert(s[i].0 != s[j].0);
                }
            }
            lemma_inserts_map_distinct(ps);
            assert forall|k: Seq<char>| #[trigger] ev.contains_key(k) implies interpolation(ev[k], ports, envm) is Ok by {
                let i = choose|i: int| 0 <= i < s.len() && s[i].0 == k;
                assert(interpolation(s[i].1@, ports, envm) is Ok);
            }
            let im = interpolated_map(ev, ports, envm);
            assert forall|k: Seq<char>| #[trigger] inserts_map(ps).contains_key(k) <==> im.contains_key(k) by {
                if inserts_map(ps).contains_key(k) {
                    let i = choose|i: int| 0 <= i < ps.len() && ps[i].0 == k;
                    assert(interpolation(s[i].1@, ports, envm) == Ok::<Seq<char>, Seq<char>>(ps[i].1));
                    assert(ev.contains_key(s[i].0));
                }
                if im.contains_key(k) {
                    let i = choose|i: int| 0 <= i < s.len() && s[i].0 == k;
                    assert(interpolation(s[i].1@, ports, envm) == Ok::<Seq<char>, Seq<char>>(ps[i].1));
                    assert(inserts_map(ps).contains_key(ps[i].0));
                }
            }
            assert forall|k: Seq<char>| #[trigger] inserts_map(ps).contains_key(k) implies inserts_map(ps)[k] == im[k] by {
                let i = choose|i: int| 0 <= i < ps.len() && ps[i].0 == k;
                assert(interpolation(s[i].1@, ports, envm) == Ok::<Seq<char>, Seq<char>>(ps[i].1));
                assert(ev.contains_key(s[i].0) && ev[s[i].0] == s[i].1@);
                assert(inserts_map(ps)[ps[i].0] == ps[i].1);
            }
            assert(inserts_map(ps) =~= im);
        },
        Err(e) => {
            let i = choose|i: int| 0 <= i < s.len() && #[trigger] interpolation(s[i].1@, ports, envm)
                == Err::<Seq<char>, Seq<char>>(e);
            assert(ev.contains_key(s[i].0) && ev[s[i].0] == s[i].1@);
            assert(!(interpolation(ev[s[i].0], ports, envm) is Ok));
        },
    }
}


/// The settings of an optional environment map.
pub open spec fn opt_settings(m: Option<NameMap<String>>) -> Seq<(Seq<char>, Seq<char>)> {
    match m {
        Some(x) => settings_of(x.pairs()),
        None => Seq::empty(),
    }
}

/// The variables of the layers applied in order, a later layer overriding
/// an earlier one: the project's env file, the service's env file, the
/// service's own variables.
pub open spec fn layered(
    project_env: Option<NameMap<String>>,
    service_env: Option<NameMap<String>>,
    inline: NameMap<String>,
) -> Map<Seq<char>, Seq<char>> {
    inserts_onto(
        inserts_onto(inserts_onto(Map::empty(), opt_settings(project_env)), opt_settings(service_env)),
        settings_of(inline.pairs()),
    )
}

/// Merges the environment layers of a service.
pub fn layered_env(
    project_env: &Option<NameMap<String>>,
    service_env: &Option<NameMap<String>>,
    inline: &NameMap<String>,
) -> (r: NameMap<String>)
    ensures
        r.wf(),
        env_view(r) == layered(*project_env, *service_env, *inline),
{
    let mut m: NameMap<String> = NameMap::new();
    proof {
        lemma_empty_view(&m);
        lemma_map_values_empty(|s: String| s@);
        assert(env_view(m) =~= Map::<Seq<char>, Seq<char>>::empty());
    }
    match project_env {
        Some(p) => extend_env(&mut m, p),
        None => {},
    }
    match service_env {
        Some(e) => extend_env(&mut m, e),
        None => {},
    }
    extend_env(&mut m, inline);
    m
}

/// The environment a process service is started with: its layers merged,
/// then interpolated with the service ports; an interpolation failure is the
/// error.
pub fn process_env(
    project_env: &Option<NameMap<String>>,
    service_env: &Option<NameMap<String>>,
    inline: &NameMap<String>,
    service_ports: &NameMap<u16>,
    environment: &NameMap<String>,
) -> (r: Result<NameMap<String>, EnvibeError>)
    ensures
        ({
            let env = layered(*project_env, *service_env, *inline);
            let envm = env_view(*environment);
            &&& all_interpolate(env, service_ports@, envm) ==> (r matches Ok(m) && env_view(m) == interpolated_map(
                env,
                service_ports@,
                envm,
            ))
            &&& !all_interpolate(env, service_ports@, envm) ==> (r matches Err(EnvibeError::Interpolation(e))
                && fails_with(env, service_ports@, envm, e@))
        }),
{
    let env = layered_env(project_env, service_env, inline);
    interpolate_env_map(&env, service_ports, environment)
}

/// The environment shown for a project or service: its layers merged and
/// interpolated with the project's ports; when some value cannot be
/// interpolated, the merged variables as they are.
pub fn display_env(
    project_env: &Option<NameMap<String>>,
    service_env: &Option<NameMap<String>>,
    inline: &NameMap<String>,
    ports: &Vec<(String, u16)>,
    environment: &NameMap<String>,
) -> (r: NameMap<String>)
    ensures
        ({
            let env = layered(*project_env, *service_env, *inline);
            let pm = inserts_map(ports@.map_values(|e: (String, u16)| (e.0@, e.1)));
            let envm = env_view(*environment);
            env_view(r) == if all_interpolate(env, pm, envm) {
                interpolated_map(env, pm, envm)
            } else {
                env
            }
        }),
{
    let env = layered_env(project_env, service_env, inline);
    let mut pm: NameMap<u16> = NameMap::new();
    let ghost ps = ports@.map_values(|e: (String, u16)| (e.0@, e.1));
    proof {
        lemma_empty_view(&pm);
        assert(ps.take(0) =~= Seq::<(Seq<char>, u16)>::empty());
    }
    let mut i: usize = 0;
    while i < ports.len()
        invariant
            i <= ports.len(),
            ps == ports@.map_values(|e: (String, u16)| (e.0@, e.1)),
            pm.wf(),
            pm@ == inserts_map(ps.take(i as int)),
        decreases ports.len() - i,
    {
        proof {
            assert(ps.take(i + 1).drop_last() =~= ps.take(i as int));
            assert(ps.take(i + 1).last() == ps[i as int]);
        }
        pm.insert(ports[i].0.clone(), ports[i].1);
        i = i + 1;
    }
    assert(ps.take(ports.len() as int) =~= ps);
    match interpolate_env_map(&env, &pm, environment) {
        Ok(m) => m,
        Err(_) => env,
    }
}


/// The error for an env file that cannot be read.
pub fn env_read_error(path: &str, reason: &str) -> (r: EnvibeError)
    ensures
        r matches EnvibeError::Config(m) && m@ == "Failed to read env file "@ + path@ + ": "@ + reason@,
{
    let a = concat3("Failed to read env file ", path, ": ");
    EnvibeError::Config(concat2(a.as_str(), reason))
}

} // verus!
