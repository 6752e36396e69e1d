//! Configuration checks: the list of problems a configuration has, and
//! the error text that reports them.

use vstd::prelude::*;
use crate::addr::{addr_text, SocketAddress};
use crate::config::{BackendConfig, Config, FrontendConfig, HealthCheckType, ServerConfig};

verus! {

/// The lowercase form of a string, as `str::to_lowercase` computes it.
pub uninterp spec fn lowercase_of(s: Seq<char>) -> Seq<char>;

/// Relies on `str::to_lowercase`: the result depends on the characters
/// alone, and the empty string stays empty.
#[verifier::external_body]
fn lowercase(s: &str) -> (r: String)
    ensures
        r@ == lowercase_of(s@),
        s@.len() == 0 ==> r@.len() == 0,
{
    s.to_lowercase()
}

/// Whether `l` names a log level.
pub open spec fn known_level(l: Seq<char>) -> bool {
    l == "trace"@ || l == "debug"@ || l == "info"@ || l == "warn"@ || l == "error"@
}

/// `msgs` joined by `"; "`.
pub open spec fn join_messages(msgs: Seq<Seq<char>>) -> Seq<char>
    decreases msgs.len(),
{
    if msgs.len() == 0 {
        Seq::empty()
    } else if msgs.len() == 1 {
        msgs[0]
    } else {
        join_messages(msgs.drop_last()) + "; "@ + msgs.last()
    }
}

/// The problem text for a repeated frontend name.
pub open spec fn msg_duplicate_frontend(name: Seq<char>) -> Seq<char> {
    "duplicate frontend name: "@ + name
}

/// The problem text for a repeated listen address.
pub open spec fn msg_duplicate_listen(listen: SocketAddress, name: Seq<char>) -> Seq<char> {
    "duplicate listen address: "@ + addr_text(listen) + " (frontend: "@ + name + ")"@
}

/// The problem text for a frontend whose pool does not exist.
pub open spec fn msg_missing_backend(name: Seq<char>, backend: Seq<char>) -> Seq<char> {
    "frontend '"@ + name + "' references non-existent backend '"@ + backend + "'"@
}

/// The problem text for a pool without servers.
pub open spec fn msg_no_servers(name: Seq<char>) -> Seq<char> {
    "backend '"@ + name + "' must have at least one server"@
}

/// The problem text for a server of weight zero.
pub open spec fn msg_zero_weight(address: SocketAddress, name: Seq<char>) -> Seq<char> {
    "server "@ + addr_text(address) + " in backend '"@ + name + "' has weight 0 (must be >= 1)"@
}

/// The problem text for an HTTP probe without a path.
pub open spec fn msg_no_probe_path(name: Seq<char>) -> Seq<char> {
    "backend '"@ + name + "' has HTTP health check but no path specified"@
}

/// The problem text for an unknown log level.
pub open spec fn msg_log_level(level: Seq<char>) -> Seq<char> {
    "invalid log level '"@ + level + "', must be one of: trace, debug, info, warn, error"@
}

/// `[m]` if `cond`, else nothing.
pub open spec fn when(cond: bool, m: Seq<char>) -> Seq<Seq<char>> {
    if cond {
        seq![m]
    } else {
        Seq::empty()
    }
}

/// Whether some pool is named `name`.
pub open spec fn backend_named(backends: Seq<BackendConfig>, name: Seq<char>) -> bool {
    exists|k: int| 0 <= k < backends.len() && #[trigger] backends[k].name@ == name
}

/// Whether two pools share a name.
pub open spec fn duplicate_backend_names(backends: Seq<BackendConfig>) -> bool {
    exists|i: int, j: int| 0 <= i < j < backends.len() && #[trigger] backends[i].name@ == #[trigger] backends[j].name@
}

/// The problems of frontend `f`, given the frontends before it and the pools.
pub open spec fn frontend_problems(
    f: FrontendConfig,
    earlier: Seq<FrontendConfig>,
    backends: Seq<BackendConfig>,
) -> Seq<Seq<char>> {
    when(f.name@.len() == 0, "frontend name cannot be empty"@)
        + when(
        exists|j: int| 0 <= j < earlier.len() && #[trigger] earlier[j].name@ == f.name@,
        msg_duplicate_frontend(f.name@),
    ) + when(
        exists|j: int| 0 <= j < earlier.len() && #[trigger] earlier[j].listen == f.listen,
        msg_duplicate_listen(f.listen, f.name@),
    ) + when(!backend_named(backends, f.backend@), msg_missing_backend(f.name@, f.backend@))
}

/// The problems of all frontends, in order.
pub open spec fn frontends_problems(fs: Seq<FrontendConfig>, backends: Seq<BackendConfig>) -> Seq<Seq<char>>
    decreases fs.len(),
{
    if fs.len() == 0 {
        Seq::empty()
    } else {
        frontends_problems(fs.drop_last(), backends) + frontend_problems(fs.last(), fs.drop_last(), backends)
    }
}

/// One problem per server of weight zero, in order.
pub open spec fn weight_problems(servers: Seq<ServerConfig>, name: Seq<char>) -> Seq<Seq<char>>
    decreases servers.len(),
{
    if servers.len() == 0 {
        Seq::empty()
    } else {
        weight_problems(servers.drop_last(), name) + when(
            servers.last().weight == 0,
            msg_zero_weight(servers.last().address, name),
        )
    }
}

/// The problems of pool `b`.
pub open spec fn backend_problems(b: BackendConfig) -> Seq<Seq<char>> {
    when(b.name@.len() == 0, "backend name cannot be empty"@) + when(
        b.servers@.len() == 0,
        msg_no_servers(b.name@),
    ) + weight_problems(b.servers@, b.name@) + when(
        b.health_check matches Some(hc) && hc.check_type == HealthCheckType::Http && hc.path is None,
        msg_no_probe_path(b.name@),
    )
}

/// The problems of all pools, in order.
pub open spec fn backends_problems(bs: Seq<BackendConfig>) -> Seq<Seq<char>>
    decreases bs.len(),
{
    if bs.len() == 0 {
        Seq::empty()
    } else {
        backends_problems(bs.drop_last()) + backend_problems(bs.last())
    }
}

/// Every problem of a configuration, in the order they are reported.
pub open spec fn config_problems(c: Config) -> Seq<Seq<char>> {
    when(c.frontends@.len() == 0, "at least one frontend must be defined"@)
        + when(c.backends@.len() == 0, "at least one backend must be defined"@)
        + when(duplicate_backend_names(c.backends@), "duplicate backend names detected"@)
        + frontends_problems(c.frontends@, c.backends@)
        + backends_problems(c.backends@)
        + when(!known_level(lowercase_of(c.global.log_level@)), msg_log_level(c.global.log_level@))
}

/// The texts held by a list of strings.
pub open spec fn texts(v: Seq<String>) -> Seq<Seq<char>> {
    v.map_values(|s: String| s@)
}

fn add_message(out: &mut Vec<String>, m: String)
    ensures
        texts(final(out)@) == texts(old(out)@).push(m@),
{
    out.push(m);
    assert(texts(out@) =~= texts(old(out)@).push(m@));
}

fn add_when(out: &mut Vec<String>, cond: bool, m: String)
    ensures
        texts(final(out)@) == texts(old(out)@) + when(cond, m@),
{
    if cond {
        add_message(out, m);
    } else {
        assert(texts(old(out)@) + when(cond, m@) =~= texts(old(out)@));
    }
}

fn text(s: &str) -> (r: String)
    ensures
        r@ == s@,
{
    String::from_str(s)
}

fn backend_exists(backends: &[BackendConfig], name: &String) -> (r: bool)
    ensures
        r == backend_named(backends@, name@),
{
    let mut i: usize = 0;
    while i < backends.len()
        invariant
            i <= backends@.len(),
            forall|k: int| 0 <= k < i ==> #[trigger] backends@[k].name@ != name@,
        decreases backends@.len() - i,
    {
        if backends[i].name == *name {
            return true;
        }
        i = i + 1;
    }
    false
}

fn has_duplicate_backend_names(backends: &[BackendConfig]) -> (r: bool)
    ensures
        r == duplicate_backend_names(backends@),
{
    let mut j: usize = 0;
    while j < backends.len()
        invariant
            j <= backends@.len(),
            forall|a: int, b: int| 0 <= a < b < j ==> #[trigger] backends@[a].name@ != #[trigger] backends@[b].name@,
        decreases backends@.len() - j,
    {
        let mut i: usize = 0;
        while i < j
            invariant
                i <= j < backends@.len(),
                forall|a: int| 0 <= a < i ==> #[trigger] backends@[a].name@ != backends@[j as int].name@,
            decreases j - i,
        {
            if backends[i].name == backends[j].name {
                return true;
            }
            i = i + 1;
        }
        j = j + 1;
    }
    false
}

fn frontend_name_seen(fs: &[FrontendConfig], i: usize) -> (r: bool)
    requires
        i < fs@.len(),
    ensures
        r == exists|j: int| 0 <= j < fs@.subrange(0, i as int).len() && #[trigger] fs@.subrange(0, i as int)[j].name@ == fs@[i as int].name@,
{
    let ghost e = fs@.subrange(0, i as int);
    let mut j: usize = 0;
    while j < i
        invariant
            j <= i < fs@.len(),
            e == fs@.subrange(0, i as int),
            forall|k: int| 0 <= k < j ==> #[trigger] e[k].name@ != fs@[i as int].name@,
        decreases i - j,
    {
        if fs[j].name == fs[i].name {
            assert(e[j as int].name@ == fs@[i as int].name@);
            return true;
        }
        j = j + 1;
    }
    false
}

fn frontend_listen_seen(fs: &[FrontendConfig], i: usize) -> (r: bool)
    requires
        i < fs@.len(),
    ensures
        r == exists|j: int| 0 <= j < fs@.subrange(0, i as int).len() && #[trigger] fs@.subrange(0, i as int)[j].listen == fs@[i as int].listen,
{
    let ghost e = fs@.subrange(0, i as int);
    let mut j: usize = 0;
    while j < i
        invariant
            j <= i < fs@.len(),
            e == fs@.subrange(0, i as int),
            forall|k: int| 0 <= k < j ==> #[trigger] e[k].listen != fs@[i as int].listen,
        decreases i - j,
    {
        if fs[j].listen == fs[i].listen {
            assert(e[j as int].listen == fs@[i as int].listen);
            return true;
        }
        j = j + 1;
    }
    false
}

fn duplicate_frontend_message(f: &FrontendConfig) -> (r: String)
    ensures
        r@ == msg_duplicate_frontend(f.name@),
{
    let mut m = text("duplicate frontend name: ");
    m.append(f.name.as_str());
    m
}

fn duplicate_listen_message(f: &FrontendConfig) -> (r: String)
    ensures
        r@ == msg_duplicate_listen(f.listen, f.name@),
{
    let mut m = text("duplicate listen address: ");
    f.listen.push_text(&mut m);
    m.append(" (frontend: ");
    m.append(f.name.as_str());
    m.append(")");
    m
}

fn missing_backend_message(f: &FrontendConfig) -> (r: String)
    ensures
        r@ == msg_missing_backend(f.name@, f.backend@),
{
    let mut m = text("frontend '");
    m.append(f.name.as_str());
    m.append("' references non-existent backend '");
    m.append(f.backend.as_str());
    m.append("'");
    m
}

fn no_servers_message(b: &BackendConfig) -> (r: String)
    ensures
        r@ == msg_no_servers(b.name@),
{
    let mut m = text("backend '");
    m.append(b.name.as_str());
    m.append("' must have at least one server");
    m
}

fn zero_weight_message(address: SocketAddress, name: &String) -> (r: String)
    ensures
        r@ == msg_zero_weight(address, name@),
{
    let mut m = text("server ");
    address.push_text(&mut m);
    m.append(" in backend '");
    m.append(name.as_str());
    m.append("' has weight 0 (must be >= 1)");
    m
}

fn no_probe_path_message(b: &BackendConfig) -> (r: String)
    ensures
        r@ == msg_no_probe_path(b.name@),
{
    let mut m = text("backend '");
    m.append(b.name.as_str());
    m.append("' has HTTP health check but no path specified");
    m
}

fn log_level_message(level: &String) -> (r: String)
    ensures
        r@ == msg_log_level(level@),
{
    let mut m = text("invalid log level '");
    m.append(level.as_str());
    m.append("', must be one of: trace, debug, info, warn, error");
    m
}

fn is_known_level(level: &String) -> (r: bool)
    ensures
        r == known_level(lowercase_of(level@)),
{
    let l = lowercase(level.as_str());
    l == text("trace") || l == text("debug") || l == text("info") || l == text("warn") || l == text("error")
}

fn add_frontend_problems(out: &mut Vec<String>, fs: &[FrontendConfig], backends: &[BackendConfig])
    ensures
        texts(final(out)@) == texts(old(out)@) + frontends_problems(fs@, backends@),
{
    let mut i: usize = 0;
    while i < fs.len()
        invariant
            i <= fs@.len(),
            texts(out@) == texts(old(out)@) + frontends_problems(fs@.subrange(0, i as int), backends@),
        decreases fs@.len() - i,
    {
        let ghost before = texts(out@);
        let f = &fs[i];
        add_when(out, f.name.as_str().is_empty(), text("frontend name cannot be empty"));
        let seen = frontend_name_seen(fs, i);
        add_when(out, seen, duplicate_frontend_message(f));
        let seen_listen = frontend_listen_seen(fs, i);
        add_when(out, seen_listen, duplicate_listen_message(f));
        let exists = backend_exists(backends, &f.backend);
        add_when(out, !exists, missing_backend_message(f));
        proof {
            let pre = fs@.subrange(0, i + 1);
            assert(pre.drop_last() =~= fs@.subrange(0, i as int));
            assert(pre.last() == fs@[i as int]);
            assert(texts(out@) =~= before + frontend_problems(fs@[i as int], fs@.subrange(0, i as int), backends@));
        }
        i = i + 1;
    }
    proof {
        assert(fs@.subrange(0, fs@.len() as int) =~= fs@);
    }
}

fn add_weight_problems(out: &mut Vec<String>, b: &BackendConfig)
    ensures
        texts(final(out)@) == texts(old(out)@) + weight_problems(b.servers@, b.name@),
{
    let mut i: usize = 0;
    while i < b.servers.len()
        invariant
            i <= b.servers@.len(),
            texts(out@) == texts(old(out)@) + weight_problems(b.servers@.subrange(0, i as int), b.name@),
        decreases b.servers@.len() - i,
    {
        let ghost before = texts(out@);
        let s = b.servers[i];
        add_when(out, s.weight == 0, zero_weight_message(s.address, &b.name));
        proof {
            let pre = b.servers@.subrange(0, i + 1);
            assert(pre.drop_last() =~= b.servers@.subrange(0, i as int));
            assert(pre.last() == s);
        }
        i = i + 1;
    }
    proof {
        assert(b.servers@.subrange(0, b.servers@.len() as int) =~= b.servers@);
    }
}

fn add_backend_problems(out: &mut Vec<String>, bs: &[BackendConfig])
    ensures
        texts(final(out)@) == texts(old(out)@) + backends_problems(bs@),
{
    let mut i: usize = 0;
    while i < bs.len()
        invariant
            i <= bs@.len(),
            texts(out@) == texts(old(out)@) + backends_problems(bs@.subrange(0, i as int)),
        decreases bs@.len() - i,
    {
        let ghost before = texts(out@);
        let b = &bs[i];
        add_when(out, b.name.as_str().is_empty(), text("backend name cannot be empty"));
        add_when(out, b.servers.len() == 0, no_servers_message(b));
        let ghost mid = texts(out@);
        add_weight_problems(out, b);
        let missing_path = match &b.health_check {
            Some(hc) => hc.check_type == HealthCheckType::Http && hc.path.is_none(),
            None => false,
        };
        add_when(out, missing_path, no_probe_path_message(b));
        proof {
            let pre = bs@.subrange(0, i + 1);
            assert(pre.drop_last() =~= bs@.subrange(0, i as int));
            assert(pre.last() == bs@[i as int]);
            assert(texts(out@) =~= before + backend_problems(bs@[i as int]));
        }
        i = i + 1;
    }
    proof {
        assert(bs@.subrange(0, bs@.len() as int) =~= bs@);
    }
}

/// The messages joined by `"; "`.
fn join(msgs: &Vec<String>) -> (r: String)
    ensures
        r@ == join_messages(texts(msgs@)),
{
    let mut out = String::new();
    let mut i: usize = 0;
    while i < msgs.len()
        invariant
            i <= msgs@.len(),
            out@ == join_messages(texts(msgs@.subrange(0, i as int))),
        decreases msgs@.len() - i,
    {
        proof {
            assert(texts(msgs@.subrange(0, i + 1)).drop_last() =~= texts(msgs@.subrange(0, i as int)));
        }
        if i > 0 {
            out.append("; ");
        }
        out.append(msgs[i].as_str());
        proof {
            if i == 0 {
                assert(texts(msgs@.subrange(0, 1)) =~= seq![msgs@[0]@]);
                assert(out@ =~= join_messages(texts(msgs@.subrange(0, 1))));
            } else {
                assert(texts(msgs@.subrange(0, i + 1)).last() == msgs@[i as int]@);
                assert(out@ =~= join_messages(texts(msgs@.subrange(0, i + 1))));
            }
        }
        i = i + 1;
    }
    proof {
        assert(msgs@.subrange(0, msgs@.len() as int) =~= msgs@);
    }
    out
}

/// Checks a configuration: `Ok` exactly when it has no problem, else every
/// problem's text, in order, joined by `"; "`. The problems are: no
/// frontend, no backend, repeated pool names, an empty or repeated frontend
/// name, a repeated listen address, a frontend naming a missing pool, an
/// empty pool name, a pool without servers, a server of weight zero, an
/// HTTP probe without a path, and a log level outside trace, debug, info,
/// warn and error (in any case).
pub fn validate_config(config: &Config) -> (r: Result<(), String>)
    ensures
        r is Ok <==> config_problems(*config).len() == 0,
        r matches Err(m) ==> m@ == join_messages(config_problems(*config)),
{
    let mut errors: Vec<String> = Vec::new();
    proof {
        assert(texts(errors@) =~= Seq::<Seq<char>>::empty());
    }
    add_when(&mut errors, config.frontends.len() == 0, text("at least one frontend must be defined"));
    add_when(&mut errors, config.backends.len() == 0, text("at least one backend must be defined"));
    let dup = has_duplicate_backend_names(config.backends.as_slice());
    add_when(&mut errors, dup, text("duplicate backend names detected"));
    add_frontend_problems(&mut errors, config.frontends.as_slice(), config.backends.as_slice());
    add_backend_problems(&mut errors, config.backends.as_slice());
    let known = is_known_level(&config.global.log_level);
    add_when(&mut errors, !known, log_level_message(&config.global.log_level));
    proof {
        assert(texts(errors@) =~= config_problems(*config));
    }
    if errors.len() == 0 {
        Ok(())
    } else {
        Err(join(&errors))
    }
}

} // verus!
