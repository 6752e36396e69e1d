//! Rules of the HTTP/1.1 forwarder: header variables, the headers added to
//! requests and responses, the origin-form request target, and the body of
//! a 502 answer.

use vstd::prelude::*;
use crate::addr::{addr_text, ip_text, SocketAddress};
use crate::text::chars_of;
use crate::config::HttpConfig;
use crate::text::{decimal, push_char, push_decimal};

verus! {

/// Settings of the HTTP forwarder.
#[derive(Clone, Debug)]
pub struct HttpProxyConfig {
    /// Headers set on requests to the server (values may hold variables).
    pub request_headers: Vec<(String, String)>,
    /// Headers set on responses to the client (values may hold variables).
    pub response_headers: Vec<(String, String)>,
    /// Connect timeout towards the server, in milliseconds.
    pub connect_timeout_ms: u64,
}

/// What one forwarded request knows about itself.
#[derive(Clone, Debug)]
pub struct ProxyContext {
    pub client_addr: SocketAddress,
    pub backend_addr: SocketAddress,
    pub frontend_name: String,
    pub backend_name: String,
    pub config: HttpProxyConfig,
    pub connection_request_id: String,
}

/// The forwarder; its work is done per request by the functions of this
/// module.
pub struct HttpProxy;

/// `$client_ip`
pub open spec fn var_client_ip() -> Seq<char> {
    seq!['$', 'c', 'l', 'i', 'e', 'n', 't', '_', 'i', 'p']
}

/// `$client_port`
pub open spec fn var_client_port() -> Seq<char> {
    seq!['$', 'c', 'l', 'i', 'e', 'n', 't', '_', 'p', 'o', 'r', 't']
}

/// `$backend_name`
pub open spec fn var_backend_name() -> Seq<char> {
    seq!['$', 'b', 'a', 'c', 'k', 'e', 'n', 'd', '_', 'n', 'a', 'm', 'e']
}

/// `$backend_addr`
pub open spec fn var_backend_addr() -> Seq<char> {
    seq!['$', 'b', 'a', 'c', 'k', 'e', 'n', 'd', '_', 'a', 'd', 'd', 'r']
}

/// Whether `s` starts with `p`.
pub open spec fn starts_with(s: Seq<char>, p: Seq<char>) -> bool {
    p.len() <= s.len() && s.subrange(0, p.len() as int) == p
}

/// The values the variables stand for.
pub struct Substitutions {
    pub client_ip: Seq<char>,
    pub client_port: Seq<char>,
    pub backend_name: Seq<char>,
    pub backend_addr: Seq<char>,
}

/// The variable values of a request.
pub open spec fn substitutions_of(ctx: ProxyContext) -> Substitutions {
    Substitutions {
        client_ip: ip_text(ctx.client_addr.ip),
        client_port: decimal(ctx.client_addr.port as nat),
        backend_name: ctx.backend_name@,
        backend_addr: addr_text(ctx.backend_addr),
    }
}

/// `s` with every variable replaced by its value, in one pass from the
/// left: replaced text is never scanned again, and any other `$` text is
/// kept as it is.
pub open spec fn substitute(s: Seq<char>, v: Substitutions) -> Seq<char>
    decreases s.len(),
{
    if s.len() == 0 {
        s
    } else if starts_with(s, var_client_ip()) {
        v.client_ip + substitute(s.skip(10), v)
    } else if starts_with(s, var_client_port()) {
        v.client_port + substitute(s.skip(12), v)
    } else if starts_with(s, var_backend_name()) {
        v.backend_name + substitute(s.skip(13), v)
    } else if starts_with(s, var_backend_addr()) {
        v.backend_addr + substitute(s.skip(13), v)
    } else {
        seq![s[0]] + substitute(s.drop_first(), v)
    }
}

fn token_at(cs: &Vec<char>, i: usize, tok: &Vec<char>) -> (r: bool)
    requires
        i <= cs@.len(),
    ensures
        r == starts_with(cs@.skip(i as int), tok@),
{
    if tok.len() > cs.len() - i {
        return false;
    }
    let mut k: usize = 0;
    while k < tok.len()
        invariant
            k <= tok@.len(),
            i + tok@.len() <= cs.len(),
            forall|j: int| 0 <= j < k ==> cs@[i + j] == tok@[j],
        decreases tok@.len() - k,
    {
        if cs[i + k] != tok[k] {
            assert(cs@.skip(i as int).subrange(0, tok@.len() as int)[k as int] != tok@[k as int]);
            return false;
        }
        k = k + 1;
    }
    assert(cs@.skip(i as int).subrange(0, tok@.len() as int) =~= tok@);
    true
}

/// `value` with `$client_ip`, `$client_port`, `$backend_name` and
/// `$backend_addr` replaced by the request's values.
pub fn substitute_variables(value: &str, ctx: &ProxyContext) -> (r: String)
    ensures
        r@ == substitute(value@, substitutions_of(*ctx)),
{
    let ghost v = substitutions_of(*ctx);
    let cs = chars_of(value);
    let t_ip = chars_of("$client_ip");
    let t_port = chars_of("$client_port");
    let t_name = chars_of("$backend_name");
    let t_addr = chars_of("$backend_addr");
    proof {
        reveal_strlit("$client_ip");
        reveal_strlit("$client_port");
        reveal_strlit("$backend_name");
        reveal_strlit("$backend_addr");
        assert(t_ip@ =~= var_client_ip());
        assert(t_port@ =~= var_client_port());
        assert(t_name@ =~= var_backend_name());
        assert(t_addr@ =~= var_backend_addr());
    }
    let mut out = String::new();
    let mut i: usize = 0;
    proof {
        assert(cs@.skip(0) =~= cs@);
        assert(out@ + substitute(cs@.skip(0), v) =~= substitute(value@, v));
    }
    while i < cs.len()
        invariant
            i <= cs@.len(),
            t_ip@ == var_client_ip(),
            t_port@ == var_client_port(),
            t_name@ == var_backend_name(),
            t_addr@ == var_backend_addr(),
            v == substitutions_of(*ctx),
            out@ + substitute(cs@.skip(i as int), v) == substitute(value@, v),
            cs@ == value@,
        decreases cs@.len() - i,
    {
        let ghost rest = cs@.skip(i as int);
        let ghost before = out@;
        if token_at(&cs, i, &t_ip) {
            ctx.client_addr.ip.push_text(&mut out);
            proof {
                assert(rest.skip(10) =~= cs@.skip(i + 10));
                assert(out@ + substitute(cs@.skip(i + 10), v) =~= before + substitute(rest, v));
            }
            i = i + 10;
        } else if token_at(&cs, i, &t_port) {
            push_decimal(&mut out, ctx.client_addr.port as u64);
            proof {
                assert(rest.skip(12) =~= cs@.skip(i + 12));
                assert(out@ + substitute(cs@.skip(i + 12), v) =~= before + substitute(rest, v));
            }
            i = i + 12;
        } else if token_at(&cs, i, &t_name) {
            out.append(ctx.backend_name.as_str());
            proof {
                assert(rest.skip(13) =~= cs@.skip(i + 13));
                assert(out@ + substitute(cs@.skip(i + 13), v) =~= before + substitute(rest, v));
            }
            i = i + 13;
        } else if token_at(&cs, i, &t_addr) {
            ctx.backend_addr.push_text(&mut out);
            proof {
                assert(rest.skip(13) =~= cs@.skip(i + 13));
                assert(out@ + substitute(cs@.skip(i + 13), v) =~= before + substitute(rest, v));
            }
            i = i + 13;
        } else {
            push_char(&mut out, cs[i]);
            proof {
                assert(rest.drop_first() =~= cs@.skip(i + 1));
                assert(out@ + substitute(cs@.skip(i + 1), v) =~= before + substitute(rest, v));
            }
            i = i + 1;
        }
    }
    proof {
        assert(cs@.skip(i as int) =~= Seq::<char>::empty());
        assert(out@ =~= substitute(value@, v));
    }
    out
}

/// The names and texts of a list of header pairs.
pub open spec fn header_texts(hs: Seq<(String, String)>) -> Seq<(Seq<char>, Seq<char>)> {
    hs.map_values(|h: (String, String)| (h.0@, h.1@))
}

/// Configured headers with their values substituted.
pub open spec fn substituted_headers(hs: Seq<(String, String)>, v: Substitutions) -> Seq<(Seq<char>, Seq<char>)> {
    hs.map_values(|h: (String, String)| (h.0@, substitute(h.1@, v)))
}

/// The headers set on a forwarded request, in the order they are set:
/// `x-forwarded-for` and `x-real-ip` with the client IP, then the
/// configured request headers with their variables substituted.
pub open spec fn request_header_plan(ctx: ProxyContext) -> Seq<(Seq<char>, Seq<char>)> {
    seq![("x-forwarded-for"@, ip_text(ctx.client_addr.ip)), ("x-real-ip"@, ip_text(ctx.client_addr.ip))]
        + substituted_headers(ctx.config.request_headers@, substitutions_of(ctx))
}

/// The headers set on a response, in the order they are set:
/// `x-served-by` with `<pool>:<server>`, then the configured response
/// headers with their variables substituted.
pub open spec fn response_header_plan(ctx: ProxyContext) -> Seq<(Seq<char>, Seq<char>)> {
    seq![("x-served-by"@, ctx.backend_name@ + ":"@ + addr_text(ctx.backend_addr))] + substituted_headers(
        ctx.config.response_headers@,
        substitutions_of(ctx),
    )
}

fn add_substituted(out: &mut Vec<(String, String)>, hs: &Vec<(String, String)>, ctx: &ProxyContext)
    ensures
        header_texts(final(out)@) == header_texts(old(out)@) + substituted_headers(hs@, substitutions_of(*ctx)),
{
    let mut i: usize = 0;
    while i < hs.len()
        invariant
            i <= hs@.len(),
            header_texts(out@) == header_texts(old(out)@) + substituted_headers(
                hs@.subrange(0, i as int),
                substitutions_of(*ctx),
            ),
        decreases hs@.len() - i,
    {
        let ghost before = header_texts(out@);
        let name = hs[i].0.clone();
        let value = substitute_variables(hs[i].1.as_str(), ctx);
        out.push((name, value));
        proof {
            assert(substituted_headers(hs@.subrange(0, i + 1), substitutions_of(*ctx)) =~= substituted_headers(
                hs@.subrange(0, i as int),
                substitutions_of(*ctx),
            ).push((hs@[i as int].0@, substitute(hs@[i as int].1@, substitutions_of(*ctx)))));
            assert(header_texts(out@) =~= before.push((hs@[i as int].0@, substitute(hs@[i as int].1@, substitutions_of(*ctx)))));
        }
        i = i + 1;
    }
    proof {
        assert(hs@.subrange(0, hs@.len() as int) =~= hs@);
    }
}

/// The headers to set on a forwarded request, in order (a later one of the
/// same name replaces an earlier one).
pub fn request_headers(ctx: &ProxyContext) -> (r: Vec<(String, String)>)
    ensures
        header_texts(r@) == request_header_plan(*ctx),
{
    let mut out: Vec<(String, String)> = Vec::new();
    out.push((String::from_str("x-forwarded-for"), ctx.client_addr.ip.to_text()));
    out.push((String::from_str("x-real-ip"), ctx.client_addr.ip.to_text()));
    proof {
        assert(header_texts(out@) =~= seq![
            ("x-forwarded-for"@, ip_text(ctx.client_addr.ip)),
            ("x-real-ip"@, ip_text(ctx.client_addr.ip)),
        ]);
    }
    add_substituted(&mut out, &ctx.config.request_headers, ctx);
    out
}

/// The headers to set on a response, in order (a later one of the same
/// name replaces an earlier one).
pub fn response_headers(ctx: &ProxyContext) -> (r: Vec<(String, String)>)
    ensures
        header_texts(r@) == response_header_plan(*ctx),
{
    let mut served_by = ctx.backend_name.clone();
    served_by.append(":");
    ctx.backend_addr.push_text(&mut served_by);
    let mut out: Vec<(String, String)> = Vec::new();
    out.push((String::from_str("x-served-by"), served_by));
    proof {
        assert(header_texts(out@) =~= seq![("x-served-by"@, ctx.backend_name@ + ":"@ + addr_text(ctx.backend_addr))]);
    }
    add_substituted(&mut out, &ctx.config.response_headers, ctx);
    out
}

/// The request target sent to the server: the path and query of the
/// client's target, `/` when it has none.
pub fn origin_form(path_and_query: Option<&str>) -> (r: String)
    ensures
        r@ == match path_and_query {
            Some(p) => p@,
            None => "/"@,
        },
{
    match path_and_query {
        Some(p) => String::from_str(p),
        None => String::from_str("/"),
    }
}

/// The body of a 502 answer: `502 Bad Gateway: <message>` and a newline.
pub fn bad_gateway_body(message: &str) -> (r: String)
    ensures
        r@ == "502 Bad Gateway: "@ + message@ + "\n"@,
{
    let mut s = String::from_str("502 Bad Gateway: ");
    s.append(message);
    s.append("\n");
    s
}

/// The step at which forwarding to the server failed.
#[derive(Clone, Copy, Debug, PartialEq, Eq, Structural)]
pub enum UpstreamFailure {
    Connect,
    Handshake,
    Send,
}

/// The message a client gets for a failed step.
pub open spec fn failure_message(f: UpstreamFailure) -> Seq<char> {
    match f {
        UpstreamFailure::Connect => "Failed to connect to backend"@,
        UpstreamFailure::Handshake => "Backend handshake failed"@,
        UpstreamFailure::Send => "Failed to send request to backend"@,
    }
}

impl UpstreamFailure {
    /// The body of the 502 answer for this failure.
    pub fn body(&self) -> (r: String)
        ensures
            r@ == "502 Bad Gateway: "@ + failure_message(*self) + "\n"@,
    {
        match self {
            UpstreamFailure::Connect => bad_gateway_body("Failed to connect to backend"),
            UpstreamFailure::Handshake => bad_gateway_body("Backend handshake failed"),
            UpstreamFailure::Send => bad_gateway_body("Failed to send request to backend"),
        }
    }
}

/// The status every failure to reach the server is answered with.
pub fn upstream_failure_status() -> (r: u16)
    ensures
        r == 502,
{
    502
}

/// Whether a later entry than `i` has the same name.
pub open spec fn name_later(hs: Seq<(Seq<char>, Seq<char>)>, i: int) -> bool {
    exists|j: int| i < j < hs.len() && #[trigger] hs[j].0 == hs[i].0
}

/// The entries no later entry renames, in order: the last value of each
/// name, as a map filled entry by entry keeps it.
pub open spec fn last_per_name(hs: Seq<(Seq<char>, Seq<char>)>) -> Seq<(Seq<char>, Seq<char>)>
    decreases hs.len(),
{
    if hs.len() == 0 {
        hs
    } else if name_later(hs, 0) {
        last_per_name(hs.drop_first())
    } else {
        seq![hs[0]] + last_per_name(hs.drop_first())
    }
}

/// Whether some entry has name `n`.
pub open spec fn has_name(hs: Seq<(Seq<char>, Seq<char>)>, n: Seq<char>) -> bool {
    exists|j: int| 0 <= j < hs.len() && #[trigger] hs[j].0 == n
}

/// No two entries share a name.
pub open spec fn unique_names(hs: Seq<(Seq<char>, Seq<char>)>) -> bool {
    forall|i: int, j: int| 0 <= i < j < hs.len() ==> #[trigger] hs[i].0 != #[trigger] hs[j].0
}

proof fn lemma_last_per_name_names(hs: Seq<(Seq<char>, Seq<char>)>, n: Seq<char>)
    ensures
        has_name(last_per_name(hs), n) ==> has_name(hs, n),
    decreases hs.len(),
{
    if hs.len() > 0 {
        let t = hs.drop_first();
        lemma_last_per_name_names(t, n);
        if has_name(last_per_name(hs), n) {
            if has_name(t, n) {
                let j = choose|j: int| 0 <= j < t.len() && #[trigger] t[j].0 == n;
                assert(hs[j + 1].0 == n);
            } else {
                assert(!name_later(hs, 0));
                let r = last_per_name(hs);
                let k = choose|k: int| 0 <= k < r.len() && #[trigger] r[k].0 == n;
                if k > 0 {
                    assert(r[k] == last_per_name(t)[k - 1]);
                    assert(has_name(last_per_name(t), n));
                }
                assert(hs[0].0 == n);
            }
        }
    }
}

/// Keeping the last entry of each name leaves every name once.
pub proof fn lemma_last_per_name_unique(hs: Seq<(Seq<char>, Seq<char>)>)
    ensures
        unique_names(last_per_name(hs)),
    decreases hs.len(),
{
    if hs.len() > 0 {
        let t = hs.drop_first();
        lemma_last_per_name_unique(t);
        if !name_later(hs, 0) {
            let r = last_per_name(hs);
            let rt = last_per_name(t);
            assert forall|i: int, j: int| 0 <= i < j < r.len() implies #[trigger] r[i].0 != #[trigger] r[j].0 by {
                if i == 0 {
                    assert(r[j] == rt[j - 1]);
                    lemma_last_per_name_names(t, hs[0].0);
                    if r[j].0 == hs[0].0 {
                        assert(has_name(rt, hs[0].0));
                        let m = choose|m: int| 0 <= m < t.len() && #[trigger] t[m].0 == hs[0].0;
                        assert(hs[m + 1].0 == hs[0].0);
                    }
                } else {
                    assert(r[i] == rt[i - 1] && r[j] == rt[j - 1]);
                }
            }
        }
    }
}

fn renamed_later(hs: &Vec<(String, String)>, i: usize) -> (r: bool)
    requires
        i < hs@.len(),
    ensures
        r == name_later(header_texts(hs@).skip(i as int), 0),
{
    let ghost t = header_texts(hs@).skip(i as int);
    let n = hs.len();
    assert(i < n);
    let mut j = i + 1;
    while j < hs.len()
        invariant
            i < j <= hs@.len(),
            t == header_texts(hs@).skip(i as int),
            forall|k: int| i < k < j ==> #[trigger] hs@[k].0@ != hs@[i as int].0@,
        decreases hs@.len() - j,
    {
        if hs[j].0 == hs[i].0 {
            assert(t[j - i].0 == t[0].0);
            return true;
        }
        j = j + 1;
    }
    assert forall|k: int| 0 < k < t.len() implies #[trigger] t[k].0 != t[0].0 by {
        assert(t[k] == header_texts(hs@)[i + k]);
    }
    false
}

/// The last entry of each header name, in order.
fn last_headers(hs: &Vec<(String, String)>) -> (r: Vec<(String, String)>)
    ensures
        header_texts(r@) == last_per_name(header_texts(hs@)),
{
    let ghost all = header_texts(hs@);
    let mut out: Vec<(String, String)> = Vec::new();
    let mut i: usize = 0;
    proof {
        assert(all.skip(0) =~= all);
        assert(header_texts(out@) + last_per_name(all.skip(0)) =~= last_per_name(all));
    }
    while i < hs.len()
        invariant
            i <= hs@.len(),
            all == header_texts(hs@),
            header_texts(out@) + last_per_name(all.skip(i as int)) == last_per_name(all),
        decreases hs@.len() - i,
    {
        let ghost before = header_texts(out@);
        let ghost rest = all.skip(i as int);
        let later = renamed_later(hs, i);
        proof {
            assert(rest.drop_first() =~= all.skip(i + 1));
            assert(rest[0] == (hs@[i as int].0@, hs@[i as int].1@));
        }
        if !later {
            out.push((hs[i].0.clone(), hs[i].1.clone()));
            proof {
                assert(header_texts(out@) =~= before.push(rest[0]));
                assert(header_texts(out@) + last_per_name(all.skip(i + 1)) =~= before + last_per_name(rest));
            }
        }
        i = i + 1;
    }
    proof {
        assert(all.skip(i as int) =~= Seq::<(Seq<char>, Seq<char>)>::empty());
        assert(header_texts(out@) =~= last_per_name(all));
    }
    out
}

impl HttpProxyConfig {
    /// Header names are unique in both lists.
    pub open spec fn wf(&self) -> bool {
        unique_names(header_texts(self.request_headers@)) && unique_names(header_texts(self.response_headers@))
    }

    /// The forwarder settings of an HTTP listener: its configured headers,
    /// the last value of each name (none without an `http` section), and a
    /// ten-second connect timeout.
    pub fn from_frontend(http: &Option<HttpConfig>) -> (r: HttpProxyConfig)
        ensures
            r.wf(),
            r.connect_timeout_ms == 10_000,
            match http {
                Some(h) => header_texts(r.request_headers@) == last_per_name(header_texts(h.request_headers@))
                    && header_texts(r.response_headers@) == last_per_name(header_texts(h.response_headers@)),
                None => r.request_headers@.len() == 0 && r.response_headers@.len() == 0,
            },
    {
        match http {
            Some(h) => {
                proof {
                    lemma_last_per_name_unique(header_texts(h.request_headers@));
                    lemma_last_per_name_unique(header_texts(h.response_headers@));
                }
                HttpProxyConfig {
                    request_headers: last_headers(&h.request_headers),
                    response_headers: last_headers(&h.response_headers),
                    connect_timeout_ms: 10_000,
                }
            },
            None => HttpProxyConfig::default(),
        }
    }
}

impl Default for HttpProxyConfig {
    /// No extra headers and a ten-second connect timeout.
    fn default() -> (r: HttpProxyConfig)
        ensures
            r.request_headers@.len() == 0,
            r.response_headers@.len() == 0,
            r.connect_timeout_ms == 10_000,
            r.wf(),
    {
        HttpProxyConfig { request_headers: Vec::new(), response_headers: Vec::new(), connect_timeout_ms: 10_000 }
    }
}

} // verus!
