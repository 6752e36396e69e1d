//! Active health probes: which servers to probe and how often, the probe
//! request, and the verdict on a probe's response.

use vstd::prelude::*;
use crate::addr::{addr_text, SocketAddress};
use crate::config::{BackendConfig, HealthCheckConfig, ServerConfig};
use crate::text::{chars_of, decimal, push_decimal};

verus! {

/// Whether `c` has the Unicode `White_Space` property.
pub open spec fn is_whitespace(c: char) -> bool {
    ('\t' <= c && c <= '\r') || c == ' ' || c == '\u{85}' || c == '\u{a0}' || c == '\u{1680}'
        || ('\u{2000}' <= c && c <= '\u{200a}') || c == '\u{2028}' || c == '\u{2029}'
        || c == '\u{202f}' || c == '\u{205f}' || c == '\u{3000}'
}

/// The first index at or after `i` that is not whitespace (or the end).
pub open spec fn skip_space(s: Seq<char>, i: int) -> int
    decreases s.len() - i,
{
    if i < 0 || i >= s.len() || !is_whitespace(s[i]) {
        if i < 0 { 0 } else if i > s.len() { s.len() as int } else { i }
    } else {
        skip_space(s, i + 1)
    }
}

/// The first index at or after `i` that is whitespace (or the end).
pub open spec fn word_end(s: Seq<char>, i: int) -> int
    decreases s.len() - i,
{
    if i < 0 || i >= s.len() || is_whitespace(s[i]) {
        if i < 0 { 0 } else if i > s.len() { s.len() as int } else { i }
    } else {
        word_end(s, i + 1)
    }
}

/// The second whitespace-separated word of `s`, if there are two.
pub open spec fn second_word(s: Seq<char>) -> Option<Seq<char>> {
    let a0 = skip_space(s, 0);
    let e0 = word_end(s, a0);
    let a1 = skip_space(s, e0);
    if a0 < s.len() && a1 < s.len() {
        Some(s.subrange(a1, word_end(s, a1)))
    } else {
        None
    }
}

/// Whether `c` is an ASCII digit.
pub open spec fn is_digit(c: char) -> bool {
    '0' <= c && c <= '9'
}

/// The number the digits of `d` spell, most significant first.
pub open spec fn digits_value(d: Seq<char>) -> nat
    decreases d.len(),
{
    if d.len() == 0 {
        0
    } else {
        digits_value(d.drop_last()) * 10 + (d.last() as nat - '0' as nat) as nat
    }
}

/// Whether every character of `d` is an ASCII digit.
pub open spec fn all_digits(d: Seq<char>) -> bool {
    forall|i: int| 0 <= i < d.len() ==> is_digit(#[trigger] d[i])
}

/// `t` without a leading `+`.
pub open spec fn unsigned_part(t: Seq<char>) -> Seq<char> {
    if t.len() > 0 && t[0] == '+' {
        t.drop_first()
    } else {
        t
    }
}

/// A `u16` read as `str::parse` reads one: an optional `+`, then at least
/// one ASCII digit, with a value that fits.
pub open spec fn parse_u16(t: Seq<char>) -> Option<u16> {
    let d = unsigned_part(t);
    if d.len() > 0 && all_digits(d) && digits_value(d) <= 0xffff {
        Some(digits_value(d) as u16)
    } else {
        None
    }
}

/// The status code of a response's start line: its second word, read as a
/// number.
pub open spec fn status_of(response: Seq<char>) -> Result<u16, Seq<char>> {
    match second_word(response) {
        None => Err("invalid HTTP response"@),
        Some(w) => match parse_u16(w) {
            Some(n) => Ok(n),
            None => Err("invalid status code"@),
        },
    }
}

/// Whether `c` has the Unicode `White_Space` property.
pub fn whitespace(c: char) -> (r: bool)
    ensures
        r == is_whitespace(c),
{
    ('\t' <= c && c <= '\r') || c == ' ' || c == '\u{85}' || c == '\u{a0}' || c == '\u{1680}'
        || ('\u{2000}' <= c && c <= '\u{200a}') || c == '\u{2028}' || c == '\u{2029}'
        || c == '\u{202f}' || c == '\u{205f}' || c == '\u{3000}'
}

fn skip_space_at(cs: &Vec<char>, i: usize) -> (r: usize)
    requires
        i <= cs@.len(),
    ensures
        r as int == skip_space(cs@, i as int),
        i <= r <= cs@.len(),
{
    let mut j = i;
    while j < cs.len() && whitespace(cs[j])
        invariant
            i <= j <= cs@.len(),
            skip_space(cs@, i as int) == skip_space(cs@, j as int),
        decreases cs@.len() - j,
    {
        j = j + 1;
    }
    j
}

fn word_end_at(cs: &Vec<char>, i: usize) -> (r: usize)
    requires
        i <= cs@.len(),
    ensures
        r as int == word_end(cs@, i as int),
        i <= r <= cs@.len(),
{
    let mut j = i;
    while j < cs.len() && !whitespace(cs[j])
        invariant
            i <= j <= cs@.len(),
            word_end(cs@, i as int) == word_end(cs@, j as int),
        decreases cs@.len() - j,
    {
        j = j + 1;
    }
    j
}

/// The `u16` spelled by `cs[a..e]`, read as `str::parse` reads it.
fn parse_u16_range(cs: &Vec<char>, a: usize, e: usize) -> (r: Option<u16>)
    requires
        a <= e <= cs@.len(),
    ensures
        r == parse_u16(cs@.subrange(a as int, e as int)),
{
    let ghost t = cs@.subrange(a as int, e as int);
    let start = if a < e && cs[a] == '+' {
        a + 1
    } else {
        a
    };
    let ghost d = cs@.subrange(start as int, e as int);
    assert(d =~= unsigned_part(t));
    if start == e {
        return None;
    }
    let mut value: u32 = 0;
    let mut k = start;
    while k < e
        invariant
            start <= k <= e <= cs@.len(),
            d == cs@.subrange(start as int, e as int),
            d == unsigned_part(t),
            t == cs@.subrange(a as int, e as int),
            a <= start,
            forall|i: int| start <= i < k ==> is_digit(#[trigger] cs@[i]),
            value as nat == if digits_value(cs@.subrange(start as int, k as int)) > 0xffff {
                0x10000
            } else {
                digits_value(cs@.subrange(start as int, k as int))
            },
        decreases e - k,
    {
        let c = cs[k];
        if !('0' <= c && c <= '9') {
            assert(!is_digit(d[k - start]));
            assert(!all_digits(d));
            return None;
        }
        proof {
            assert(cs@.subrange(start as int, k + 1).drop_last() =~= cs@.subrange(start as int, k as int));
        }
        let dv = (c as u32) - ('0' as u32);
        let next: u32 = value * 10 + dv;
        value = if next > 0xffff {
            0x10000
        } else {
            next
        };
        k = k + 1;
    }
    assert(cs@.subrange(start as int, k as int) == d);
    assert(forall|i: int| 0 <= i < d.len() ==> is_digit(#[trigger] d[i])) by {
        assert forall|i: int| 0 <= i < d.len() implies is_digit(#[trigger] d[i]) by {
            assert(d[i] == cs@[start + i]);
        }
    }
    if value > 0xffff {
        None
    } else {
        Some(value as u16)
    }
}

/// The status code of an HTTP response's start line: the second
/// whitespace-separated word, read as a number.
pub fn parse_http_status(response: &str) -> (r: Result<u16, String>)
    ensures
        match (r, status_of(response@)) {
            (Ok(a), Ok(b)) => a == b,
            (Err(m), Err(e)) => m@ == e,
            _ => false,
        },
{
    let cs = chars_of(response);
    let a0 = skip_space_at(&cs, 0);
    let e0 = word_end_at(&cs, a0);
    let a1 = skip_space_at(&cs, e0);
    if a0 >= cs.len() || a1 >= cs.len() {
        return Err(String::from_str("invalid HTTP response"));
    }
    let e1 = word_end_at(&cs, a1);
    match parse_u16_range(&cs, a1, e1) {
        Some(n) => Ok(n),
        None => Err(String::from_str("invalid status code")),
    }
}

/// One server to probe: its address, the index of its pool in the
/// configuration, and how often its pool wants it probed.
#[derive(Clone, Copy, Debug, PartialEq, Eq, Structural)]
pub struct ProbeTarget {
    pub server: SocketAddress,
    pub backend_index: usize,
    pub interval_ms: u64,
}

/// The probe targets of pool `b`, at index `idx`: each of its servers if it
/// has a probe, none otherwise.
pub open spec fn pool_targets(b: BackendConfig, idx: int, default_interval_ms: u64) -> Seq<ProbeTarget> {
    match b.health_check {
        None => Seq::empty(),
        Some(hc) => b.servers@.map_values(
            |s: ServerConfig|
                ProbeTarget {
                    server: s.address,
                    backend_index: idx as usize,
                    interval_ms: match hc.interval_ms {
                        Some(i) => i,
                        None => default_interval_ms,
                    },
                },
        ),
    }
}

/// The probe targets of all pools, pool by pool, servers in order.
pub open spec fn probe_targets(bs: Seq<BackendConfig>, default_interval_ms: u64) -> Seq<ProbeTarget>
    decreases bs.len(),
{
    if bs.len() == 0 {
        Seq::empty()
    } else {
        probe_targets(bs.drop_last(), default_interval_ms) + pool_targets(
            bs.last(),
            bs.len() - 1,
            default_interval_ms,
        )
    }
}

/// The smallest interval among `ts`, or `default_ms` if there is none.
pub open spec fn min_interval(ts: Seq<ProbeTarget>, default_ms: u64) -> u64
    decreases ts.len(),
{
    if ts.len() == 0 {
        default_ms
    } else if ts.len() == 1 {
        ts[0].interval_ms
    } else {
        let m = min_interval(ts.drop_last(), default_ms);
        if ts.last().interval_ms < m {
            ts.last().interval_ms
        } else {
            m
        }
    }
}

/// Every server of every pool that has a probe, with the pool's interval
/// (or `default_interval_ms`).
pub fn collect_probe_targets(backends: &[BackendConfig], default_interval_ms: u64) -> (r: Vec<ProbeTarget>)
    ensures
        r@ == probe_targets(backends@, default_interval_ms),
{
    let mut out: Vec<ProbeTarget> = Vec::new();
    let mut k: usize = 0;
    while k < backends.len()
        invariant
            k <= backends@.len(),
            out@ == probe_targets(backends@.subrange(0, k as int), default_interval_ms),
        decreases backends@.len() - k,
    {
        let b = &backends[k];
        let ghost before = out@;
        proof {
            assert(backends@.subrange(0, k + 1).drop_last() =~= backends@.subrange(0, k as int));
        }
        match &b.health_check {
            None => {
                assert(out@ =~= probe_targets(backends@.subrange(0, k + 1), default_interval_ms));
            },
            Some(hc) => {
                let interval = match hc.interval_ms {
                    Some(i) => i,
                    None => default_interval_ms,
                };
                let mut j: usize = 0;
                while j < b.servers.len()
                    invariant
                        j <= b.servers@.len(),
                        k < backends@.len(),
                        *b == backends@[k as int],
                        b.health_check == Some(*hc),
                        interval == match hc.interval_ms {
                            Some(i) => i,
                            None => default_interval_ms,
                        },
                        out@ == before + pool_targets(*b, k as int, default_interval_ms).subrange(0, j as int),
                    decreases b.servers@.len() - j,
                {
                    out.push(ProbeTarget { server: b.servers[j].address, backend_index: k, interval_ms: interval });
                    proof {
                        assert(pool_targets(*b, k as int, default_interval_ms).subrange(0, j + 1) =~= pool_targets(
                            *b,
                            k as int,
                            default_interval_ms,
                        ).subrange(0, j as int).push(out@.last()));
                    }
                    j = j + 1;
                }
                proof {
                    assert(pool_targets(*b, k as int, default_interval_ms).subrange(0, j as int) =~= pool_targets(
                        *b,
                        k as int,
                        default_interval_ms,
                    ));
                }
            },
        }
        k = k + 1;
    }
    proof {
        assert(backends@.subrange(0, backends@.len() as int) =~= backends@);
    }
    out
}

/// The tick period of the checker: the smallest probe interval, or
/// `default_ms` when nothing is probed.
pub fn tick_period(targets: &[ProbeTarget], default_ms: u64) -> (r: u64)
    ensures
        r == min_interval(targets@, default_ms),
{
    if targets.len() == 0 {
        return default_ms;
    }
    let mut m = targets[0].interval_ms;
    let mut i: usize = 1;
    while i < targets.len()
        invariant
            1 <= i <= targets@.len(),
            m == min_interval(targets@.subrange(0, i as int), default_ms),
        decreases targets@.len() - i,
    {
        proof {
            assert(targets@.subrange(0, i + 1).drop_last() =~= targets@.subrange(0, i as int));
        }
        if targets[i].interval_ms < m {
            m = targets[i].interval_ms;
        }
        i = i + 1;
    }
    proof {
        assert(targets@.subrange(0, targets@.len() as int) =~= targets@);
    }
    m
}

/// The timeout of a probe: the pool's own, or `default_ms`.
pub fn probe_timeout(check: &HealthCheckConfig, default_ms: u64) -> (r: u64)
    ensures
        r == match check.timeout_ms {
            Some(t) => t,
            None => default_ms,
        },
{
    match check.timeout_ms {
        Some(t) => t,
        None => default_ms,
    }
}

/// The request line and headers an HTTP probe sends.
pub open spec fn probe_request_text(path: Seq<char>, server: SocketAddress) -> Seq<char> {
    "GET "@ + path + " HTTP/1.1\r\nHost: "@ + addr_text(server) + "\r\nConnection: close\r\n\r\n"@
}

/// The HTTP probe request for `server`: `GET <path>`, with the pool's path
/// or `/`, a `Host` header naming the server, and `Connection: close`.
pub fn probe_request(check: &HealthCheckConfig, server: SocketAddress) -> (r: String)
    ensures
        r@ == probe_request_text(
            match check.path {
                Some(p) => p@,
                None => "/"@,
            },
            server,
        ),
{
    let mut m = String::from_str("GET ");
    match &check.path {
        Some(p) => m.append(p.as_str()),
        None => m.append("/"),
    }
    m.append(" HTTP/1.1\r\nHost: ");
    server.push_text(&mut m);
    m.append("\r\nConnection: close\r\n\r\n");
    m
}

/// The verdict on a probe response: its status must be `expected`.
pub open spec fn verdict_of(response: Seq<char>, expected: u16) -> Result<(), Seq<char>> {
    match status_of(response) {
        Err(e) => Err(e),
        Ok(s) => if s == expected {
            Ok(())
        } else {
            Err("unexpected status: "@ + decimal(s as nat) + " (expected "@ + decimal(expected as nat) + ")"@)
        },
    }
}

/// Whether a probe response passes: its status line's code equals
/// `expected`; otherwise the reason.
pub fn probe_verdict(response: &str, expected: u16) -> (r: Result<(), String>)
    ensures
        match (r, verdict_of(response@, expected)) {
            (Ok(()), Ok(())) => true,
            (Err(m), Err(e)) => m@ == e,
            _ => false,
        },
{
    match parse_http_status(response) {
        Err(e) => Err(e),
        Ok(s) => {
            if s == expected {
                Ok(())
            } else {
                let mut m = String::from_str("unexpected status: ");
                push_decimal(&mut m, s as u64);
                m.append(" (expected ");
                push_decimal(&mut m, expected as u64);
                m.append(")");
                Err(m)
            }
        },
    }
}

} // verus!
