//! Network addresses as plain values: an IP address (v4 or v6) and a port,
//! with the text form std's `Display` gives them.

use vstd::prelude::*;
use crate::text::{decimal, hex, push_char, push_decimal, push_hex};

verus! {

/// An IP address: four octets for IPv4, one 128-bit number for IPv6.
#[derive(Clone, Copy, Debug, PartialEq, Eq, Hash, Structural)]
pub enum IpAddress {
    V4(u8, u8, u8, u8),
    V6(u128),
}

/// An IP address, a port, and (for IPv6) a scope id; zero means none.
#[derive(Clone, Copy, Debug, PartialEq, Eq, Hash, Structural)]
pub struct SocketAddress {
    pub ip: IpAddress,
    pub port: u16,
    pub scope_id: u32,
}

/// Byte `i` (from the most significant) of a 128-bit number.
pub open spec fn v6_octet(x: u128, i: int) -> u8 {
    ((x >> ((8 * (15 - i)) as u128)) & 0xff) as u8
}

/// The 16-bit group `i` (from the most significant) of a 128-bit number.
pub open spec fn v6_group(x: u128, i: int) -> u16 {
    ((x >> ((16 * (7 - i)) as u128)) & 0xffff) as u16
}

/// The eight 16-bit groups of an IPv6 address.
pub open spec fn v6_groups(x: u128) -> Seq<u16> {
    Seq::new(8, |i: int| v6_group(x, i))
}

/// The octets of an address in network order: four for IPv4, sixteen for IPv6.
pub open spec fn octets(ip: IpAddress) -> Seq<u8> {
    match ip {
        IpAddress::V4(a, b, c, d) => seq![a, b, c, d],
        IpAddress::V6(x) => Seq::new(16, |i: int| v6_octet(x, i)),
    }
}

/// Dotted-decimal text of an IPv4 address.
pub open spec fn v4_text(a: u8, b: u8, c: u8, d: u8) -> Seq<char> {
    decimal(a as nat) + seq!['.'] + decimal(b as nat) + seq!['.'] + decimal(c as nat)
        + seq!['.'] + decimal(d as nat)
}

/// Groups in hex, joined by colons.
pub open spec fn hex_groups(g: Seq<u16>) -> Seq<char>
    decreases g.len(),
{
    if g.len() == 0 {
        Seq::empty()
    } else if g.len() == 1 {
        hex(g[0] as nat)
    } else {
        hex_groups(g.drop_last()) + seq![':'] + hex(g.last() as nat)
    }
}

/// How many zero groups follow in a row from index `s`.
pub open spec fn zeros_from(g: Seq<u16>, s: int) -> nat
    decreases g.len() - s,
{
    if s < 0 || s >= g.len() || g[s] != 0 {
        0
    } else {
        1 + zeros_from(g, s + 1)
    }
}

/// Start and length of the longest zero run starting before `n`, the
/// leftmost one on a tie; `(0, 0)` if there is none.
pub open spec fn longest_zero_run(g: Seq<u16>, n: int) -> (int, nat)
    decreases n,
{
    if n <= 0 {
        (0, 0)
    } else {
        let best = longest_zero_run(g, n - 1);
        if zeros_from(g, n - 1) > best.1 {
            (n - 1, zeros_from(g, n - 1))
        } else {
            best
        }
    }
}

/// Whether an IPv6 address is an IPv4-mapped one, `::ffff:a.b.c.d`.
pub open spec fn is_v4_mapped(x: u128) -> bool {
    v6_group(x, 0) == 0 && v6_group(x, 1) == 0 && v6_group(x, 2) == 0 && v6_group(x, 3) == 0
        && v6_group(x, 4) == 0 && v6_group(x, 5) == 0xffff
}

/// Text of an IPv6 address as std writes it: an IPv4-mapped address as
/// `::ffff:` and dotted decimal; otherwise the groups in lowercase hex,
/// with the longest run of two or more zero groups (the leftmost on a tie)
/// written `::`.
pub open spec fn v6_text(x: u128) -> Seq<char> {
    let g = v6_groups(x);
    let run = longest_zero_run(g, 8);
    if is_v4_mapped(x) {
        seq![':', ':', 'f', 'f', 'f', 'f', ':'] + v4_text(
            v6_octet(x, 12),
            v6_octet(x, 13),
            v6_octet(x, 14),
            v6_octet(x, 15),
        )
    } else if run.1 > 1 {
        hex_groups(g.subrange(0, run.0)) + seq![':', ':'] + hex_groups(g.subrange(run.0 + run.1, 8))
    } else {
        hex_groups(g)
    }
}

/// Text of an IP address: dotted decimal for IPv4, std's form for IPv6.
pub open spec fn ip_text(ip: IpAddress) -> Seq<char> {
    match ip {
        IpAddress::V4(a, b, c, d) => v4_text(a, b, c, d),
        IpAddress::V6(x) => v6_text(x),
    }
}

/// Text of a socket address: `ip:port`, or `[ip]:port` for IPv6 with
/// `%scope` after the address when the scope id is not zero.
pub open spec fn addr_text(a: SocketAddress) -> Seq<char> {
    match a.ip {
        IpAddress::V4(..) => ip_text(a.ip) + seq![':'] + decimal(a.port as nat),
        IpAddress::V6(..) => seq!['['] + ip_text(a.ip) + (if a.scope_id != 0 {
            seq!['%'] + decimal(a.scope_id as nat)
        } else {
            Seq::empty()
        }) + seq![']', ':'] + decimal(a.port as nat),
    }
}

/// The run `longest_zero_run(g, n)` picks is as long as any run starting
/// before `n`, longer than any starting before it, and really that long.
pub proof fn lemma_longest_zero_run(g: Seq<u16>, n: int)
    requires
        0 <= n,
    ensures
        ({
            let r = longest_zero_run(g, n);
            &&& r.1 == 0 || (0 <= r.0 < n && r.1 == zeros_from(g, r.0))
            &&& forall|t: int| 0 <= t < n ==> #[trigger] zeros_from(g, t) <= r.1
            &&& forall|t: int| 0 <= t < r.0 ==> #[trigger] zeros_from(g, t) < r.1
        }),
    decreases n,
{
    if n > 0 {
        lemma_longest_zero_run(g, n - 1);
    }
}

/// The zero run from `s` is `k` zeros followed by the run from `s + k`.
proof fn lemma_zeros_from_step(g: Seq<u16>, s: int, j: int)
    requires
        0 <= s <= j <= g.len(),
        forall|t: int| s <= t < j ==> g[t] == 0,
    ensures
        zeros_from(g, s) == (j - s) + zeros_from(g, j),
    decreases j - s,
{
    if s < j {
        lemma_zeros_from_step(g, s + 1, j);
    }
}

fn group(x: u128, i: usize) -> (r: u16)
    requires
        i < 8,
    ensures
        r == v6_group(x, i as int),
{
    let shift: u128 = (16 * (7 - i)) as u128;
    ((x >> shift) & 0xffff) as u16
}

fn octet(x: u128, i: usize) -> (r: u8)
    requires
        i < 16,
    ensures
        r == v6_octet(x, i as int),
{
    let shift: u128 = (8 * (15 - i)) as u128;
    ((x >> shift) & 0xff) as u8
}

/// The length of the zero run of `gs` from `s`.
fn zeros_at(gs: &Vec<u16>, s: usize) -> (r: usize)
    requires
        s <= gs@.len(),
    ensures
        r as nat == zeros_from(gs@, s as int),
        s + r <= gs@.len(),
{
    let mut j = s;
    while j < gs.len() && gs[j] == 0
        invariant
            s <= j <= gs@.len(),
            forall|t: int| s <= t < j ==> gs@[t] == 0,
        decreases gs@.len() - j,
    {
        j = j + 1;
    }
    proof {
        lemma_zeros_from_step(gs@, s as int, j as int);
    }
    j - s
}

/// Appends the groups `gs[from..to]` in hex, joined by colons.
fn push_hex_groups(out: &mut String, gs: &Vec<u16>, from: usize, to: usize)
    requires
        from <= to <= gs@.len(),
    ensures
        final(out)@ == old(out)@ + hex_groups(gs@.subrange(from as int, to as int)),
{
    let ghost start = out@;
    let mut k = from;
    proof {
        assert(gs@.subrange(from as int, from as int) =~= Seq::<u16>::empty());
        assert(out@ =~= start + hex_groups(gs@.subrange(from as int, from as int)));
    }
    while k < to
        invariant
            from <= k <= to <= gs@.len(),
            out@ == start + hex_groups(gs@.subrange(from as int, k as int)),
        decreases to - k,
    {
        if k > from {
            push_char(out, ':');
        }
        push_hex(out, gs[k] as u64);
        proof {
            let s1 = gs@.subrange(from as int, k + 1);
            assert(s1.drop_last() =~= gs@.subrange(from as int, k as int));
            assert(s1.last() == gs@[k as int]);
            if k == from {
                assert(out@ =~= start + hex_groups(s1));
            } else {
                assert(out@ =~= start + hex_groups(s1));
            }
        }
        k = k + 1;
    }
}

fn push_v6_text(out: &mut String, x: u128)
    ensures
        final(out)@ == old(out)@ + v6_text(x),
{
    let ghost start = out@;
    let mut gs: Vec<u16> = Vec::new();
    let mut i: usize = 0;
    while i < 8
        invariant
            i <= 8,
            gs@.len() == i,
            forall|j: int| 0 <= j < i ==> gs@[j] == v6_group(x, j),
        decreases 8 - i,
    {
        gs.push(group(x, i));
        i = i + 1;
    }
    assert(gs@ =~= v6_groups(x));
    if gs[0] == 0 && gs[1] == 0 && gs[2] == 0 && gs[3] == 0 && gs[4] == 0 && gs[5] == 0xffff {
        push_char(out, ':');
        push_char(out, ':');
        push_char(out, 'f');
        push_char(out, 'f');
        push_char(out, 'f');
        push_char(out, 'f');
        push_char(out, ':');
        push_decimal(out, octet(x, 12) as u64);
        push_char(out, '.');
        push_decimal(out, octet(x, 13) as u64);
        push_char(out, '.');
        push_decimal(out, octet(x, 14) as u64);
        push_char(out, '.');
        push_decimal(out, octet(x, 15) as u64);
        assert(out@ =~= start + v6_text(x));
        return;
    }
    let mut best_start: usize = 0;
    let mut best_len: usize = 0;
    let mut n: usize = 0;
    while n < 8
        invariant
            n <= 8,
            gs@ == v6_groups(x),
            gs@.len() == 8,
            (best_start as int, best_len as nat) == longest_zero_run(gs@, n as int),
            best_start + best_len <= 8,
        decreases 8 - n,
    {
        let z = zeros_at(&gs, n);
        if z > best_len {
            best_start = n;
            best_len = z;
        }
        n = n + 1;
    }
    if best_len > 1 {
        push_hex_groups(out, &gs, 0, best_start);
        push_char(out, ':');
        push_char(out, ':');
        push_hex_groups(out, &gs, best_start + best_len, 8);
        assert(out@ =~= start + v6_text(x));
    } else {
        push_hex_groups(out, &gs, 0, 8);
        assert(gs@.subrange(0, 8) =~= gs@);
        assert(out@ =~= start + v6_text(x));
    }
}

impl IpAddress {
    /// The octets of the address in network order.
    pub fn octets(&self) -> (r: Vec<u8>)
        ensures
            r@ == octets(*self),
    {
        match *self {
            IpAddress::V4(a, b, c, d) => {
                let r = vec![a, b, c, d];
                assert(r@ =~= octets(*self));
                r
            },
            IpAddress::V6(x) => {
                let mut r: Vec<u8> = Vec::new();
                let mut i: usize = 0;
                while i < 16
                    invariant
                        i <= 16,
                        r@.len() == i,
                        forall|j: int| 0 <= j < i ==> r@[j] == v6_octet(x, j),
                    decreases 16 - i,
                {
                    r.push(octet(x, i));
                    i = i + 1;
                }
                assert(r@ =~= octets(*self));
                r
            },
        }
    }

    /// Appends the text of the address to `out`.
    pub fn push_text(&self, out: &mut String)
        ensures
            final(out)@ == old(out)@ + ip_text(*self),
    {
        match *self {
            IpAddress::V4(a, b, c, d) => {
                push_decimal(out, a as u64);
                push_char(out, '.');
                push_decimal(out, b as u64);
                push_char(out, '.');
                push_decimal(out, c as u64);
                push_char(out, '.');
                push_decimal(out, d as u64);
                assert(out@ =~= old(out)@ + ip_text(*self));
            },
            IpAddress::V6(x) => {
                push_v6_text(out, x);
            },
        }
    }

    /// The text of the address.
    pub fn to_text(&self) -> (r: String)
        ensures
            r@ == ip_text(*self),
    {
        let mut s = String::new();
        self.push_text(&mut s);
        assert(s@ =~= ip_text(*self));
        s
    }
}

impl SocketAddress {
    /// The IPv4 socket address `a.b.c.d:port`.
    pub open spec fn v4_spec(a: u8, b: u8, c: u8, d: u8, port: u16) -> SocketAddress {
        SocketAddress { ip: IpAddress::V4(a, b, c, d), port, scope_id: 0 }
    }

    /// An IPv4 socket address.
    pub fn v4(a: u8, b: u8, c: u8, d: u8, port: u16) -> (r: SocketAddress)
        ensures
            r == SocketAddress::v4_spec(a, b, c, d, port),
    {
        SocketAddress { ip: IpAddress::V4(a, b, c, d), port, scope_id: 0 }
    }

    /// An IPv6 socket address without a scope id.
    pub fn v6(x: u128, port: u16) -> (r: SocketAddress)
        ensures
            r == (SocketAddress { ip: IpAddress::V6(x), port, scope_id: 0 }),
    {
        SocketAddress { ip: IpAddress::V6(x), port, scope_id: 0 }
    }

    /// An IPv6 socket address with a scope id.
    pub fn v6_scoped(x: u128, port: u16, scope_id: u32) -> (r: SocketAddress)
        ensures
            r == (SocketAddress { ip: IpAddress::V6(x), port, scope_id }),
    {
        SocketAddress { ip: IpAddress::V6(x), port, scope_id }
    }

    /// The IP address.
    pub fn ip(&self) -> (r: IpAddress)
        ensures
            r == self.ip,
    {
        self.ip
    }

    /// The port.
    pub fn port(&self) -> (r: u16)
        ensures
            r == self.port,
    {
        self.port
    }

    /// Appends the text of the address to `out`.
    pub fn push_text(&self, out: &mut String)
        ensures
            final(out)@ == old(out)@ + addr_text(*self),
    {
        match self.ip {
            IpAddress::V4(..) => {
                self.ip.push_text(out);
                push_char(out, ':');
                push_decimal(out, self.port as u64);
                assert(out@ =~= old(out)@ + addr_text(*self));
            },
            IpAddress::V6(..) => {
                push_char(out, '[');
                self.ip.push_text(out);
                if self.scope_id != 0 {
                    push_char(out, '%');
                    push_decimal(out, self.scope_id as u64);
                }
                push_char(out, ']');
                push_char(out, ':');
                push_decimal(out, self.port as u64);
                assert(out@ =~= old(out)@ + addr_text(*self));
            },
        }
    }

    /// The text of the address.
    pub fn to_text(&self) -> (r: String)
        ensures
            r@ == addr_text(*self),
    {
        let mut s = String::new();
        self.push_text(&mut s);
        assert(s@ =~= addr_text(*self));
        s
    }
}

} // verus!
