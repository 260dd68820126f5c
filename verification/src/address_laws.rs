//! What the socket-address grammar means for the texts the gateway builds:
//! in `host:port`, an IPv4 literal host, or a bracketed IPv6 literal (in
//! full or with its zero run written `::`), is read back as exactly that
//! address with that port; any address read from `host:port` carries `port`,
//! and an IPv4 address is read only from a host that is its dotted text.

use vstd::prelude::*;

use crate::address::{
    colon_hex, ipv6_compressed_text, zeros, decimal_digit, decimal_text, hex_digit, hex_text, ipv6_text, read_groups, read_hex_group,
    read_ipv6, read_scope, digit_value, digits_value, dotted, has_char, host_port_text, ipv4_text,
    is_digit, read_ipv4, read_number, read_octet, read_octets, read_port, read_socket_v4,
    read_socket_v6, run_len, socket_addr_of, SocketAddrView,
};

verus! {

proof fn lemma_digit_char(c: char)
    requires
        is_digit(c, false),
    ensures
        decimal_digit(digit_value(c)) == c,
        digit_value(c) < 10,
{
}

proof fn lemma_decimal_digit(d: nat)
    requires
        d < 10,
    ensures
        is_digit(decimal_digit(d), false),
        is_digit(decimal_digit(d), true),
        digit_value(decimal_digit(d)) == d,
        (decimal_digit(d) == '0') == (d == 0),
{
}

/// `digits_value` reads only the characters in its range.
proof fn lemma_digits_value_ext(s1: Seq<char>, a1: int, s2: Seq<char>, a2: int, len: int, hex: bool)
    requires
        0 <= len,
        0 <= a1,
        a1 + len <= s1.len(),
        0 <= a2,
        a2 + len <= s2.len(),
        s1.subrange(a1, a1 + len) == s2.subrange(a2, a2 + len),
    ensures
        digits_value(s1, a1, a1 + len, hex) == digits_value(s2, a2, a2 + len, hex),
    decreases len,
{
    if len > 0 {
        assert(s1.subrange(a1, a1 + len - 1) =~= s1.subrange(a1, a1 + len).subrange(0, len - 1));
        assert(s2.subrange(a2, a2 + len - 1) =~= s2.subrange(a2, a2 + len).subrange(0, len - 1));
        lemma_digits_value_ext(s1, a1, s2, a2, len - 1, hex);
        assert(s1[a1 + len - 1] == s1.subrange(a1, a1 + len)[len - 1]);
        assert(s2[a2 + len - 1] == s2.subrange(a2, a2 + len)[len - 1]);
    }
}

/// A run of exactly `k` digits at `a`.
proof fn lemma_run_len_exact(s: Seq<char>, a: int, k: int, hex: bool)
    requires
        0 <= a,
        0 <= k,
        a + k <= s.len(),
        forall|i: int| a <= i < a + k ==> is_digit(s[i], hex),
        a + k == s.len() || !is_digit(s[a + k], hex),
    ensures
        run_len(s, a, hex) == k,
    decreases k,
{
    if k > 0 {
        lemma_run_len_exact(s, a + 1, k - 1, hex);
    }
}

/// What the digit run at `a` is made of.
proof fn lemma_run_len_facts(s: Seq<char>, a: int, hex: bool)
    requires
        0 <= a <= s.len(),
    ensures
        a + run_len(s, a, hex) <= s.len(),
        forall|i: int| a <= i < a + run_len(s, a, hex) ==> is_digit(s[i], hex),
        a + run_len(s, a, hex) == s.len() || !is_digit(s[a + run_len(s, a, hex)], hex),
    decreases s.len() - a,
{
    if a < s.len() && is_digit(s[a], hex) {
        lemma_run_len_facts(s, a + 1, hex);
    }
}

/// Facts about the decimal numeral of `n`.
proof fn lemma_decimal_text(n: nat)
    ensures
        decimal_text(n).len() >= 1,
        forall|i: int| 0 <= i < decimal_text(n).len() ==> is_digit(#[trigger] decimal_text(n)[i], false),
        forall|i: int| 0 <= i < decimal_text(n).len() ==> is_digit(#[trigger] decimal_text(n)[i], true),
        digits_value(decimal_text(n), 0, decimal_text(n).len() as int, false) == n,
        (decimal_text(n)[0] == '0') == (n == 0),
        n < 10 ==> decimal_text(n).len() == 1,
        n < 100 ==> decimal_text(n).len() <= 2,
        n < 1000 ==> decimal_text(n).len() <= 3,
    decreases n,
{
    lemma_decimal_digit(n % 10);
    if n >= 10 {
        let t = decimal_text(n / 10);
        lemma_decimal_text(n / 10);
        let u = decimal_text(n);
        assert(u == t.push(decimal_digit(n % 10)));
        assert(u.subrange(0, t.len() as int) =~= t.subrange(0, t.len() as int));
        lemma_digits_value_ext(u, 0, t, 0, t.len() as int, false);
        assert(digits_value(u, 0, u.len() as int, false) == digits_value(u, 0, t.len() as int, false)
            * 10 + digit_value(u[t.len() as int]));
        assert(u[0] == t[0]);
        assert forall|i: int| 0 <= i < u.len() implies is_digit(#[trigger] u[i], false) && is_digit(u[i], true) by {
            if i < t.len() {
                assert(u[i] == t[i]);
            }
        }
    } else {
        assert(decimal_text(n) == seq![decimal_digit(n)]);
        assert(digits_value(decimal_text(n), 0, 0, false) == 0);
    }
}

/// The value of a non-empty digit run is at least its first digit.
proof fn lemma_value_at_least_first(s: Seq<char>, a: int, b: int, hex: bool)
    requires
        a < b,
    ensures
        digits_value(s, a, b, hex) >= digit_value(s[a]),
    decreases b - a,
{
    if b - 1 > a {
        lemma_value_at_least_first(s, a, b - 1, hex);
    }
}

/// Decimal digits without a leading zero are the numeral of their value.
proof fn lemma_canonical_decimal(s: Seq<char>, a: int, n: int)
    requires
        0 <= a,
        1 <= n,
        a + n <= s.len(),
        forall|i: int| a <= i < a + n ==> is_digit(s[i], false),
        n == 1 || s[a] != '0',
    ensures
        s.subrange(a, a + n) == decimal_text(digits_value(s, a, a + n, false)),
    decreases n,
{
    let v = digits_value(s, a, a + n, false);
    lemma_digit_char(s[a + n - 1]);
    if n == 1 {
        assert(digits_value(s, a, a, false) == 0);
        assert(v == digit_value(s[a]));
        assert(s.subrange(a, a + n) =~= seq![s[a]]);
    } else {
        let w = digits_value(s, a, a + n - 1, false);
        lemma_canonical_decimal(s, a, n - 1);
        lemma_value_at_least_first(s, a, a + n - 1, false);
        lemma_digit_char(s[a]);
        assert(w >= 1);
        assert(v == w * 10 + digit_value(s[a + n - 1]));
        assert(v / 10 == w && v % 10 == digit_value(s[a + n - 1]));
        assert(decimal_text(v) == decimal_text(w).push(decimal_digit(digit_value(s[a + n - 1]))));
        assert(s.subrange(a, a + n) =~= s.subrange(a, a + n - 1).push(s[a + n - 1]));
    }
}

/// Reading the numeral of `v` (followed by a non-digit, or the end) gives `v`.
proof fn lemma_read_numeral(
    s: Seq<char>,
    a: int,
    v: nat,
    max_digits: Option<nat>,
    allow_zero_prefix: bool,
    bound: nat,
)
    requires
        0 <= a,
        a + decimal_text(v).len() <= s.len(),
        s.subrange(a, a + decimal_text(v).len()) == decimal_text(v),
        a + decimal_text(v).len() == s.len() || !is_digit(s[a + decimal_text(v).len()], false),
        v <= bound,
        max_digits matches Some(m) ==> decimal_text(v).len() <= m,
    ensures
        read_number(s, a, false, max_digits, allow_zero_prefix, bound) == Some(
            (v, a + decimal_text(v).len()),
        ),
{
    let t = decimal_text(v);
    let k = t.len() as int;
    lemma_decimal_text(v);
    assert forall|i: int| a <= i < a + k implies is_digit(s[i], false) by {
        assert(s[i] == s.subrange(a, a + k)[i - a]);
        assert(is_digit(t[i - a], false));
    }
    lemma_run_len_exact(s, a, k, false);
    assert(t.subrange(0, k) =~= t);
    lemma_digits_value_ext(s, a, t, 0, k, false);
    assert(s[a] == t[0]);
}

/// A number read without leading zeros is written as its numeral.
proof fn lemma_read_is_numeral(
    s: Seq<char>,
    a: int,
    max_digits: Option<nat>,
    bound: nat,
)
    requires
        0 <= a <= s.len(),
        read_number(s, a, false, max_digits, false, bound) is Some,
    ensures
        ({
            let (v, q) = read_number(s, a, false, max_digits, false, bound)->0;
            &&& a < q <= s.len()
            &&& s.subrange(a, q) == decimal_text(v)
            &&& (q == s.len() || !is_digit(s[q], false))
        }),
{
    lemma_run_len_facts(s, a, false);
    let n = run_len(s, a, false) as int;
    lemma_canonical_decimal(s, a, n);
}

/// Reading the dotted text of octets `i..4` gives those octets back.
proof fn lemma_read_octets_of_text(s: Seq<char>, pos: int, i: nat, r: Seq<u8>)
    requires
        i <= 4,
        r.len() == 4 - i,
        0 <= pos,
        pos + dotted(r, i > 0).len() <= s.len(),
        s.subrange(pos, pos + dotted(r, i > 0).len()) == dotted(r, i > 0),
        pos + dotted(r, i > 0).len() == s.len() || !is_digit(s[pos + dotted(r, i > 0).len()], false),
    ensures
        read_octets(s, pos, i) == Some((r, pos + dotted(r, i > 0).len())),
    decreases 4 - i,
{
    let d = dotted(r, i > 0);
    let e = pos + d.len();
    if i < 4 {
        let lead: Seq<char> = if i > 0 {
            seq!['.']
        } else {
            Seq::empty()
        };
        let t = decimal_text(r[0] as nat);
        let rest = dotted(r.drop_first(), true);
        assert(d == lead + t + rest);
        let start = pos + lead.len();
        if i > 0 {
            assert(s[pos] == s.subrange(pos, e)[0]);
            assert(has_char(s, pos, '.'));
        }
        lemma_decimal_text(r[0] as nat);
        let after = start + t.len();
        assert(d.subrange(lead.len() as int, (lead.len() + t.len()) as int) =~= t);
        assert(d.subrange((lead.len() + t.len()) as int, d.len() as int) =~= rest);
        assert(s.subrange(start, after) =~= s.subrange(pos, e).subrange(lead.len() as int, (lead.len() + t.len()) as int));
        assert(s.subrange(after, e) =~= s.subrange(pos, e).subrange((lead.len() + t.len()) as int, d.len() as int));
        if r.len() > 1 {
            assert(rest[0] == '.');
            assert(s[after] == s.subrange(after, e)[0]);
        } else {
            assert(r.drop_first().len() == 0);
            assert(rest.len() == 0);
        }
        lemma_read_numeral(s, start, r[0] as nat, Some(3nat), false, 255);
        assert(read_octet(s, start) == Some((r[0] as nat, after)));
        lemma_read_octets_of_text(s, after, i + 1, r.drop_first());
        assert(seq![(r[0] as nat) as u8] + r.drop_first() =~= r);
    } else {
        assert(r =~= Seq::<u8>::empty());
    }
}

/// What `read_octets` reads is the dotted text of the octets it returns.
proof fn lemma_read_octets_text(s: Seq<char>, pos: int, i: nat)
    requires
        i <= 4,
        0 <= pos <= s.len(),
        read_octets(s, pos, i) is Some,
    ensures
        ({
            let (r, q) = read_octets(s, pos, i)->0;
            &&& r.len() == 4 - i
            &&& pos <= q <= s.len()
            &&& s.subrange(pos, q) == dotted(r, i > 0)
            &&& (i < 4 ==> (q == s.len() || !is_digit(s[q], false)))
        }),
    decreases 4 - i,
{
    if i < 4 {
        let start = if i == 0 {
            pos
        } else {
            pos + 1
        };
        let (v, p) = read_octet(s, start)->0;
        lemma_read_is_numeral(s, start, Some(3nat), 255);
        lemma_read_octets_text(s, p, i + 1);
        let (rest, q) = read_octets(s, p, i + 1)->0;
        let r = seq![v as u8] + rest;
        assert(r.drop_first() =~= rest);
        assert(r[0] as nat == v);
        let lead: Seq<char> = if i > 0 {
            seq!['.']
        } else {
            Seq::empty()
        };
        assert(dotted(r, i > 0) == lead + decimal_text(v) + dotted(rest, true));
        if i > 0 {
            assert(s.subrange(pos, start) =~= seq!['.']);
        }
        assert(s.subrange(pos, q) =~= s.subrange(pos, start) + s.subrange(start, p) + s.subrange(p, q));
        if i + 1 == 4 {
            assert(q == p);
        }
    }
}

/// In `host:port`, a `:` followed by digits up to the end can only be the
/// separator after `host`, and the digits are the port.
proof fn lemma_port_suffix(host: Seq<char>, port: u16, c: int)
    requires
        0 <= c,
        has_char(host_port_text(host, port), c, ':'),
        read_number(host_port_text(host, port), c + 1, false, None, true, 0xffff) matches Some(
            (p, q),
        ) && q == host_port_text(host, port).len(),
    ensures
        c == host.len(),
        read_number(host_port_text(host, port), c + 1, false, None, true, 0xffff) == Some(
            (port as nat, host_port_text(host, port).len() as int),
        ),
{
    let s = host_port_text(host, port);
    let t = decimal_text(port as nat);
    let h = host.len() as int;
    lemma_decimal_text(port as nat);
    lemma_run_len_facts(s, c + 1, false);
    assert(s[h] == ':');
    assert forall|i: int| h < i < s.len() implies is_digit(s[i], false) by {
        assert(s[i] == t[i - h - 1]);
    }
    if c < h {
        assert(is_digit(s[h], false));
    }
    if c > h {
        assert(is_digit(s[c], false));
    }
    assert(c == h);
    assert(s.subrange(h + 1, s.len() as int) =~= t.subrange(0, t.len() as int));
    lemma_digits_value_ext(s, h + 1, t, 0, t.len() as int, false);
    assert(t.subrange(0, t.len() as int) =~= t);
}

/// An IPv4 literal host is read back from `host:port` as exactly that
/// address, with exactly that port.
pub proof fn law_ipv4_host_reads_back(octets: Seq<u8>, port: u16)
    requires
        octets.len() == 4,
    ensures
        socket_addr_of(host_port_text(ipv4_text(octets), port)) == Some(
            SocketAddrView::V4 { octets, port },
        ),
{
    let ip = ipv4_text(octets);
    let s = host_port_text(ip, port);
    let t = decimal_text(port as nat);
    let h = ip.len() as int;
    assert(s.subrange(0, h) =~= ip);
    assert(s[h] == ':');
    lemma_read_octets_of_text(s, 0, 0, octets);
    assert(read_ipv4(s, 0) == Some((octets, h)));
    assert(s.subrange(h + 1, s.len() as int) =~= t);
    lemma_decimal_text(port as nat);
    lemma_read_numeral(s, h + 1, port as nat, None, true, 0xffff);
    assert(read_port(s, h) == Some((port as nat, s.len() as int)));
    assert(read_socket_v4(s) == Some((SocketAddrView::V4 { octets, port }, s.len() as int)));
}

/// Whatever address is read from `host:port` carries `port`; an IPv4
/// address is read only from a host that is exactly its dotted text, and an
/// IPv6 address only from a host in square brackets.
pub proof fn law_address_comes_from_host_and_port(host: Seq<char>, port: u16)
    ensures
        match socket_addr_of(host_port_text(host, port)) {
            Some(SocketAddrView::V4 { octets, port: p }) => octets.len() == 4 && host == ipv4_text(
                octets,
            ) && p == port,
            Some(SocketAddrView::V6 { port: p, .. }) => p == port && host.len() >= 2 && host[0]
                == '[' && host.last() == ']',
            None => true,
        },
{
    let s = host_port_text(host, port);
    let h = host.len() as int;
    if let Some(a) = socket_addr_of(s) {
        if read_socket_v4(s) is Some {
            let (o, e) = read_ipv4(s, 0)->0;
            lemma_read_octets_text(s, 0, 0);
            let (p, q) = read_port(s, e)->0;
            lemma_port_suffix(host, port, e);
            assert(host =~= s.subrange(0, h));
        } else {
            let (segs, p) = crate::address::read_ipv6(s, 1)->0;
            let (scope, q) = crate::address::read_scope(s, p);
            lemma_port_suffix(host, port, q + 1);
            assert(s[0] == host[0]);
            assert(s[q] == host[h - 1]);
        }
    }
}

proof fn lemma_hex_digit(d: nat)
    requires
        d < 16,
    ensures
        is_digit(hex_digit(d), true),
        digit_value(hex_digit(d)) == d,
{
}

/// Facts about the hexadecimal numeral of `n`.
proof fn lemma_hex_text(n: nat)
    ensures
        hex_text(n).len() >= 1,
        forall|i: int| 0 <= i < hex_text(n).len() ==> is_digit(#[trigger] hex_text(n)[i], true),
        digits_value(hex_text(n), 0, hex_text(n).len() as int, true) == n,
        n < 16 ==> hex_text(n).len() == 1,
        n < 256 ==> hex_text(n).len() <= 2,
        n < 4096 ==> hex_text(n).len() <= 3,
        n < 65536 ==> hex_text(n).len() <= 4,
    decreases n,
{
    lemma_hex_digit(n % 16);
    if n >= 16 {
        let t = hex_text(n / 16);
        lemma_hex_text(n / 16);
        let u = hex_text(n);
        assert(u == t.push(hex_digit(n % 16)));
        assert(u.subrange(0, t.len() as int) =~= t.subrange(0, t.len() as int));
        lemma_digits_value_ext(u, 0, t, 0, t.len() as int, true);
        assert(digits_value(u, 0, u.len() as int, true) == digits_value(u, 0, t.len() as int, true)
            * 16 + digit_value(u[t.len() as int]));
        assert forall|i: int| 0 <= i < u.len() implies is_digit(#[trigger] u[i], true) by {
            if i < t.len() {
                assert(u[i] == t[i]);
            }
        }
    } else {
        assert(hex_text(n) == seq![hex_digit(n)]);
        assert(digits_value(hex_text(n), 0, 0, true) == 0);
    }
}

/// Reading the hexadecimal numeral of a 16-bit `v` as a group gives `v`.
proof fn lemma_read_hex_numeral(s: Seq<char>, a: int, v: nat)
    requires
        0 <= a,
        v < 65536,
        a + hex_text(v).len() <= s.len(),
        s.subrange(a, a + hex_text(v).len()) == hex_text(v),
        a + hex_text(v).len() == s.len() || !is_digit(s[a + hex_text(v).len()], true),
    ensures
        read_hex_group(s, a) == Some((v, a + hex_text(v).len())),
{
    let t = hex_text(v);
    let k = t.len() as int;
    lemma_hex_text(v);
    assert forall|i: int| a <= i < a + k implies is_digit(s[i], true) by {
        assert(s[i] == s.subrange(a, a + k)[i - a]);
        assert(is_digit(t[i - a], true));
    }
    lemma_run_len_exact(s, a, k, true);
    assert(t.subrange(0, k) =~= t);
    lemma_digits_value_ext(s, a, t, 0, k, true);
}

/// A group of hexadecimal digits followed by `:` or `]` is no IPv4 address.
proof fn lemma_group_is_not_ipv4(s: Seq<char>, a: int, len: int)
    requires
        0 <= a,
        0 <= len,
        a + len < s.len(),
        forall|i: int| a <= i < a + len ==> is_digit(s[i], true),
        s[a + len] == ':' || s[a + len] == ']',
    ensures
        read_ipv4(s, a) is None,
{
    if read_octet(s, a) is Some {
        lemma_run_len_facts(s, a, false);
        let p = a + run_len(s, a, false);
        if p > a + len {
            assert(is_digit(s[a + len], false));
        }
        if p < a + len {
            assert(is_digit(s[p], true));
        }
        assert(!has_char(s, p, '.'));
        assert(read_octets(s, p, 1) is None);
    }
}

/// Whether the groups read so far stop at `e`: a `]` closes the address, or
/// the `::` of a gap follows.
pub open spec fn groups_stop_at(s: Seq<char>, e: int) -> bool {
    0 <= e < s.len() && (s[e] == ']' || (s[e] == ':' && e + 1 < s.len() && s[e + 1] == ':'))
}

/// Reading the colon-separated text of groups `r` from slot `i` gives those
/// groups back, when the text is followed by `]` or by `::`.
#[verifier::rlimit(50)]
proof fn lemma_read_groups_of_text(s: Seq<char>, pos: int, i: nat, limit: nat, r: Seq<u16>)
    requires
        limit <= 8,
        i + r.len() <= limit,
        0 <= pos,
        pos + colon_hex(r, i > 0).len() <= s.len(),
        s.subrange(pos, pos + colon_hex(r, i > 0).len()) == colon_hex(r, i > 0),
        groups_stop_at(s, pos + colon_hex(r, i > 0).len()),
    ensures
        read_groups(s, pos, i, limit) == (r, pos + colon_hex(r, i > 0).len(), false),
    decreases limit - i,
{
    let d = colon_hex(r, i > 0);
    let e = pos + d.len();
    if r.len() == 0 {
        assert(d.len() == 0);
        if i < limit {
            let start = if i == 0 {
                pos
            } else {
                pos + 1
            };
            if i > 0 && has_char(s, pos, ':') {
                assert(s[start] == ':');
            } else if i == 0 {
                assert(s[start] == ']' || s[start] == ':');
            }
            if !(i > 0 && !has_char(s, pos, ':')) {
                assert(run_len(s, start, false) == 0);
                assert(run_len(s, start, true) == 0);
                assert(read_octets(s, start, 0) is None);
                assert(read_hex_group(s, start) is None);
            }
        }
    } else {
        let lead: Seq<char> = if i > 0 {
            seq![':']
        } else {
            Seq::empty()
        };
        let t = hex_text(r[0] as nat);
        let rest = colon_hex(r.drop_first(), true);
        assert(d == lead + t + rest);
        let start = pos + lead.len();
        if i > 0 {
            assert(s[pos] == s.subrange(pos, e)[0]);
            assert(has_char(s, pos, ':'));
        }
        lemma_hex_text(r[0] as nat);
        let after = start + t.len();
        assert(d.subrange(lead.len() as int, (lead.len() + t.len()) as int) =~= t);
        assert(d.subrange((lead.len() + t.len()) as int, d.len() as int) =~= rest);
        assert(s.subrange(start, after) =~= s.subrange(pos, e).subrange(
            lead.len() as int,
            (lead.len() + t.len()) as int,
        ));
        assert(s.subrange(after, e) =~= s.subrange(pos, e).subrange(
            (lead.len() + t.len()) as int,
            d.len() as int,
        ));
        if r.len() > 1 {
            assert(rest[0] == ':');
            assert(s[after] == s.subrange(after, e)[0]);
        } else {
            assert(rest.len() == 0);
        }
        assert forall|k: int| start <= k < after implies is_digit(s[k], true) by {
            assert(s[k] == s.subrange(start, after)[k - start]);
        }
        if i + 1 < limit {
            lemma_group_is_not_ipv4(s, start, t.len() as int);
        }
        lemma_read_hex_numeral(s, start, r[0] as nat);
        lemma_read_groups_of_text(s, after, i + 1, limit, r.drop_first());
        assert(seq![(r[0] as nat) as u16] + r.drop_first() =~= r);
    }
}

/// A bracketed IPv6 literal host, written out in full, is read back from
/// `[host]:port` as exactly that address, with no scope and exactly that port.
pub proof fn law_ipv6_host_reads_back(segments: Seq<u16>, port: u16)
    requires
        segments.len() == 8,
    ensures
        socket_addr_of(host_port_text(seq!['['] + ipv6_text(segments) + seq![']'], port)) == Some(
            SocketAddrView::V6 { segments, scope_id: 0, port },
        ),
{
    let x = ipv6_text(segments);
    let host = seq!['['] + x + seq![']'];
    let s = host_port_text(host, port);
    let e: int = 1 + x.len() as int;
    let t = decimal_text(port as nat);
    assert(s.subrange(1, e) =~= x);
    assert(s[e] == ']');
    assert(s[0] == '[');
    assert(run_len(s, 0, false) == 0);
    assert(read_ipv4(s, 0) is None);
    assert(read_socket_v4(s) is None);
    lemma_read_groups_of_text(s, 1, 0, 8, segments);
    assert(read_ipv6(s, 1) == Some((segments, e)));
    assert(read_scope(s, e) == (0nat, e));
    assert(s[e + 1] == ':');
    assert(s.subrange(e + 2, s.len() as int) =~= t);
    lemma_decimal_text(port as nat);
    lemma_read_numeral(s, e + 2, port as nat, None, true, 0xffff);
    assert(read_port(s, e + 1) == Some((port as nat, s.len() as int)));
}

/// The loopback address `127.0.0.1` written out.
pub proof fn lemma_loopback_text()
    ensures
        "127.0.0.1"@ == ipv4_text(seq![127u8, 0u8, 0u8, 1u8]),
{
    reveal_strlit("127.0.0.1");
    let o = seq![127u8, 0u8, 0u8, 1u8];
    assert(decimal_text(127) =~= seq!['1', '2', '7']) by {
        assert(decimal_text(12) =~= seq!['1', '2']) by {
            assert(decimal_text(1) =~= seq!['1']);
        }
    }
    assert(decimal_text(0) =~= seq!['0']);
    assert(decimal_text(1) =~= seq!['1']);
    let o1 = o.drop_first();
    let o2 = o1.drop_first();
    let o3 = o2.drop_first();
    let o4 = o3.drop_first();
    assert(o4 =~= Seq::<u8>::empty());
    assert(dotted(o4, true) =~= Seq::<char>::empty());
    assert(dotted(o3, true) =~= seq!['.', '1']);
    assert(dotted(o2, true) =~= seq!['.', '0', '.', '1']);
    assert(dotted(o1, true) =~= seq!['.', '0', '.', '0', '.', '1']);
    assert(dotted(o, false) =~= seq!['1', '2', '7', '.', '0', '.', '0', '.', '1']);
    assert(ipv4_text(o) =~= "127.0.0.1"@);
}

/// A bracketed IPv6 literal host with its zero run written as `::` is read
/// back from `[host]:port` as the groups before the gap, the zero groups it
/// stands for, and the groups after it, with no scope and exactly that port.
pub proof fn law_ipv6_compressed_host_reads_back(head: Seq<u16>, tail: Seq<u16>, port: u16)
    requires
        head.len() + tail.len() <= 7,
    ensures
        socket_addr_of(
            host_port_text(seq!['['] + ipv6_compressed_text(head, tail) + seq![']'], port),
        ) == Some(
            SocketAddrView::V6 {
                segments: head + zeros((8 - head.len() - tail.len()) as nat) + tail,
                scope_id: 0,
                port,
            },
        ),
{
    let hx = colon_hex(head, false);
    let tx = colon_hex(tail, false);
    let x = ipv6_compressed_text(head, tail);
    let host = seq!['['] + x + seq![']'];
    let s = host_port_text(host, port);
    let e1: int = 1 + hx.len() as int;
    let e2: int = e1 + 2 + tx.len() as int;
    let t = decimal_text(port as nat);
    assert(s.subrange(1, e1) =~= hx);
    assert(s[e1] == ':' && s[e1 + 1] == ':');
    assert(s.subrange(e1 + 2, e2) =~= tx);
    assert(s[e2] == ']');
    assert(s[0] == '[');
    assert(run_len(s, 0, false) == 0);
    assert(read_ipv4(s, 0) is None);
    assert(read_socket_v4(s) is None);
    lemma_read_groups_of_text(s, 1, 0, 8, head);
    lemma_read_groups_of_text(s, e1 + 2, 0, (7 - head.len()) as nat, tail);
    assert(read_ipv6(s, 1) == Some((head + zeros((8 - head.len() - tail.len()) as nat) + tail, e2)));
    assert(read_scope(s, e2) == (0nat, e2));
    assert(s[e2 + 1] == ':');
    assert(s.subrange(e2 + 2, s.len() as int) =~= t);
    lemma_decimal_text(port as nat);
    lemma_read_numeral(s, e2 + 2, port as nat, None, true, 0xffff);
    assert(read_port(s, e2 + 1) == Some((port as nat, s.len() as int)));
}

/// Reading `g:a.b.c.d` followed by `]` as the groups after a gap gives `g`
/// and the two groups of the embedded IPv4 address.
proof fn lemma_read_embedded_tail(s: Seq<char>, start: int, g: u16, octets: Seq<u8>)
    requires
        octets.len() == 4,
        0 <= start,
        start + hex_text(g as nat).len() + 1 + ipv4_text(octets).len() < s.len(),
        s.subrange(start, start + hex_text(g as nat).len()) == hex_text(g as nat),
        s[start + hex_text(g as nat).len()] == ':',
        s.subrange(
            start + hex_text(g as nat).len() + 1,
            start + hex_text(g as nat).len() + 1 + ipv4_text(octets).len(),
        ) == ipv4_text(octets),
        s[start + hex_text(g as nat).len() + 1 + ipv4_text(octets).len()] == ']',
    ensures
        read_groups(s, start, 0, 7) == (
            seq![g] + crate::address::ipv4_groups(octets),
            start + hex_text(g as nat).len() + 1 + ipv4_text(octets).len(),
            true,
        ),
{
    let hx = hex_text(g as nat);
    let l = hx.len() as int;
    let e = start + l + 1 + ipv4_text(octets).len();
    lemma_hex_text(g as nat);
    assert forall|k: int| start <= k < start + l implies is_digit(s[k], true) by {
        assert(s[k] == s.subrange(start, start + l)[k - start]);
    }
    lemma_group_is_not_ipv4(s, start, l);
    lemma_read_hex_numeral(s, start, g as nat);
    lemma_read_octets_of_text(s, start + l + 1, 0, octets);
    assert(read_ipv4(s, start + l + 1) == Some((octets, e)));
    assert(read_groups(s, start + l, 1, 7) == (crate::address::ipv4_groups(octets), e, true));
    assert(seq![(g as nat) as u16] + crate::address::ipv4_groups(octets) =~= seq![g]
        + crate::address::ipv4_groups(octets));
}

/// An IPv6 literal `[::g:a.b.c.d]`, its last two groups written as an
/// embedded IPv4 address, reads back with the groups `0, 0, 0, 0, 0, g`,
/// then `a * 256 + b` and `c * 256 + d` (the octets paired big-endian), with
/// no scope and exactly the given port.
#[verifier::rlimit(50)]
pub proof fn law_embedded_ipv4_reads_back(g: u16, octets: Seq<u8>, port: u16)
    requires
        octets.len() == 4,
    ensures
        socket_addr_of(
            host_port_text(
                seq!['[', ':', ':'] + hex_text(g as nat) + seq![':'] + ipv4_text(octets) + seq![']'],
                port,
            ),
        ) == Some(
            SocketAddrView::V6 {
                segments: seq![
                    0u16,
                    0u16,
                    0u16,
                    0u16,
                    0u16,
                    g,
                    (octets[0] as int * 256 + octets[1] as int) as u16,
                    (octets[2] as int * 256 + octets[3] as int) as u16,
                ],
                scope_id: 0,
                port,
            },
        ),
{
    let hx = hex_text(g as nat);
    let ip = ipv4_text(octets);
    let host = seq!['[', ':', ':'] + hx + seq![':'] + ip + seq![']'];
    let s = host_port_text(host, port);
    let l = hx.len() as int;
    let e: int = 4 + l + ip.len() as int;
    let t = decimal_text(port as nat);
    assert(s[0] == '[' && s[1] == ':' && s[2] == ':');
    assert(s.subrange(3, 3 + l) =~= hx);
    assert(s[3 + l] == ':');
    assert(s.subrange(4 + l, e) =~= ip);
    assert(s[e] == ']');
    assert(run_len(s, 0, false) == 0);
    assert(read_ipv4(s, 0) is None);
    assert(read_socket_v4(s) is None);
    // the head before `::` is empty
    assert(colon_hex(Seq::<u16>::empty(), false) =~= Seq::<char>::empty());
    assert(s.subrange(1, 1) =~= Seq::<char>::empty());
    lemma_read_groups_of_text(s, 1, 0, 8, Seq::<u16>::empty());
    let head = read_groups(s, 1, 0, 8);
    lemma_read_embedded_tail(s, 3, g, octets);
    let tail = read_groups(s, 3, 0, 7);
    let segs = head.0 + zeros((8 - head.0.len() - tail.0.len()) as nat) + tail.0;
    assert(segs =~= seq![
        0u16,
        0u16,
        0u16,
        0u16,
        0u16,
        g,
        (octets[0] as int * 256 + octets[1] as int) as u16,
        (octets[2] as int * 256 + octets[3] as int) as u16,
    ]);
    assert(read_ipv6(s, 1) == Some((segs, e)));
    assert(read_scope(s, e) == (0nat, e));
    assert(s[e + 1] == ':');
    assert(s.subrange(e + 2, s.len() as int) =~= t);
    lemma_decimal_text(port as nat);
    lemma_read_numeral(s, e + 2, port as nat, None, true, 0xffff);
    assert(read_port(s, e + 1) == Some((port as nat, s.len() as int)));
}

/// `ffff` is the hexadecimal text of 65535.
proof fn lemma_ffff_text()
    ensures
        hex_text(0xffff) == seq!['f', 'f', 'f', 'f'],
{
    assert(hex_text(15) =~= seq!['f']);
    assert(hex_text(255) =~= seq!['f', 'f']);
    assert(hex_text(4095) =~= seq!['f', 'f', 'f']);
    assert(hex_text(0xffff) =~= seq!['f', 'f', 'f', 'f']);
}

/// An IPv4-mapped IPv6 literal `[::ffff:a.b.c.d]` reads back as the groups
/// `0, 0, 0, 0, 0, 0xffff, a * 256 + b, c * 256 + d`, with exactly the given port.
pub proof fn law_ipv4_mapped_reads_back(octets: Seq<u8>, port: u16)
    requires
        octets.len() == 4,
    ensures
        socket_addr_of(
            host_port_text(
                seq!['[', ':', ':', 'f', 'f', 'f', 'f', ':'] + ipv4_text(octets) + seq![']'],
                port,
            ),
        ) == Some(
            SocketAddrView::V6 {
                segments: seq![
                    0u16,
                    0u16,
                    0u16,
                    0u16,
                    0u16,
                    0xffffu16,
                    (octets[0] as int * 256 + octets[1] as int) as u16,
                    (octets[2] as int * 256 + octets[3] as int) as u16,
                ],
                scope_id: 0,
                port,
            },
        ),
{
    lemma_ffff_text();
    law_embedded_ipv4_reads_back(0xffff, octets, port);
    assert(seq!['[', ':', ':'] + hex_text(0xffff) + seq![':'] + ipv4_text(octets) + seq![']'] =~= seq![
        '[',
        ':',
        ':',
        'f',
        'f',
        'f',
        'f',
        ':',
    ] + ipv4_text(octets) + seq![']']);
}

} // verus!
