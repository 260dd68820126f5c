//! Socket addresses written as text: `a.b.c.d:port` and `[ipv6%scope]:port`.
//!
//! The accepted grammar is that of the standard library's `SocketAddr`
//! parser: decimal IPv4 octets without leading zeros, IPv6 groups of one to
//! four hexadecimal digits with at most one `::` and an optional trailing
//! embedded IPv4 address, an optional decimal scope id, and a decimal port.
//! The spec functions below state that grammar over character sequences;
//! the executable parser is proved to agree with them on every input.

use vstd::prelude::*;

verus! {

// ---------------------------------------------------------------------------
// Digits
// ---------------------------------------------------------------------------

/// Whether `c` is a digit of base 16 (`hex`) or base 10.
pub open spec fn is_digit(c: char, hex: bool) -> bool {
    ('0' <= c && c <= '9') || (hex && (('a' <= c && c <= 'f') || ('A' <= c && c <= 'F')))
}

/// The value of a digit character.
pub open spec fn digit_value(c: char) -> nat {
    if '0' <= c && c <= '9' {
        (c as int - '0' as int) as nat
    } else if 'a' <= c && c <= 'f' {
        (c as int - 'a' as int + 10) as nat
    } else {
        (c as int - 'A' as int + 10) as nat
    }
}

pub open spec fn radix(hex: bool) -> nat {
    if hex {
        16
    } else {
        10
    }
}

/// Number of consecutive digits in `s` starting at `pos`.
pub open spec fn run_len(s: Seq<char>, pos: int, hex: bool) -> nat
    decreases s.len() - pos,
{
    if 0 <= pos < s.len() && is_digit(s[pos], hex) {
        1 + run_len(s, pos + 1, hex)
    } else {
        0
    }
}

/// The number written by the digits `s[start..end]`, most significant first.
pub open spec fn digits_value(s: Seq<char>, start: int, end: int, hex: bool) -> nat
    decreases end - start,
{
    if end <= start {
        0
    } else {
        digits_value(s, start, end - 1, hex) * radix(hex) + digit_value(s[end - 1])
    }
}

/// Reading a number at `pos`: the longest run of digits, rejected when it is
/// empty, longer than `max_digits`, has a leading zero where that is not
/// allowed, or exceeds `bound`. Gives the value and the position after it.
pub open spec fn read_number(
    s: Seq<char>,
    pos: int,
    hex: bool,
    max_digits: Option<nat>,
    allow_zero_prefix: bool,
    bound: nat,
) -> Option<(nat, int)> {
    let n = run_len(s, pos, hex);
    if n == 0 {
        None
    } else if max_digits matches Some(m) && n > m {
        None
    } else if !allow_zero_prefix && s[pos] == '0' && n > 1 {
        None
    } else if digits_value(s, pos, pos + n, hex) > bound {
        None
    } else {
        Some((digits_value(s, pos, pos + n, hex), pos + n))
    }
}

/// Whether `s[pos]` is the character `c`.
pub open spec fn has_char(s: Seq<char>, pos: int, c: char) -> bool {
    0 <= pos < s.len() && s[pos] == c
}

// ---------------------------------------------------------------------------
// IPv4
// ---------------------------------------------------------------------------

/// One IPv4 octet: at most three decimal digits, no leading zero, at most 255.
pub open spec fn read_octet(s: Seq<char>, pos: int) -> Option<(nat, int)> {
    read_number(s, pos, false, Some(3), false, 255)
}

/// Octets `i..4` of an IPv4 address, the ones after the first preceded by `.`.
pub open spec fn read_octets(s: Seq<char>, pos: int, i: nat) -> Option<(Seq<u8>, int)>
    decreases 4 - i,
{
    if i >= 4 {
        Some((Seq::empty(), pos))
    } else {
        let start = if i == 0 {
            pos
        } else {
            pos + 1
        };
        if i > 0 && !has_char(s, pos, '.') {
            None
        } else {
            match read_octet(s, start) {
                None => None,
                Some((v, p)) => match read_octets(s, p, i + 1) {
                    None => None,
                    Some((rest, q)) => Some((seq![v as u8] + rest, q)),
                },
            }
        }
    }
}

/// An IPv4 address `a.b.c.d` at `pos`.
pub open spec fn read_ipv4(s: Seq<char>, pos: int) -> Option<(Seq<u8>, int)> {
    read_octets(s, pos, 0)
}

// ---------------------------------------------------------------------------
// IPv6
// ---------------------------------------------------------------------------

/// The two 16-bit groups that an embedded IPv4 address stands for.
pub open spec fn ipv4_groups(o: Seq<u8>) -> Seq<u16> {
    seq![(o[0] as int * 256 + o[1] as int) as u16, (o[2] as int * 256 + o[3] as int) as u16]
}

/// One IPv6 group: one to four hexadecimal digits.
pub open spec fn read_hex_group(s: Seq<char>, pos: int) -> Option<(nat, int)> {
    read_number(s, pos, true, Some(4), true, 0xffff)
}

/// Groups `i..limit` of an IPv6 address, each after the first preceded by
/// `:`. Where two slots remain free, an embedded IPv4 address is tried first;
/// it fills two slots and ends the list. Reading stops, without consuming a
/// separator, at the first slot that does not parse. Gives the groups read,
/// the position after them, and whether an IPv4 address ended them.
pub open spec fn read_groups(s: Seq<char>, pos: int, i: nat, limit: nat) -> (Seq<u16>, int, bool)
    decreases limit - i,
{
    if i >= limit {
        (Seq::empty(), pos, false)
    } else if i > 0 && !has_char(s, pos, ':') {
        (Seq::empty(), pos, false)
    } else {
        let start = if i == 0 {
            pos
        } else {
            pos + 1
        };
        if i + 1 < limit && read_ipv4(s, start) is Some {
            let (o, p) = read_ipv4(s, start)->0;
            (ipv4_groups(o), p, true)
        } else {
            match read_hex_group(s, start) {
                None => (Seq::empty(), pos, false),
                Some((g, p)) => {
                    let rest = read_groups(s, p, i + 1, limit);
                    (seq![g as u16] + rest.0, rest.1, rest.2)
                },
            }
        }
    }
}

/// `n` zero groups.
pub open spec fn zeros(n: nat) -> Seq<u16> {
    Seq::new(n, |i: int| 0u16)
}

/// An IPv6 address at `pos`: eight groups, or fewer groups, `::`, and the
/// groups after the gap, the gap standing for at least one zero group.
pub open spec fn read_ipv6(s: Seq<char>, pos: int) -> Option<(Seq<u16>, int)> {
    let head = read_groups(s, pos, 0, 8);
    if head.0.len() == 8 {
        Some((head.0, head.1))
    } else if head.2 {
        None
    } else if has_char(s, head.1, ':') && has_char(s, head.1 + 1, ':') {
        let limit = (7 - head.0.len()) as nat;
        let tail = read_groups(s, head.1 + 2, 0, limit);
        Some((head.0 + zeros((8 - head.0.len() - tail.0.len()) as nat) + tail.0, tail.1))
    } else {
        None
    }
}

// ---------------------------------------------------------------------------
// Socket addresses
// ---------------------------------------------------------------------------

/// A socket address as a value: IPv4 octets or IPv6 groups with a scope id,
/// and a port.
pub enum SocketAddrView {
    V4 { octets: Seq<u8>, port: u16 },
    V6 { segments: Seq<u16>, scope_id: u32, port: u16 },
}

impl SocketAddrView {
    /// Four octets for IPv4, eight groups for IPv6.
    pub open spec fn well_formed(self) -> bool {
        match self {
            SocketAddrView::V4 { octets, .. } => octets.len() == 4,
            SocketAddrView::V6 { segments, .. } => segments.len() == 8,
        }
    }
}

/// `:port` at `pos`: decimal digits, leading zeros allowed, at most 65535.
pub open spec fn read_port(s: Seq<char>, pos: int) -> Option<(nat, int)> {
    if has_char(s, pos, ':') {
        read_number(s, pos + 1, false, None, true, 0xffff)
    } else {
        None
    }
}

/// `a.b.c.d:port` at position 0.
pub open spec fn read_socket_v4(s: Seq<char>) -> Option<(SocketAddrView, int)> {
    match read_ipv4(s, 0) {
        None => None,
        Some((o, p)) => match read_port(s, p) {
            None => None,
            Some((port, q)) => Some((SocketAddrView::V4 { octets: o, port: port as u16 }, q)),
        },
    }
}

/// The optional `%scope` after an IPv6 address: its value and the position
/// after it, or 0 and `pos` where there is none.
pub open spec fn read_scope(s: Seq<char>, pos: int) -> (nat, int) {
    if has_char(s, pos, '%') && read_number(s, pos + 1, false, None, true, 0xffff_ffff) is Some {
        read_number(s, pos + 1, false, None, true, 0xffff_ffff)->0
    } else {
        (0, pos)
    }
}

/// `[ipv6%scope]:port` at position 0.
pub open spec fn read_socket_v6(s: Seq<char>) -> Option<(SocketAddrView, int)> {
    if !has_char(s, 0, '[') {
        None
    } else {
        match read_ipv6(s, 1) {
            None => None,
            Some((segs, p)) => {
                let (scope, q) = read_scope(s, p);
                if !has_char(s, q, ']') {
                    None
                } else {
                    match read_port(s, q + 1) {
                        None => None,
                        Some((port, r)) => Some(
                            (
                                SocketAddrView::V6 {
                                    segments: segs,
                                    scope_id: scope as u32,
                                    port: port as u16,
                                },
                                r,
                            ),
                        ),
                    }
                }
            },
        }
    }
}

/// The socket address that the whole of `s` spells: the IPv4 form is tried
/// first, then the IPv6 form, and the text must be used up entirely.
pub open spec fn socket_addr_of(s: Seq<char>) -> Option<SocketAddrView> {
    let r = match read_socket_v4(s) {
        Some(a) => Some(a),
        None => read_socket_v6(s),
    };
    match r {
        Some((a, p)) => if p == s.len() {
            Some(a)
        } else {
            None
        },
        None => None,
    }
}

// ---------------------------------------------------------------------------
// The executable parser
// ---------------------------------------------------------------------------

/// A socket address: IPv4 octets or IPv6 groups with a scope id, and a port.
#[derive(Debug, Clone)]
pub enum SocketAddress {
    V4 { octets: Vec<u8>, port: u16 },
    V6 { segments: Vec<u16>, scope_id: u32, port: u16 },
}

impl View for SocketAddress {
    type V = SocketAddrView;

    open spec fn view(&self) -> SocketAddrView {
        match self {
            SocketAddress::V4 { octets, port } => SocketAddrView::V4 { octets: octets@, port: *port },
            SocketAddress::V6 { segments, scope_id, port } => SocketAddrView::V6 {
                segments: segments@,
                scope_id: *scope_id,
                port: *port,
            },
        }
    }
}

pub open spec fn opt_nat(m: Option<usize>) -> Option<nat> {
    match m {
        Some(v) => Some(v as nat),
        None => None,
    }
}

fn is_digit_char(c: char, hex: bool) -> (r: bool)
    ensures
        r == is_digit(c, hex),
{
    ('0' <= c && c <= '9') || (hex && (('a' <= c && c <= 'f') || ('A' <= c && c <= 'F')))
}

fn digit_char_value(c: char) -> (r: u64)
    requires
        is_digit(c, true),
    ensures
        r == digit_value(c),
        r < 16,
{
    if '0' <= c && c <= '9' {
        (c as u64) - ('0' as u64)
    } else if 'a' <= c && c <= 'f' {
        (c as u64) - ('a' as u64) + 10
    } else {
        (c as u64) - ('A' as u64) + 10
    }
}

fn read_number_at(
    s: &Vec<char>,
    pos: usize,
    hex: bool,
    max_digits: Option<usize>,
    allow_zero_prefix: bool,
    bound: u32,
) -> (r: Option<(u32, usize)>)
    requires
        pos <= s.len(),
    ensures
        match r {
            Some((v, p)) => read_number(s@, pos as int, hex, opt_nat(max_digits), allow_zero_prefix, bound as nat)
                == Some((v as nat, p as int)) && p <= s.len(),
            None => read_number(s@, pos as int, hex, opt_nat(max_digits), allow_zero_prefix, bound as nat) is None,
        },
{
    let mut i = pos;
    let mut v: u64 = 0;
    let mut over = false;
    while i < s.len() && is_digit_char(s[i], hex)
        invariant
            pos <= i <= s.len(),
            run_len(s@, pos as int, hex) == (i - pos) + run_len(s@, i as int, hex),
            over ==> digits_value(s@, pos as int, i as int, hex) > bound,
            !over ==> v == digits_value(s@, pos as int, i as int, hex) && v <= bound,
        decreases s.len() - i,
    {
        let d = digit_char_value(s[i]);
        assert(digits_value(s@, pos as int, i + 1, hex) == digits_value(s@, pos as int, i as int, hex)
            * radix(hex) + digit_value(s@[i as int]));
        if !over {
            let nv = if hex {
                v * 16 + d
            } else {
                v * 10 + d
            };
            if nv > bound as u64 {
                over = true;
            } else {
                v = nv;
            }
        }
        i += 1;
    }
    let n = i - pos;
    if n == 0 {
        return None;
    }
    match max_digits {
        Some(m) => {
            if n > m {
                return None;
            }
        },
        None => {},
    }
    if !allow_zero_prefix && s[pos] == '0' && n > 1 {
        return None;
    }
    if over {
        return None;
    }
    Some((v as u32, i))
}

/// The result of a reading that has already produced `acc`, followed by `r`.
pub open spec fn after<T>(acc: Seq<T>, r: Option<(Seq<T>, int)>) -> Option<(Seq<T>, int)> {
    match r {
        Some((rest, q)) => Some((acc + rest, q)),
        None => None,
    }
}

fn read_ipv4_at(s: &Vec<char>, pos: usize) -> (r: Option<(Vec<u8>, usize)>)
    requires
        pos <= s.len(),
    ensures
        match r {
            Some((o, p)) => read_ipv4(s@, pos as int) == Some((o@, p as int)) && p <= s.len() && o.len() == 4,
            None => read_ipv4(s@, pos as int) is None,
        },
{
    let mut acc: Vec<u8> = Vec::new();
    let mut cur = pos;
    let mut i: usize = 0;
    assert(acc@ + seq![] =~= acc@);
    while i < 4
        invariant
            i <= 4,
            cur <= s.len(),
            acc.len() == i,
            read_ipv4(s@, pos as int) == after(acc@, read_octets(s@, cur as int, i as nat)),
        decreases 4 - i,
    {
        let start = if i == 0 {
            cur
        } else {
            if !(cur < s.len() && s[cur] == '.') {
                return None;
            }
            cur + 1
        };
        match read_number_at(s, start, false, Some(3), false, 255) {
            None => {
                return None;
            },
            Some((v, p)) => {
                let ghost old_acc = acc@;
                acc.push(v as u8);
                proof {
                    let rest = read_octets(s@, p as int, (i + 1) as nat);
                    if let Some((r2, q)) = rest {
                        assert(old_acc + (seq![v as u8] + r2) =~= acc@ + r2);
                    }
                }
                cur = p;
            },
        }
        i += 1;
    }
    assert(acc@ + Seq::<u8>::empty() =~= acc@);
    Some((acc, cur))
}

/// The groups read before `rest`, followed by what `rest` reads.
pub open spec fn groups_after(acc: Seq<u16>, rest: (Seq<u16>, int, bool)) -> (Seq<u16>, int, bool) {
    (acc + rest.0, rest.1, rest.2)
}

fn read_groups_at(s: &Vec<char>, pos: usize, limit: usize) -> (r: (Vec<u16>, usize, bool))
    requires
        pos <= s.len(),
        limit <= 8,
    ensures
        (r.0@, r.1 as int, r.2) == read_groups(s@, pos as int, 0, limit as nat),
        r.1 <= s.len(),
        r.0.len() <= limit,
{
    let mut acc: Vec<u16> = Vec::new();
    let mut cur = pos;
    let mut i: usize = 0;
    assert(groups_after(acc@, read_groups(s@, cur as int, 0, limit as nat)) =~= read_groups(
        s@,
        pos as int,
        0,
        limit as nat,
    ));
    while i < limit
        invariant
            i <= limit <= 8,
            cur <= s.len(),
            acc.len() == i,
            read_groups(s@, pos as int, 0, limit as nat) == groups_after(
                acc@,
                read_groups(s@, cur as int, i as nat, limit as nat),
            ),
        decreases limit - i,
    {
        if i > 0 && !(cur < s.len() && s[cur] == ':') {
            assert(acc@ + Seq::<u16>::empty() =~= acc@);
            return (acc, cur, false);
        }
        let start = if i == 0 {
            cur
        } else {
            cur + 1
        };
        if i + 1 < limit {
            match read_ipv4_at(s, start) {
                Some((o, p)) => {
                    let g0: u16 = (o[0] as u16) * 256 + (o[1] as u16);
                    let g1: u16 = (o[2] as u16) * 256 + (o[3] as u16);
                    let ghost old_acc = acc@;
                    acc.push(g0);
                    acc.push(g1);
                    assert(old_acc + ipv4_groups(o@) =~= acc@);
                    return (acc, p, true);
                },
                None => {},
            }
        }
        match read_number_at(s, start, true, Some(4), true, 0xffff) {
            None => {
                assert(acc@ + Seq::<u16>::empty() =~= acc@);
                return (acc, cur, false);
            },
            Some((g, p)) => {
                let ghost old_acc = acc@;
                acc.push(g as u16);
                let ghost rest = read_groups(s@, p as int, (i + 1) as nat, limit as nat);
                assert(old_acc + (seq![g as u16] + rest.0) =~= acc@ + rest.0);
                cur = p;
            },
        }
        i += 1;
    }
    assert(acc@ + Seq::<u16>::empty() =~= acc@);
    (acc, cur, false)
}

fn read_ipv6_at(s: &Vec<char>, pos: usize) -> (r: Option<(Vec<u16>, usize)>)
    requires
        pos <= s.len(),
    ensures
        match r {
            Some((g, p)) => read_ipv6(s@, pos as int) == Some((g@, p as int)) && p <= s.len()
                && g.len() == 8,
            None => read_ipv6(s@, pos as int) is None,
        },
{
    let (head, p, head_v4) = read_groups_at(s, pos, 8);
    if head.len() == 8 {
        return Some((head, p));
    }
    if head_v4 {
        return None;
    }
    if p < s.len() && s[p] == ':' && p + 1 < s.len() && s[p + 1] == ':' {
        let limit = 7 - head.len();
        let (tail, q, _) = read_groups_at(s, p + 2, limit);
        let gap = 8 - head.len() - tail.len();
        let mut out = head;
        let ghost h = out@;
        let mut k: usize = 0;
        while k < gap
            invariant
                k <= gap,
                out@ =~= h + zeros(k as nat),
            decreases gap - k,
        {
            out.push(0);
            k += 1;
        }
        let mut j: usize = 0;
        while j < tail.len()
            invariant
                j <= tail.len(),
                out@ =~= h + zeros(gap as nat) + tail@.subrange(0, j as int),
            decreases tail.len() - j,
        {
            out.push(tail[j]);
            j += 1;
        }
        assert(tail@.subrange(0, tail.len() as int) =~= tail@);
        Some((out, q))
    } else {
        None
    }
}

fn read_port_at(s: &Vec<char>, pos: usize) -> (r: Option<(u16, usize)>)
    requires
        pos <= s.len(),
    ensures
        match r {
            Some((v, p)) => read_port(s@, pos as int) == Some((v as nat, p as int)) && p <= s.len(),
            None => read_port(s@, pos as int) is None,
        },
{
    if pos < s.len() && s[pos] == ':' {
        match read_number_at(s, pos + 1, false, None, true, 0xffff) {
            Some((v, p)) => Some((v as u16, p)),
            None => None,
        }
    } else {
        None
    }
}

fn read_scope_at(s: &Vec<char>, pos: usize) -> (r: (u32, usize))
    requires
        pos <= s.len(),
    ensures
        read_scope(s@, pos as int) == (r.0 as nat, r.1 as int),
        r.1 <= s.len(),
{
    if pos < s.len() && s[pos] == '%' {
        match read_number_at(s, pos + 1, false, None, true, 0xffff_ffff) {
            Some((v, p)) => (v, p),
            None => (0, pos),
        }
    } else {
        (0, pos)
    }
}

fn read_socket_v4_at(s: &Vec<char>) -> (r: Option<(SocketAddress, usize)>)
    ensures
        match r {
            Some((a, p)) => read_socket_v4(s@) == Some((a@, p as int)) && a@.well_formed(),
            None => read_socket_v4(s@) is None,
        },
{
    match read_ipv4_at(s, 0) {
        None => None,
        Some((o, p)) => match read_port_at(s, p) {
            None => None,
            Some((port, q)) => Some((SocketAddress::V4 { octets: o, port }, q)),
        },
    }
}

fn read_socket_v6_at(s: &Vec<char>) -> (r: Option<(SocketAddress, usize)>)
    ensures
        match r {
            Some((a, p)) => read_socket_v6(s@) == Some((a@, p as int)) && a@.well_formed(),
            None => read_socket_v6(s@) is None,
        },
{
    if !(0 < s.len() && s[0] == '[') {
        return None;
    }
    match read_ipv6_at(s, 1) {
        None => None,
        Some((segments, p)) => {
            let (scope_id, q) = read_scope_at(s, p);
            if !(q < s.len() && s[q] == ']') {
                return None;
            }
            match read_port_at(s, q + 1) {
                None => None,
                Some((port, r)) => Some((SocketAddress::V6 { segments, scope_id, port }, r)),
            }
        },
    }
}

/// Parses the whole of `s` as a socket address.
fn parse_chars(s: &Vec<char>) -> (r: Option<SocketAddress>)
    ensures
        match r {
            Some(a) => socket_addr_of(s@) == Some(a@) && a@.well_formed(),
            None => socket_addr_of(s@) is None,
        },
{
    let attempt = match read_socket_v4_at(s) {
        Some(a) => Some(a),
        None => read_socket_v6_at(s),
    };
    match attempt {
        Some((a, p)) => if p == s.len() {
            Some(a)
        } else {
            None
        },
        None => None,
    }
}

// ---------------------------------------------------------------------------
// host:port
// ---------------------------------------------------------------------------

/// The character of a decimal digit.
pub open spec fn decimal_digit(d: nat) -> char {
    (d + 48) as char
}

/// The decimal numeral of `n`, without leading zeros.
pub open spec fn decimal_text(n: nat) -> Seq<char>
    decreases n,
{
    if n < 10 {
        seq![decimal_digit(n)]
    } else {
        decimal_text(n / 10).push(decimal_digit(n % 10))
    }
}

/// Octets as dotted decimal text, each octet after the first (every octet,
/// when `lead`) preceded by `.`.
pub open spec fn dotted(o: Seq<u8>, lead: bool) -> Seq<char>
    decreases o.len(),
{
    if o.len() == 0 {
        Seq::empty()
    } else {
        (if lead {
            seq!['.']
        } else {
            Seq::empty()
        }) + decimal_text(o[0] as nat) + dotted(o.drop_first(), true)
    }
}

/// The usual text of an IPv4 address, `a.b.c.d`.
pub open spec fn ipv4_text(o: Seq<u8>) -> Seq<char> {
    dotted(o, false)
}

/// The character of a hexadecimal digit, lower case.
pub open spec fn hex_digit(d: nat) -> char {
    if d < 10 {
        (d + 48) as char
    } else {
        (d + 87) as char
    }
}

/// The lower-case hexadecimal numeral of `n`, without leading zeros.
pub open spec fn hex_text(n: nat) -> Seq<char>
    decreases n,
{
    if n < 16 {
        seq![hex_digit(n)]
    } else {
        hex_text(n / 16).push(hex_digit(n % 16))
    }
}

/// IPv6 groups as hexadecimal text, each group after the first (every
/// group, when `lead`) preceded by `:`.
pub open spec fn colon_hex(g: Seq<u16>, lead: bool) -> Seq<char>
    decreases g.len(),
{
    if g.len() == 0 {
        Seq::empty()
    } else {
        (if lead {
            seq![':']
        } else {
            Seq::empty()
        }) + hex_text(g[0] as nat) + colon_hex(g.drop_first(), true)
    }
}

/// The full (uncompressed) text of an IPv6 address, `x:x:x:x:x:x:x:x`.
pub open spec fn ipv6_text(g: Seq<u16>) -> Seq<char> {
    colon_hex(g, false)
}

/// The text of an IPv6 address whose run of zero groups between `head` and
/// `tail` is written as `::`.
pub open spec fn ipv6_compressed_text(head: Seq<u16>, tail: Seq<u16>) -> Seq<char> {
    colon_hex(head, false) + seq![':', ':'] + colon_hex(tail, false)
}

/// The text `host:port`.
pub open spec fn host_port_text(host: Seq<char>, port: u16) -> Seq<char> {
    host + seq![':'] + decimal_text(port as nat)
}

fn push_decimal(out: &mut Vec<char>, n: u16)
    ensures
        final(out)@ == old(out)@ + decimal_text(n as nat),
    decreases n,
{
    if n >= 10 {
        push_decimal(out, n / 10);
    }
    let d: u8 = (n % 10) as u8;
    out.push((d + 48) as char);
    assert(old(out)@ + decimal_text(n as nat) =~= out@) by {
        if n >= 10 {
            assert(decimal_text(n as nat) == decimal_text((n / 10) as nat).push(decimal_digit((n % 10) as nat)));
        }
    }
}

/// The characters of `host:port`.
fn host_port_chars(host: &str, port: u16) -> (r: Vec<char>)
    ensures
        r@ == host_port_text(host@, port),
{
    let n = host.unicode_len();
    let mut out: Vec<char> = Vec::new();
    let mut i: usize = 0;
    while i < n
        invariant
            n == host@.len(),
            i <= n,
            out@ =~= host@.subrange(0, i as int),
        decreases n - i,
    {
        out.push(host.get_char(i));
        i += 1;
    }
    out.push(':');
    push_decimal(&mut out, port);
    assert(host@.subrange(0, n as int) =~= host@);
    out
}

/// The socket address that `host:port` spells, as the standard library's
/// socket address parser reads it: `host` must be an IPv4 literal or a
/// bracketed IPv6 literal; host names are not resolved.
pub fn socket_addr_from_host_port(host: &str, port: u16) -> (r: Option<SocketAddress>)
    ensures
        match r {
            Some(a) => socket_addr_of(host_port_text(host@, port)) == Some(a@) && a@.well_formed(),
            None => socket_addr_of(host_port_text(host@, port)) is None,
        },
{
    let text = host_port_chars(host, port);
    parse_chars(&text)
}

} // verus!
