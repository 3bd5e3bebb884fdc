//! IP addresses and socket addresses in their text form, read the way the standard
//! library reads them: dotted IPv4 with octets of at most three digits and no leading zero,
//! IPv6 with hex groups of at most four digits, one `::` standing for at least one zero
//! group and an optional trailing dotted IPv4 part, and socket addresses `a.b.c.d:port` or
//! `[v6%scope]:port`.
use vstd::prelude::*;

verus! {

/// An IP address: four octets, or eight 16-bit groups.
#[derive(Clone, Copy, Debug, PartialEq, Eq, Structural)]
pub enum IpAddress {
    V4(u8, u8, u8, u8),
    V6(u16, u16, u16, u16, u16, u16, u16, u16),
}

/// A socket address: an IP address and a port (and an IPv6 scope, zero when absent).
#[derive(Clone, Copy, Debug, PartialEq, Eq, Structural)]
pub struct SocketAddress {
    pub ip: IpAddress,
    pub port: u16,
    pub scope_id: u32,
}

/// The value of a digit in `radix` (10 or 16), if it is one.
pub open spec fn digit_value(c: char, radix: u32) -> Option<nat> {
    if '0' <= c && c <= '9' {
        Some((c as nat - '0' as nat) as nat)
    } else if radix == 16 && 'a' <= c && c <= 'f' {
        Some((c as nat - 'a' as nat + 10) as nat)
    } else if radix == 16 && 'A' <= c && c <= 'F' {
        Some((c as nat - 'A' as nat + 10) as nat)
    } else {
        None
    }
}

/// How many digits are read from `pos`: as many as follow, but at most `max` (no limit when
/// `max` is zero).
pub open spec fn run_len(s: Seq<char>, pos: int, radix: u32, max: nat) -> nat
    decreases s.len() - pos,
{
    if pos < 0 || pos >= s.len() || digit_value(s[pos], radix) is None || max == 1 {
        if 0 <= pos < s.len() && digit_value(s[pos], radix) is Some { 1 } else { 0 }
    } else {
        1 + run_len(s, pos + 1, radix, if max == 0 { 0 } else { (max - 1) as nat })
    }
}

/// The value of the `n` digits at `pos`.
pub open spec fn run_value(s: Seq<char>, pos: int, n: nat, radix: u32) -> nat
    decreases n,
{
    if n == 0 {
        0
    } else {
        run_value(s, pos, (n - 1) as nat, radix) * radix as nat + digit_value(s[pos + n - 1], radix)->Some_0
    }
}

/// A number read at `pos`: at least one digit, at most `max` of them, no leading zero
/// unless `allow_zero_prefix` (or the number is a single digit), and not above `bound`;
/// with the position after it.
pub open spec fn read_number_spec(s: Seq<char>, pos: int, radix: u32, max: nat, allow_zero_prefix: bool, bound: nat) -> Option<(nat, int)> {
    let n = run_len(s, pos, radix, max);
    if n == 0 {
        None
    } else if !allow_zero_prefix && s[pos] == '0' && n > 1 {
        None
    } else if run_value(s, pos, n, radix) > bound {
        None
    } else {
        Some((run_value(s, pos, n, radix), pos + n))
    }
}

/// A character at a position.
pub open spec fn char_at(s: Seq<char>, pos: int, c: char) -> bool {
    0 <= pos < s.len() && s[pos] == c
}

/// A dotted IPv4 address read at `pos`, with the position after it.
pub open spec fn read_ipv4_spec(s: Seq<char>, pos: int) -> Option<(Seq<u8>, int)> {
    match read_number_spec(s, pos, 10, 3, false, 255) {
        None => None,
        Some((a, p1)) => if !char_at(s, p1, '.') {
            None
        } else {
            match read_number_spec(s, p1 + 1, 10, 3, false, 255) {
                None => None,
                Some((b, p2)) => if !char_at(s, p2, '.') {
                    None
                } else {
                    match read_number_spec(s, p2 + 1, 10, 3, false, 255) {
                        None => None,
                        Some((c, p3)) => if !char_at(s, p3, '.') {
                            None
                        } else {
                            match read_number_spec(s, p3 + 1, 10, 3, false, 255) {
                                None => None,
                                Some((d, p4)) => Some((seq![a as u8, b as u8, c as u8, d as u8], p4)),
                            }
                        },
                    }
                },
            }
        },
    }
}

/// Where the `i`-th item of a `:`-separated list starts, if its separator is there.
pub open spec fn after_sep(s: Seq<char>, pos: int, i: nat) -> Option<int> {
    if i == 0 {
        Some(pos)
    } else if char_at(s, pos, ':') {
        Some(pos + 1)
    } else {
        None
    }
}

/// Up to `limit - i` more IPv6 groups read at `pos` after the groups `acc`: each a hex
/// number of at most four digits, or, while two groups are left, a dotted IPv4 address
/// that ends the list. Returns the groups, the position after them and whether an IPv4
/// address ended them.
pub open spec fn read_groups_spec(s: Seq<char>, pos: int, limit: nat, i: nat, acc: Seq<u16>) -> (Seq<u16>, int, bool)
    decreases limit - i,
{
    if i >= limit {
        (acc, pos, false)
    } else {
        let v4 = if i + 1 < limit {
            match after_sep(s, pos, i) {
                Some(p) => read_ipv4_spec(s, p),
                None => None,
            }
        } else {
            None
        };
        match v4 {
            Some((o, p2)) => (
                acc.push((o[0] as u16 * 256 + o[1] as u16) as u16).push((o[2] as u16 * 256 + o[3] as u16) as u16),
                p2,
                true,
            ),
            None => {
                let g = match after_sep(s, pos, i) {
                    Some(p) => read_number_spec(s, p, 16, 4, true, 0xffff),
                    None => None,
                };
                match g {
                    Some((v, p2)) => read_groups_spec(s, p2, limit, i + 1, acc.push(v as u16)),
                    None => (acc, pos, false),
                }
            },
        }
    }
}

/// An IPv6 address read at `pos`, with the position after it.
pub open spec fn read_ipv6_spec(s: Seq<char>, pos: int) -> Option<(Seq<u16>, int)> {
    let (head, p1, head_v4) = read_groups_spec(s, pos, 8, 0, Seq::empty());
    if head.len() == 8 {
        Some((head, p1))
    } else if head_v4 {
        None
    } else if !(char_at(s, p1, ':') && char_at(s, p1 + 1, ':')) {
        None
    } else {
        let limit = (8 - (head.len() + 1)) as nat;
        let (tail, p2, _) = read_groups_spec(s, p1 + 2, limit, 0, Seq::empty());
        Some((head + Seq::new((8 - head.len() - tail.len()) as nat, |k: int| 0u16) + tail, p2))
    }
}

/// The address for four octets.
pub open spec fn v4_of(o: Seq<u8>) -> IpAddress {
    IpAddress::V4(o[0], o[1], o[2], o[3])
}

/// The address for eight groups.
pub open spec fn v6_of(g: Seq<u16>) -> IpAddress {
    IpAddress::V6(g[0], g[1], g[2], g[3], g[4], g[5], g[6], g[7])
}

/// An IP address read at `pos`: IPv4 when that reads, else IPv6.
pub open spec fn read_ip_spec(s: Seq<char>, pos: int) -> Option<(IpAddress, int)> {
    match read_ipv4_spec(s, pos) {
        Some((o, p)) => Some((v4_of(o), p)),
        None => match read_ipv6_spec(s, pos) {
            Some((g, p)) => Some((v6_of(g), p)),
            None => None,
        },
    }
}

/// The IP address a whole text stands for.
#[verifier::opaque]
pub open spec fn parse_ip_spec(s: Seq<char>) -> Option<IpAddress> {
    match read_ip_spec(s, 0) {
        Some((ip, p)) => if p == s.len() { Some(ip) } else { None },
        None => None,
    }
}

/// A port read after a `:` at `pos`.
pub open spec fn read_port_spec(s: Seq<char>, pos: int) -> Option<(u16, int)> {
    if !char_at(s, pos, ':') {
        None
    } else {
        match read_number_spec(s, pos + 1, 10, 0, true, 0xffff) {
            Some((v, p)) => Some((v as u16, p)),
            None => None,
        }
    }
}

/// A socket address read at `pos`: `a.b.c.d:port`, else `[v6]:port` with an optional
/// `%scope` inside the brackets.
pub open spec fn read_socket_spec(s: Seq<char>, pos: int) -> Option<(SocketAddress, int)> {
    let v4 = match read_ipv4_spec(s, pos) {
        Some((o, p)) => match read_port_spec(s, p) {
            Some((port, p2)) => Some((SocketAddress { ip: v4_of(o), port, scope_id: 0 }, p2)),
            None => None,
        },
        None => None,
    };
    match v4 {
        Some(r) => Some(r),
        None => if !char_at(s, pos, '[') {
            None
        } else {
            match read_ipv6_spec(s, pos + 1) {
                None => None,
                Some((g, p1)) => {
                    let (scope, p2) = if char_at(s, p1, '%') {
                        match read_number_spec(s, p1 + 1, 10, 0, true, 0xffff_ffff) {
                            Some((v, p)) => (v as u32, p),
                            None => (0u32, p1),
                        }
                    } else {
                        (0u32, p1)
                    };
                    if !char_at(s, p2, ']') {
                        None
                    } else {
                        match read_port_spec(s, p2 + 1) {
                            Some((port, p3)) => Some((SocketAddress { ip: v6_of(g), port, scope_id: scope }, p3)),
                            None => None,
                        }
                    }
                },
            }
        },
    }
}

/// The socket address a whole text stands for.
#[verifier::opaque]
pub open spec fn parse_socket_spec(s: Seq<char>) -> Option<SocketAddress> {
    match read_socket_spec(s, 0) {
        Some((a, p)) => if p == s.len() { Some(a) } else { None },
        None => None,
    }
}

fn digit_of(c: char, radix: u32) -> (r: Option<u32>)
    ensures
        match r {
            Some(v) => digit_value(c, radix) == Some(v as nat) && v < 16,
            None => digit_value(c, radix) is None,
        },
{
    if '0' <= c && c <= '9' {
        Some((c as u32) - ('0' as u32))
    } else if radix == 16 && 'a' <= c && c <= 'f' {
        Some((c as u32) - ('a' as u32) + 10)
    } else if radix == 16 && 'A' <= c && c <= 'F' {
        Some((c as u32) - ('A' as u32) + 10)
    } else {
        None
    }
}

proof fn lemma_run_len_bound(s: Seq<char>, pos: int, radix: u32, max: nat)
    ensures
        run_len(s, pos, radix, max) <= if pos < 0 || pos >= s.len() { 0 } else { s.len() - pos },
        max > 0 ==> run_len(s, pos, radix, max) <= max,
        run_len(s, pos, radix, max) > 0 ==> 0 <= pos < s.len() && digit_value(s[pos], radix) is Some,
    decreases s.len() - pos,
{
    if !(pos < 0 || pos >= s.len() || digit_value(s[pos], radix) is None || max == 1) {
        lemma_run_len_bound(s, pos + 1, radix, if max == 0 { 0 } else { (max - 1) as nat });
    }
}

proof fn lemma_run_digits(s: Seq<char>, pos: int, radix: u32, max: nat, k: int)
    requires
        0 <= k < run_len(s, pos, radix, max),
    ensures
        0 <= pos + k < s.len(),
        digit_value(s[pos + k], radix) is Some,
    decreases s.len() - pos,
{
    lemma_run_len_bound(s, pos, radix, max);
    if k > 0 {
        lemma_run_digits(s, pos + 1, radix, if max == 0 { 0 } else { (max - 1) as nat }, k - 1);
    }
}

proof fn lemma_run_value_grows(s: Seq<char>, pos: int, n: nat, radix: u32)
    requires
        radix >= 2,
        forall|k: int| 0 <= k < n ==> #[trigger] digit_value(s[pos + k], radix) is Some,
    ensures
        forall|m: nat| m <= n ==> #[trigger] run_value(s, pos, m, radix) <= run_value(s, pos, n, radix),
    decreases n,
{
    if n > 0 {
        lemma_run_value_grows(s, pos, (n - 1) as nat, radix);
        let prev = run_value(s, pos, (n - 1) as nat, radix);
        assert(prev * radix as nat >= prev) by (nonlinear_arith)
            requires
                radix >= 2,
        ;
    }
}

fn is_digit_at(s: &Vec<char>, p: usize, radix: u32) -> (b: bool)
    requires
        p < s@.len(),
    ensures
        b == digit_value(s@[p as int], radix) is Some,
{
    digit_of(s[p], radix).is_some()
}

/// Reads a number at `pos` as `read_number_spec` says.
fn read_number(s: &Vec<char>, pos: usize, radix: u32, max: usize, allow_zero_prefix: bool, bound: u32) -> (r: Option<(u32, usize)>)
    requires
        radix == 10 || radix == 16,
        pos <= s@.len(),
    ensures
        match r {
            Some((v, p)) => read_number_spec(s@, pos as int, radix, max as nat, allow_zero_prefix, bound as nat)
                == Some((v as nat, p as int)) && p <= s@.len(),
            None => read_number_spec(s@, pos as int, radix, max as nat, allow_zero_prefix, bound as nat) is None,
        },
{
    let ghost n = run_len(s@, pos as int, radix, max as nat);
    proof {
        lemma_run_len_bound(s@, pos as int, radix, max as nat);
    }
    let mut value: u64 = 0;
    let mut count: usize = 0;
    let mut over = false;
    let mut p = pos;
    proof {
        assert forall|k: int| 0 <= k < n implies #[trigger] digit_value(s@[pos + k], radix) is Some by {
            lemma_run_digits(s@, pos as int, radix, max as nat, k);
        }
    }
    while p < s.len() && (max == 0 || count < max) && is_digit_at(s, p, radix)
        invariant
            pos <= p <= s@.len(),
            count == p - pos,
            count <= n,
            radix == 10 || radix == 16,
            n == run_len(s@, pos as int, radix, max as nat),
            n <= s@.len() - pos,
            max > 0 ==> n <= max,
            forall|k: int| 0 <= k < n ==> #[trigger] digit_value(s@[pos + k], radix) is Some,
            !over ==> value == run_value(s@, pos as int, count as nat, radix) && value <= bound,
            over ==> run_value(s@, pos as int, count as nat, radix) > bound,
        decreases s@.len() - p,
    {
        let d = match digit_of(s[p], radix) {
            Some(d) => d,
            None => 0,
        };
        proof {
            lemma_run_len_more(s@, pos as int, radix, max as nat, count as int);
            lemma_run_value_grows(s@, pos as int, (count + 1) as nat, radix);
            assert(run_value(s@, pos as int, (count + 1) as nat, radix) == run_value(s@, pos as int, count as nat, radix)
                * radix as nat + d as nat);
        }
        if !over {
            let next = value * (radix as u64) + (d as u64);
            if next > bound as u64 {
                over = true;
            } else {
                value = next;
            }
        }
        count = count + 1;
        p = p + 1;
    }
    proof {
        if p >= s.len() || (max != 0 && count >= max) {
            lemma_run_len_end(s@, pos as int, radix, max as nat, count as int);
        } else {
            lemma_run_len_stop(s@, pos as int, radix, max as nat, count as int);
        }
        if over {
            lemma_run_value_grows(s@, pos as int, n, radix);
        }
    }
    if count == 0 {
        return None;
    }
    if !allow_zero_prefix && s[pos] == '0' && count > 1 {
        return None;
    }
    if over {
        return None;
    }
    Some((value as u32, p))
}

proof fn lemma_run_len_stop(s: Seq<char>, pos: int, radix: u32, max: nat, count: int)
    requires
        0 <= count <= run_len(s, pos, radix, max),
        0 <= pos + count < s.len(),
        digit_value(s[pos + count], radix) is None,
        max == 0 || count < max,
    ensures
        count == run_len(s, pos, radix, max),
    decreases count,
{
    lemma_run_len_bound(s, pos, radix, max);
    if count > 0 && max != 1 {
        lemma_run_len_stop(s, pos + 1, radix, if max == 0 { 0 } else { (max - 1) as nat }, count - 1);
    }
}

proof fn lemma_run_len_more(s: Seq<char>, pos: int, radix: u32, max: nat, count: int)
    requires
        0 <= count <= run_len(s, pos, radix, max),
        0 <= pos + count < s.len(),
        digit_value(s[pos + count], radix) is Some,
        max == 0 || count < max,
    ensures
        count < run_len(s, pos, radix, max),
    decreases count,
{
    lemma_run_len_bound(s, pos, radix, max);
    if count > 0 && max != 1 {
        lemma_run_len_more(s, pos + 1, radix, if max == 0 { 0 } else { (max - 1) as nat }, count - 1);
    }
}

proof fn lemma_run_len_end(s: Seq<char>, pos: int, radix: u32, max: nat, count: int)
    requires
        0 <= count <= run_len(s, pos, radix, max),
        pos >= 0,
        pos + count >= s.len() || (max > 0 && count >= max),
    ensures
        count == run_len(s, pos, radix, max),
    decreases count,
{
    lemma_run_len_bound(s, pos, radix, max);
    if count > 0 && max != 1 {
        lemma_run_len_end(s, pos + 1, radix, if max == 0 { 0 } else { (max - 1) as nat }, count - 1);
    }
}

fn char_is(s: &Vec<char>, pos: usize, c: char) -> (b: bool)
    ensures
        b == char_at(s@, pos as int, c),
        s@.len() <= usize::MAX,
{
    let n = s.len();
    pos < n && s[pos] == c
}

/// Reads a dotted IPv4 address at `pos`.
fn read_ipv4(s: &Vec<char>, pos: usize) -> (r: Option<([u8; 4], usize)>)
    requires
        pos <= s@.len(),
    ensures
        match r {
            Some((o, p)) => read_ipv4_spec(s@, pos as int) == Some((o@, p as int)) && p <= s@.len(),
            None => read_ipv4_spec(s@, pos as int) is None,
        },
{
    let (a, p1) = match read_number(s, pos, 10, 3, false, 255) {
        Some(x) => x,
        None => return None,
    };
    if !char_is(s, p1, '.') {
        return None;
    }
    let (b, p2) = match read_number(s, p1 + 1, 10, 3, false, 255) {
        Some(x) => x,
        None => return None,
    };
    if !char_is(s, p2, '.') {
        return None;
    }
    let (c, p3) = match read_number(s, p2 + 1, 10, 3, false, 255) {
        Some(x) => x,
        None => return None,
    };
    if !char_is(s, p3, '.') {
        return None;
    }
    let (d, p4) = match read_number(s, p3 + 1, 10, 3, false, 255) {
        Some(x) => x,
        None => return None,
    };
    let o: [u8; 4] = [a as u8, b as u8, c as u8, d as u8];
    assert(o@ =~= seq![a as u8, b as u8, c as u8, d as u8]);
    Some((o, p4))
}

/// Reads IPv6 groups at `pos` into `groups`, from position `i` up to `limit`.
fn read_groups(s: &Vec<char>, pos: usize, limit: usize, groups: &mut Vec<u16>) -> (r: (usize, bool))
    requires
        pos <= s@.len(),
        old(groups)@.len() <= limit <= 8,
    ensures
        ({
            let (g, p, v4) = read_groups_spec(s@, pos as int, limit as nat, old(groups)@.len(), old(groups)@);
            &&& final(groups)@ == g
            &&& r.0 as int == p
            &&& r.1 == v4
        }),
        r.0 <= s@.len(),
        final(groups)@.len() <= limit,
    decreases limit - old(groups)@.len(),
{
    let i = groups.len();
    if i >= limit {
        return (pos, false);
    }
    if i + 1 < limit {
        let start = if i == 0 {
            Some(pos)
        } else if char_is(s, pos, ':') {
            Some(pos + 1)
        } else {
            None
        };
        match start {
            Some(p) => match read_ipv4(s, p) {
                Some((o, p2)) => {
                    groups.push((o[0] as u16) * 256 + (o[1] as u16));
                    groups.push((o[2] as u16) * 256 + (o[3] as u16));
                    return (p2, true);
                },
                None => {},
            },
            None => {},
        }
    }
    let start = if i == 0 {
        Some(pos)
    } else if char_is(s, pos, ':') {
        Some(pos + 1)
    } else {
        None
    };
    let g = match start {
        Some(p) => read_number(s, p, 16, 4, true, 0xffff),
        None => None,
    };
    match g {
        Some((v, p2)) => {
            groups.push(v as u16);
            read_groups(s, p2, limit, groups)
        },
        None => (pos, false),
    }
}

/// Reads an IPv6 address at `pos`.
fn read_ipv6(s: &Vec<char>, pos: usize) -> (r: Option<([u16; 8], usize)>)
    requires
        pos <= s@.len(),
    ensures
        match r {
            Some((g, p)) => read_ipv6_spec(s@, pos as int) == Some((g@, p as int)) && p <= s@.len(),
            None => read_ipv6_spec(s@, pos as int) is None,
        },
{
    let mut head: Vec<u16> = Vec::new();
    let (p1, head_v4) = read_groups(s, pos, 8, &mut head);
    assert(head@.len() <= 8);
    if head.len() == 8 {
        let g: [u16; 8] = [head[0], head[1], head[2], head[3], head[4], head[5], head[6], head[7]];
        assert(g@ =~= head@);
        return Some((g, p1));
    }
    if head_v4 {
        return None;
    }
    if !(char_is(s, p1, ':') && char_is(s, p1 + 1, ':')) {
        return None;
    }
    let limit = 8 - (head.len() + 1);
    let mut tail: Vec<u16> = Vec::new();
    let (p2, _) = read_groups(s, p1 + 2, limit, &mut tail);
    let mut all: Vec<u16> = Vec::new();
    let ghost zeros = Seq::new((8 - head@.len() - tail@.len()) as nat, |k: int| 0u16);
    let mut k: usize = 0;
    while k < head.len()
        invariant
            k <= head@.len(),
            all@ == head@.take(k as int),
        decreases head@.len() - k,
    {
        all.push(head[k]);
        k = k + 1;
        assert(all@ =~= head@.take(k as int));
    }
    let fill = 8 - head.len() - tail.len();
    let mut z: usize = 0;
    assert(head@.take(head@.len() as int) =~= head@);
    while z < fill
        invariant
            z <= fill,
            fill == 8 - head@.len() - tail@.len(),
            all@ == head@ + Seq::new(z as nat, |k: int| 0u16),
        decreases fill - z,
    {
        all.push(0);
        z = z + 1;
        assert(all@ =~= head@ + Seq::new(z as nat, |k: int| 0u16));
    }
    let mut t: usize = 0;
    while t < tail.len()
        invariant
            t <= tail@.len(),
            all@ == head@ + zeros + tail@.take(t as int),
            zeros == Seq::new((8 - head@.len() - tail@.len()) as nat, |k: int| 0u16),
        decreases tail@.len() - t,
    {
        all.push(tail[t]);
        t = t + 1;
        assert(all@ =~= head@ + zeros + tail@.take(t as int));
    }
    assert(all@ =~= head@ + zeros + tail@);
    let g: [u16; 8] = [all[0], all[1], all[2], all[3], all[4], all[5], all[6], all[7]];
    assert(g@ =~= all@);
    Some((g, p2))
}

/// The address for four octets.
fn v4_addr(o: [u8; 4]) -> (a: IpAddress)
    ensures
        a == v4_of(o@),
{
    IpAddress::V4(o[0], o[1], o[2], o[3])
}

/// The address for eight groups.
fn v6_addr(g: [u16; 8]) -> (a: IpAddress)
    ensures
        a == v6_of(g@),
{
    IpAddress::V6(g[0], g[1], g[2], g[3], g[4], g[5], g[6], g[7])
}

/// Reads an IP address at `pos`.
fn read_ip(s: &Vec<char>, pos: usize) -> (r: Option<(IpAddress, usize)>)
    requires
        pos <= s@.len(),
    ensures
        match r {
            Some((a, p)) => read_ip_spec(s@, pos as int) == Some((a, p as int)) && p <= s@.len(),
            None => read_ip_spec(s@, pos as int) is None,
        },
{
    match read_ipv4(s, pos) {
        Some((o, p)) => Some((v4_addr(o), p)),
        None => match read_ipv6(s, pos) {
            Some((g, p)) => Some((v6_addr(g), p)),
            None => None,
        },
    }
}

/// The IP address a text stands for, if it is one.
pub fn parse_ip(text: &str) -> (r: Option<IpAddress>)
    ensures
        r == parse_ip_spec(text@),
{
    let s = crate::text::chars_of(text);
    proof {
        reveal(parse_ip_spec);
    }
    match read_ip(&s, 0) {
        Some((ip, p)) => if p == s.len() { Some(ip) } else { None },
        None => None,
    }
}

/// Reads `:port` at `pos`.
fn read_port(s: &Vec<char>, pos: usize) -> (r: Option<(u16, usize)>)
    requires
        pos <= s@.len(),
    ensures
        match r {
            Some((v, p)) => read_port_spec(s@, pos as int) == Some((v, p as int)) && p <= s@.len(),
            None => read_port_spec(s@, pos as int) is None,
        },
{
    if !char_is(s, pos, ':') {
        return None;
    }
    match read_number(s, pos + 1, 10, 0, true, 0xffff) {
        Some((v, p)) => Some((v as u16, p)),
        None => None,
    }
}

/// Reads a socket address at `pos`.
fn read_socket(s: &Vec<char>, pos: usize) -> (r: Option<(SocketAddress, usize)>)
    requires
        pos <= s@.len(),
    ensures
        match r {
            Some((a, p)) => read_socket_spec(s@, pos as int) == Some((a, p as int)),
            None => read_socket_spec(s@, pos as int) is None,
        },
{
    match read_ipv4(s, pos) {
        Some((o, p)) => match read_port(s, p) {
            Some((port, p2)) => {
                return Some((SocketAddress { ip: v4_addr(o), port, scope_id: 0 }, p2));
            },
            None => {},
        },
        None => {},
    }
    if !char_is(s, pos, '[') {
        return None;
    }
    let (g, p1) = match read_ipv6(s, pos + 1) {
        Some(x) => x,
        None => return None,
    };
    let (scope, p2) = if char_is(s, p1, '%') {
        match read_number(s, p1 + 1, 10, 0, true, 0xffff_ffff) {
            Some((v, p)) => (v, p),
            None => (0u32, p1),
        }
    } else {
        (0u32, p1)
    };
    if !char_is(s, p2, ']') {
        return None;
    }
    match read_port(s, p2 + 1) {
        Some((port, p3)) => Some((SocketAddress { ip: v6_addr(g), port, scope_id: scope }, p3)),
        None => None,
    }
}

/// The socket address a text stands for, if it is one.
pub fn parse_socket_addr(text: &str) -> (r: Option<SocketAddress>)
    ensures
        r == parse_socket_spec(text@),
{
    let s = crate::text::chars_of(text);
    proof {
        reveal(parse_socket_spec);
    }
    match read_socket(&s, 0) {
        Some((a, p)) => if p == s.len() { Some(a) } else { None },
        None => None,
    }
}

/// Whether an address is the unspecified one (`0.0.0.0` or `::`).
pub open spec fn is_unspecified(a: IpAddress) -> bool {
    match a {
        IpAddress::V4(a, b, c, d) => a == 0 && b == 0 && c == 0 && d == 0,
        IpAddress::V6(a, b, c, d, e, f, g, h) => a == 0 && b == 0 && c == 0 && d == 0 && e == 0 && f == 0
            && g == 0 && h == 0,
    }
}

/// Whether an address is a loopback one (`127.0.0.0/8` or `::1`).
pub open spec fn is_loopback(a: IpAddress) -> bool {
    match a {
        IpAddress::V4(a, _, _, _) => a == 127,
        IpAddress::V6(a, b, c, d, e, f, g, h) => a == 0 && b == 0 && c == 0 && d == 0 && e == 0 && f == 0
            && g == 0 && h == 1,
    }
}

/// Whether two addresses are of the same family.
pub open spec fn same_family(a: IpAddress, b: IpAddress) -> bool {
    (a is V4 && b is V4) || (a is V6 && b is V6)
}

/// Whether an address is unspecified.
pub fn unspecified(a: IpAddress) -> (b: bool)
    ensures
        b == is_unspecified(a),
{
    match a {
        IpAddress::V4(a, b, c, d) => a == 0 && b == 0 && c == 0 && d == 0,
        IpAddress::V6(a, b, c, d, e, f, g, h) => a == 0 && b == 0 && c == 0 && d == 0 && e == 0 && f == 0
            && g == 0 && h == 0,
    }
}

/// Whether an address is a loopback one.
pub fn loopback(a: IpAddress) -> (b: bool)
    ensures
        b == is_loopback(a),
{
    match a {
        IpAddress::V4(a, _, _, _) => a == 127,
        IpAddress::V6(a, b, c, d, e, f, g, h) => a == 0 && b == 0 && c == 0 && d == 0 && e == 0 && f == 0
            && g == 0 && h == 1,
    }
}

/// Whether two addresses are of the same family.
pub fn family_matches(a: IpAddress, b: IpAddress) -> (r: bool)
    ensures
        r == same_family(a, b),
{
    match (a, b) {
        (IpAddress::V4(..), IpAddress::V4(..)) => true,
        (IpAddress::V6(..), IpAddress::V6(..)) => true,
        _ => false,
    }
}

} // verus!
