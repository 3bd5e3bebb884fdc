//! IP addresses written out the way the standard library displays them: dotted
//! decimal for IPv4; for IPv6, `::ffff:` and the dotted form for an IPv4-mapped
//! address, else lower-case hex groups with the first longest run of two or more
//! zero groups written as `::`.
use crate::net::IpAddress;
use crate::text::{decimal, decimal_chars, string_from_chars};
use vstd::prelude::*;

verus! {

/// The lower-case hex digit of `d < 16`.
pub open spec fn hex_digit(d: nat) -> char {
    if d < 10 {
        ((d + 48) as u32) as char
    } else {
        ((d + 87) as u32) as char
    }
}

/// The lower-case hex digits of `n` with no leading zeros (`format!("{:x}", n)`).
pub open spec fn hex(n: nat) -> Seq<char>
    decreases n,
{
    if n < 16 {
        seq![hex_digit(n)]
    } else {
        hex(n / 16).push(hex_digit(n % 16))
    }
}

/// Dotted decimal.
pub open spec fn ipv4_text(a: u8, b: u8, c: u8, d: u8) -> Seq<char> {
    decimal(a as nat) + seq!['.'] + decimal(b as nat) + seq!['.'] + decimal(c as nat) + seq!['.'] + decimal(
        d as nat,
    )
}

/// The number of zero groups from `i` on before a non-zero one or the end.
pub open spec fn zero_run(g: Seq<u16>, i: int) -> nat
    decreases g.len() - i,
{
    if 0 <= i < g.len() && g[i] == 0 {
        1 + zero_run(g, i + 1)
    } else {
        0
    }
}

/// The longest zero run that starts at `i` or later.
pub open spec fn longest_zero_run(g: Seq<u16>, i: int) -> nat
    decreases g.len() - i,
{
    if i < 0 || i >= g.len() {
        0
    } else {
        let here = zero_run(g, i);
        let rest = longest_zero_run(g, i + 1);
        if here >= rest {
            here
        } else {
            rest
        }
    }
}

/// The first position at or after `i` where a zero run of length `n` starts.
pub open spec fn first_run_of(g: Seq<u16>, i: int, n: nat) -> int
    decreases g.len() - i,
{
    if i < 0 || i >= g.len() {
        g.len() as int
    } else if zero_run(g, i) == n {
        i
    } else {
        first_run_of(g, i + 1, n)
    }
}

/// Hex groups joined by `:`.
pub open spec fn hex_groups(g: Seq<u16>) -> Seq<char>
    decreases g.len(),
{
    if g.len() == 0 {
        Seq::empty()
    } else if g.len() == 1 {
        hex(g[0] as nat)
    } else {
        hex_groups(g.drop_last()) + seq![':'] + hex(g.last() as nat)
    }
}

/// Whether eight groups are an IPv4-mapped address (`::ffff:a.b.c.d`).
pub open spec fn is_v4_mapped(g: Seq<u16>) -> bool {
    g.len() == 8 && g[0] == 0 && g[1] == 0 && g[2] == 0 && g[3] == 0 && g[4] == 0 && g[5] == 0xffff
}

/// An IPv6 address in its display form.
pub open spec fn ipv6_text(g: Seq<u16>) -> Seq<char> {
    if is_v4_mapped(g) {
        seq![':', ':', 'f', 'f', 'f', 'f', ':'] + ipv4_text(
            (g[6] / 256) as u8,
            (g[6] % 256) as u8,
            (g[7] / 256) as u8,
            (g[7] % 256) as u8,
        )
    } else {
        let n = longest_zero_run(g, 0);
        if n > 1 {
            let s = first_run_of(g, 0, n);
            hex_groups(g.take(s)) + seq![':', ':'] + hex_groups(g.skip(s + n))
        } else {
            hex_groups(g)
        }
    }
}

/// The eight groups of an IPv6 address.
pub open spec fn groups_of(a: u16, b: u16, c: u16, d: u16, e: u16, f: u16, g: u16, h: u16) -> Seq<u16> {
    seq![a, b, c, d, e, f, g, h]
}

/// An address in its display form (`ip.to_string()`).
pub open spec fn ip_text(a: IpAddress) -> Seq<char> {
    match a {
        IpAddress::V4(a, b, c, d) => ipv4_text(a, b, c, d),
        IpAddress::V6(a, b, c, d, e, f, g, h) => ipv6_text(groups_of(a, b, c, d, e, f, g, h)),
    }
}

fn hex_chars(n: u64) -> (v: Vec<char>)
    ensures
        v@ == hex(n as nat),
    decreases n,
{
    if n < 16 {
        let d = n as u8;
        let c = if d < 10 { (d + 48) as char } else { (d + 87) as char };
        let mut v = Vec::new();
        v.push(c);
        assert(v@ =~= hex(n as nat));
        v
    } else {
        let mut v = hex_chars(n / 16);
        let d = (n % 16) as u8;
        let c = if d < 10 { (d + 48) as char } else { (d + 87) as char };
        v.push(c);
        v
    }
}

fn append(out: &mut Vec<char>, more: &Vec<char>)
    ensures
        final(out)@ == old(out)@ + more@,
{
    let mut i: usize = 0;
    while i < more.len()
        invariant
            i <= more@.len(),
            out@ == old(out)@ + more@.take(i as int),
        decreases more@.len() - i,
    {
        out.push(more[i]);
        i = i + 1;
        assert(out@ =~= old(out)@ + more@.take(i as int));
    }
    assert(more@.take(more@.len() as int) =~= more@);
}

fn ipv4_chars(a: u8, b: u8, c: u8, d: u8) -> (v: Vec<char>)
    ensures
        v@ == ipv4_text(a, b, c, d),
{
    let mut v = decimal_chars(a as u64);
    v.push('.');
    append(&mut v, &decimal_chars(b as u64));
    v.push('.');
    append(&mut v, &decimal_chars(c as u64));
    v.push('.');
    append(&mut v, &decimal_chars(d as u64));
    assert(v@ =~= ipv4_text(a, b, c, d));
    v
}

fn zero_run_exec(g: &Vec<u16>, i: usize) -> (n: usize)
    requires
        i <= g@.len(),
    ensures
        n == zero_run(g@, i as int),
        i + n <= g@.len(),
{
    let mut j = i;
    while j < g.len() && g[j] == 0
        invariant
            i <= j <= g@.len(),
            zero_run(g@, i as int) == (j - i) + zero_run(g@, j as int),
        decreases g@.len() - j,
    {
        j = j + 1;
    }
    j - i
}

proof fn lemma_zero_run_bound(g: Seq<u16>, i: int)
    requires
        0 <= i <= g.len(),
    ensures
        i + zero_run(g, i) <= g.len(),
    decreases g.len() - i,
{
    if i < g.len() && g[i] == 0 {
        lemma_zero_run_bound(g, i + 1);
    }
}

proof fn lemma_longest_bound(g: Seq<u16>, i: int)
    requires
        0 <= i,
    ensures
        longest_zero_run(g, i) <= g.len(),
    decreases g.len() - i,
{
    if i < g.len() {
        lemma_zero_run_bound(g, i);
        lemma_longest_bound(g, i + 1);
    }
}

fn hex_groups_chars(g: &Vec<u16>, lo: usize, hi: usize) -> (v: Vec<char>)
    requires
        lo <= hi <= g@.len(),
    ensures
        v@ == hex_groups(g@.subrange(lo as int, hi as int)),
{
    let mut v: Vec<char> = Vec::new();
    let mut i = lo;
    while i < hi
        invariant
            lo <= i <= hi <= g@.len(),
            v@ == hex_groups(g@.subrange(lo as int, i as int)),
        decreases hi - i,
    {
        let ghost part = g@.subrange(lo as int, i + 1);
        assert(part.drop_last() =~= g@.subrange(lo as int, i as int));
        assert(part.last() == g@[i as int]);
        let h = hex_chars(g[i] as u64);
        if i > lo {
            v.push(':');
        }
        append(&mut v, &h);
        if i == lo {
            assert(v@ =~= hex_groups(part));
        } else {
            assert(v@ =~= hex_groups(part));
        }
        i = i + 1;
    }
    v
}

fn ipv6_chars(g: &Vec<u16>) -> (v: Vec<char>)
    requires
        g@.len() == 8,
    ensures
        v@ == ipv6_text(g@),
{
    if g[0] == 0 && g[1] == 0 && g[2] == 0 && g[3] == 0 && g[4] == 0 && g[5] == 0xffff {
        let mut v: Vec<char> = Vec::new();
        v.push(':');
        v.push(':');
        v.push('f');
        v.push('f');
        v.push('f');
        v.push('f');
        v.push(':');
        let tail = ipv4_chars((g[6] / 256) as u8, (g[6] % 256) as u8, (g[7] / 256) as u8, (g[7] % 256) as u8);
        append(&mut v, &tail);
        assert(v@ =~= ipv6_text(g@));
        return v;
    }
    // the longest zero run, scanning from the back
    let mut best: usize = 0;
    let mut i: usize = 8;
    while i > 0
        invariant
            i <= 8,
            g@.len() == 8,
            best == longest_zero_run(g@, i as int),
            best <= 8,
        decreases i,
    {
        i = i - 1;
        let here = zero_run_exec(g, i);
        proof {
            lemma_longest_bound(g@, i + 1);
        }
        if here >= best {
            best = here;
        }
    }
    if best > 1 {
        let mut s: usize = 0;
        while s < 8 && zero_run_exec(g, s) != best
            invariant
                s <= 8,
                g@.len() == 8,
                first_run_of(g@, 0, best as nat) == first_run_of(g@, s as int, best as nat),
            decreases 8 - s,
        {
            s = s + 1;
        }
        proof {
            if s == 8 {
                lemma_run_exists(g@, 0, best as nat);
            }
        }
        let run = zero_run_exec(g, s);
        assert(s + best <= 8);
        let mut v = hex_groups_chars(g, 0, s);
        v.push(':');
        v.push(':');
        let rest = hex_groups_chars(g, s + best, 8);
        append(&mut v, &rest);
        assert(g@.subrange(0, s as int) =~= g@.take(s as int));
        assert(g@.subrange((s + best) as int, 8) =~= g@.skip(s + best));
        assert(v@ =~= ipv6_text(g@));
        v
    } else {
        let v = hex_groups_chars(g, 0, 8);
        assert(g@.subrange(0, 8) =~= g@);
        v
    }
}

proof fn lemma_run_exists(g: Seq<u16>, i: int, n: nat)
    requires
        0 <= i <= g.len(),
        n == longest_zero_run(g, i),
        n > 0,
    ensures
        first_run_of(g, i, n) < g.len(),
    decreases g.len() - i,
{
    if i < g.len() {
        if zero_run(g, i) != n {
            lemma_run_exists(g, i + 1, n);
        }
    }
}

/// `ip.to_string()`.
pub fn ip_to_string(a: IpAddress) -> (s: String)
    ensures
        s@ == ip_text(a),
{
    let v = match a {
        IpAddress::V4(a, b, c, d) => ipv4_chars(a, b, c, d),
        IpAddress::V6(a, b, c, d, e, f, g, h) => {
            let mut gs: Vec<u16> = Vec::new();
            gs.push(a);
            gs.push(b);
            gs.push(c);
            gs.push(d);
            gs.push(e);
            gs.push(f);
            gs.push(g);
            gs.push(h);
            assert(gs@ =~= groups_of(a, b, c, d, e, f, g, h));
            ipv6_chars(&gs)
        },
    };
    string_from_chars(v.as_slice())
}

} // verus!
