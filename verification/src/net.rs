//! Internet addresses as plain values, and their usual text form.

use vstd::prelude::*;
use crate::table::TableKey;

verus! {

#[derive(Clone, Copy, Debug, PartialEq, Eq, Hash, Structural)]
pub struct Ipv4Addr {
    /// The address as one big-endian number.
    pub bits: u32,
}

#[derive(Clone, Copy, Debug, PartialEq, Eq, Hash, Structural)]
pub struct Ipv6Addr {
    /// The address as one big-endian number.
    pub bits: u128,
}

#[derive(Clone, Copy, Debug, PartialEq, Eq, Hash, Structural)]
pub enum IpAddr {
    V4(Ipv4Addr),
    V6(Ipv6Addr),
}

/// An endpoint. The flow label and the scope matter to IPv6 endpoints only and
/// are zero otherwise.
#[derive(Clone, Copy, Debug, PartialEq, Eq, Hash, Structural)]
pub struct SocketAddr {
    pub ip: IpAddr,
    pub port: u16,
    pub flowinfo: u32,
    pub scope_id: u32,
}

impl TableKey for SocketAddr {
    type Name = SocketAddr;

    open spec fn name(&self) -> SocketAddr {
        *self
    }

    fn same(&self, other: &Self) -> (r: bool) {
        *self == *other
    }
}

impl Ipv4Addr {
    pub fn new(a: u8, b: u8, c: u8, d: u8) -> (ip: Ipv4Addr)
        ensures
            ip.bits == a * 0x100_0000 + b * 0x1_0000 + c * 0x100 + d,
    {
        Ipv4Addr { bits: a as u32 * 0x100_0000 + b as u32 * 0x1_0000 + c as u32 * 0x100 + d as u32 }
    }

    /// `127.0.0.1`
    pub fn localhost() -> (ip: Ipv4Addr)
        ensures
            ip.bits == 0x7f00_0001,
    {
        Ipv4Addr { bits: 0x7f00_0001 }
    }

    /// The four numbers of the dotted form, from the left.
    pub open spec fn octets(self) -> Seq<nat> {
        seq![
            (self.bits / 0x100_0000) as nat,
            (self.bits / 0x1_0000 % 0x100) as nat,
            (self.bits / 0x100 % 0x100) as nat,
            (self.bits % 0x100) as nat,
        ]
    }

    /// The dotted form.
    pub open spec fn text(self) -> Seq<u8> {
        let o = self.octets();
        numeral(o[0], 10) + seq![46u8] + numeral(o[1], 10) + seq![46u8] + numeral(o[2], 10)
            + seq![46u8] + numeral(o[3], 10)
    }
}

impl Ipv6Addr {
    /// The sixteen-bit group at position `i`, from the left.
    pub open spec fn group(self, i: int) -> nat {
        if i == 0 {
            (self.bits / 0x1_0000_0000_0000_0000_0000_0000_0000) as nat
        } else if i == 1 {
            (self.bits / 0x1_0000_0000_0000_0000_0000_0000 % 0x1_0000) as nat
        } else if i == 2 {
            (self.bits / 0x1_0000_0000_0000_0000_0000 % 0x1_0000) as nat
        } else if i == 3 {
            (self.bits / 0x1_0000_0000_0000_0000 % 0x1_0000) as nat
        } else if i == 4 {
            (self.bits / 0x1_0000_0000_0000 % 0x1_0000) as nat
        } else if i == 5 {
            (self.bits / 0x1_0000_0000 % 0x1_0000) as nat
        } else if i == 6 {
            (self.bits / 0x1_0000 % 0x1_0000) as nat
        } else {
            (self.bits % 0x1_0000) as nat
        }
    }

    pub open spec fn groups(self) -> Seq<nat> {
        Seq::new(8, |i: int| self.group(i))
    }

    /// Whether this address embeds an IPv4 one (`::ffff:a.b.c.d`).
    pub open spec fn is_mapped(self) -> bool {
        self.bits / 0x1_0000_0000 == 0xffff
    }

    /// The embedded IPv4 address of a mapped one.
    pub open spec fn mapped(self) -> Ipv4Addr {
        Ipv4Addr { bits: (self.bits % 0x1_0000_0000) as u32 }
    }

    /// The shortest usual form: lower-case groups, the first of the longest
    /// runs of two or more zero groups written `::`, an embedded IPv4 address
    /// written dotted.
    pub open spec fn text(self) -> Seq<u8> {
        if self.is_mapped() {
            seq![58u8, 58u8, 102u8, 102u8, 102u8, 102u8, 58u8] + self.mapped().text()
        } else {
            let g = self.groups();
            let at = longest_zero_run(g, 8);
            let n = zero_run(g, at);
            if n > 1 {
                colon_joined(g.subrange(0, at)) + seq![58u8, 58u8] + colon_joined(
                    g.subrange(at + n, 8),
                )
            } else {
                colon_joined(g)
            }
        }
    }
}

/// The ASCII digit of `d` in a base of at most sixteen.
pub open spec fn digit(d: nat) -> u8 {
    if d < 10 {
        (48 + d) as u8
    } else {
        (87 + d) as u8
    }
}

/// The ASCII numeral of `n` in base `base`, without leading zeros.
pub open spec fn numeral(n: nat, base: nat) -> Seq<u8>
    decreases n,
{
    if n < base || base < 2 {
        seq![digit(n)]
    } else {
        proof {
            assert(n / base < n) by (nonlinear_arith)
                requires
                    n >= base,
                    base >= 2,
            ;
        }
        numeral(n / base, base).push(digit(n % base))
    }
}

/// Hexadecimal groups with colons between them.
pub open spec fn colon_joined(g: Seq<nat>) -> Seq<u8>
    decreases g.len(),
{
    if g.len() == 0 {
        Seq::empty()
    } else if g.len() == 1 {
        numeral(g[0], 16)
    } else {
        colon_joined(g.drop_last()) + seq![58u8] + numeral(g.last(), 16)
    }
}

/// The number of zero groups in a row from position `i` on.
pub open spec fn zero_run(g: Seq<nat>, i: int) -> nat
    decreases g.len() - i,
{
    if 0 <= i < g.len() && g[i] == 0 {
        1 + zero_run(g, i + 1)
    } else {
        0
    }
}

/// Where the first of the longest zero runs that start below `n` starts.
pub open spec fn longest_zero_run(g: Seq<nat>, n: int) -> int
    decreases n,
{
    if n <= 1 {
        0
    } else {
        let best = longest_zero_run(g, n - 1);
        if zero_run(g, n - 1) > zero_run(g, best) {
            n - 1
        } else {
            best
        }
    }
}

proof fn lemma_longest_zero_run(g: Seq<nat>, n: int)
    requires
        1 <= n,
    ensures
        0 <= longest_zero_run(g, n) < n,
        forall|j: int|
            0 <= j < n ==> #[trigger] zero_run(g, j) <= zero_run(g, longest_zero_run(g, n)),
        forall|j: int|
            0 <= j < longest_zero_run(g, n) ==> #[trigger] zero_run(g, j) < zero_run(
                g,
                longest_zero_run(g, n),
            ),
    decreases n,
{
    if n > 1 {
        lemma_longest_zero_run(g, n - 1);
    }
}

proof fn lemma_zero_run_fits(g: Seq<nat>, i: int)
    requires
        0 <= i <= g.len(),
    ensures
        i + zero_run(g, i) <= g.len(),
    decreases g.len() - i,
{
    if i < g.len() && g[i] == 0 {
        lemma_zero_run_fits(g, i + 1);
    }
}

impl IpAddr {
    pub open spec fn text(self) -> Seq<u8> {
        match self {
            IpAddr::V4(ip) => ip.text(),
            IpAddr::V6(ip) => ip.text(),
        }
    }

    pub open spec fn spec_is_loopback(self) -> bool {
        match self {
            IpAddr::V4(ip) => ip.octets()[0] == 127,
            IpAddr::V6(ip) => ip.bits == 1,
        }
    }

    pub fn is_loopback(&self) -> (r: bool)
        ensures
            r == self.spec_is_loopback(),
    {
        match self {
            IpAddr::V4(ip) => ip.bits / 0x100_0000 == 127,
            IpAddr::V6(ip) => ip.bits == 1,
        }
    }

    pub open spec fn spec_is_unspecified(self) -> bool {
        match self {
            IpAddr::V4(ip) => ip.bits == 0,
            IpAddr::V6(ip) => ip.bits == 0,
        }
    }

    pub fn is_unspecified(&self) -> (r: bool)
        ensures
            r == self.spec_is_unspecified(),
    {
        match self {
            IpAddr::V4(ip) => ip.bits == 0,
            IpAddr::V6(ip) => ip.bits == 0,
        }
    }

    pub fn is_ipv4(&self) -> (r: bool)
        ensures
            r == (*self is V4),
    {
        matches!(self, IpAddr::V4(_))
    }

    /// The address written out, as ASCII bytes.
    pub fn text_bytes(&self) -> (r: Vec<u8>)
        ensures
            r@ == self.text(),
    {
        let mut out: Vec<u8> = Vec::new();
        match self {
            IpAddr::V4(ip) => push_ipv4(&mut out, *ip),
            IpAddr::V6(ip) => push_ipv6(&mut out, *ip),
        }
        assert(out@ =~= self.text());
        out
    }
}

impl SocketAddr {
    pub open spec fn spec_new(ip: IpAddr, port: u16) -> SocketAddr {
        SocketAddr { ip, port, flowinfo: 0, scope_id: 0 }
    }

    pub fn new(ip: IpAddr, port: u16) -> (addr: SocketAddr)
        ensures
            addr == SocketAddr::spec_new(ip, port),
    {
        SocketAddr { ip, port, flowinfo: 0, scope_id: 0 }
    }

    pub fn ip(&self) -> (ip: IpAddr)
        ensures
            ip == self.ip,
    {
        self.ip
    }

    pub fn port(&self) -> (port: u16)
        ensures
            port == self.port,
    {
        self.port
    }

    pub fn is_ipv4(&self) -> (r: bool)
        ensures
            r == (self.ip is V4),
    {
        self.ip.is_ipv4()
    }

    pub fn is_ipv6(&self) -> (r: bool)
        ensures
            r == (self.ip is V6),
    {
        !self.ip.is_ipv4()
    }
}

fn push_numeral(out: &mut Vec<u8>, n: u32, base: u32)
    requires
        2 <= base <= 16,
    ensures
        final(out)@ == old(out)@ + numeral(n as nat, base as nat),
    decreases n,
{
    if n >= base {
        assert(n / base < n) by (nonlinear_arith)
            requires
                n >= base,
                base >= 2,
        ;
        push_numeral(out, n / base, base);
    }
    let d: u32 = n % base;
    assert(d < base) by (nonlinear_arith)
        requires
            d == n % base,
            base >= 2,
    ;
    let ascii: u8 = if d < 10 {
        48 + d as u8
    } else {
        87 + d as u8
    };
    assert(n < base ==> d == n) by (nonlinear_arith)
        requires
            d == n % base,
            base >= 2,
    ;
    out.push(ascii);
    assert(out@ =~= old(out)@ + numeral(n as nat, base as nat));
}

fn push_ipv4(out: &mut Vec<u8>, ip: Ipv4Addr)
    ensures
        final(out)@ == old(out)@ + ip.text(),
{
    push_numeral(out, ip.bits / 0x100_0000, 10);
    out.push(46);
    push_numeral(out, ip.bits / 0x1_0000 % 0x100, 10);
    out.push(46);
    push_numeral(out, ip.bits / 0x100 % 0x100, 10);
    out.push(46);
    push_numeral(out, ip.bits % 0x100, 10);
    assert(out@ =~= old(out)@ + ip.text());
}

fn ipv6_groups(ip: Ipv6Addr) -> (groups: Vec<u16>)
    ensures
        groups@.len() == 8,
        forall|i: int| 0 <= i < 8 ==> #[trigger] groups@[i] as nat == ip.groups()[i],
{
    let mut groups: Vec<u16> = Vec::new();
    groups.push((ip.bits / 0x1_0000_0000_0000_0000_0000_0000_0000) as u16);
    groups.push((ip.bits / 0x1_0000_0000_0000_0000_0000_0000 % 0x1_0000) as u16);
    groups.push((ip.bits / 0x1_0000_0000_0000_0000_0000 % 0x1_0000) as u16);
    groups.push((ip.bits / 0x1_0000_0000_0000_0000 % 0x1_0000) as u16);
    groups.push((ip.bits / 0x1_0000_0000_0000 % 0x1_0000) as u16);
    groups.push((ip.bits / 0x1_0000_0000 % 0x1_0000) as u16);
    groups.push((ip.bits / 0x1_0000 % 0x1_0000) as u16);
    groups.push((ip.bits % 0x1_0000) as u16);
    groups
}

fn run_of_zeros(groups: &Vec<u16>, from: usize, Ghost(g): Ghost<Seq<nat>>) -> (n: usize)
    requires
        groups@.len() == 8,
        g.len() == 8,
        forall|i: int| 0 <= i < 8 ==> #[trigger] groups@[i] as nat == g[i],
        from <= 8,
    ensures
        n == zero_run(g, from as int),
        n <= 8,
    decreases 8 - from,
{
    proof {
        lemma_zero_run_fits(g, from as int);
    }
    if from < 8 && groups[from] == 0 {
        1 + run_of_zeros(groups, from + 1, Ghost(g))
    } else {
        0
    }
}

fn push_groups(out: &mut Vec<u8>, groups: &Vec<u16>, from: usize, to: usize, Ghost(g): Ghost<Seq<nat>>)
    requires
        groups@.len() == 8,
        g.len() == 8,
        forall|i: int| 0 <= i < 8 ==> #[trigger] groups@[i] as nat == g[i],
        from <= to <= 8,
    ensures
        final(out)@ == old(out)@ + colon_joined(g.subrange(from as int, to as int)),
{
    let mut i: usize = from;
    assert(out@ =~= out@ + colon_joined(g.subrange(from as int, i as int)));
    while i < to
        invariant
            groups@.len() == 8,
            g.len() == 8,
            forall|i: int| 0 <= i < 8 ==> #[trigger] groups@[i] as nat == g[i],
            from <= i <= to <= 8,
            out@ == old(out)@ + colon_joined(g.subrange(from as int, i as int)),
        decreases to - i,
    {
        if i > from {
            out.push(58);
        }
        push_numeral(out, groups[i] as u32, 16);
        proof {
            let part = g.subrange(from as int, i + 1);
            assert(part.drop_last() =~= g.subrange(from as int, i as int));
            assert(part.last() == g[i as int]);
            assert(i == from ==> part =~= seq![g[i as int]]);
            assert(out@ =~= old(out)@ + colon_joined(part));
        }
        i += 1;
    }
}

fn push_ipv6(out: &mut Vec<u8>, ip: Ipv6Addr)
    ensures
        final(out)@ == old(out)@ + ip.text(),
{
    if ip.bits / 0x1_0000_0000 == 0xffff {
        out.push(58);
        out.push(58);
        out.push(102);
        out.push(102);
        out.push(102);
        out.push(102);
        out.push(58);
        push_ipv4(out, Ipv4Addr { bits: (ip.bits % 0x1_0000_0000) as u32 });
        assert(out@ =~= old(out)@ + ip.text());
        return;
    }
    let ghost g = ip.groups();
    let groups: Vec<u16> = ipv6_groups(ip);
    let mut at: usize = 0;
    let mut n: usize = run_of_zeros(&groups, 0, Ghost(g));
    let mut i: usize = 1;
    while i < 8
        invariant
            groups@.len() == 8,
            g.len() == 8,
            forall|i: int| 0 <= i < 8 ==> #[trigger] groups@[i] as nat == g[i],
            1 <= i <= 8,
            at == longest_zero_run(g, i as int),
            at < i,
            n == zero_run(g, at as int),
        decreases 8 - i,
    {
        let run: usize = run_of_zeros(&groups, i, Ghost(g));
        if run > n {
            at = i;
            n = run;
        }
        i += 1;
    }
    proof {
        lemma_zero_run_fits(g, at as int);
    }
    if n > 1 {
        push_groups(out, &groups, 0, at, Ghost(g));
        out.push(58);
        out.push(58);
        push_groups(out, &groups, at + n, 8, Ghost(g));
    } else {
        push_groups(out, &groups, 0, 8, Ghost(g));
        assert(g.subrange(0, 8) =~= g);
    }
    assert(out@ =~= old(out)@ + ip.text());
}

/// The `::` of an IPv6 text stands for a run that no later run exceeds and
/// that every earlier run falls short of.
pub proof fn law_compressed_run_is_first_longest(ip: Ipv6Addr)
    ensures
        0 <= longest_zero_run(ip.groups(), 8) < 8,
        forall|j: int|
            0 <= j < 8 ==> #[trigger] zero_run(ip.groups(), j) <= zero_run(
                ip.groups(),
                longest_zero_run(ip.groups(), 8),
            ),
        forall|j: int|
            0 <= j < longest_zero_run(ip.groups(), 8) ==> #[trigger] zero_run(ip.groups(), j)
                < zero_run(ip.groups(), longest_zero_run(ip.groups(), 8)),
{
    lemma_longest_zero_run(ip.groups(), 8);
}

/// The four octets are those of the address, the highest first.
pub proof fn law_octets(ip: Ipv4Addr)
    ensures
        ip.octets().len() == 4,
        forall|i: int| 0 <= i < 4 ==> #[trigger] ip.octets()[i] < 256,
        ip.bits == ip.octets()[0] * 0x100_0000 + ip.octets()[1] * 0x1_0000 + ip.octets()[2] * 0x100
            + ip.octets()[3],
{
}

/// A digit is written as `0` to `9`, then `a` to `f`.
pub proof fn law_digits(d: nat)
    requires
        d < 16,
    ensures
        d < 10 ==> digit(d) == 48 + d,
        d >= 10 ==> digit(d) == 97 + (d - 10),
{
}

/// A numeral is written by its digits, the highest first, and with no zero in
/// front.
pub proof fn law_numerals(n: nat, base: nat)
    requires
        2 <= base <= 16,
    ensures
        n < base ==> numeral(n, base) == seq![digit(n)],
        n >= base ==> numeral(n, base) == numeral(n / base, base).push(digit(n % base)),
        n > 0 ==> numeral(n, base)[0] != 48,
        numeral(n, base).len() > 0,
    decreases n,
{
    if n >= base {
        assert(0 < n / base < n) by (nonlinear_arith)
            requires
                n >= base,
                base >= 2,
        ;
        law_numerals(n / base, base);
    }
}

/// A run of zeroes goes on to the first group that is not zero.
pub proof fn law_zero_run(g: Seq<nat>, i: int)
    requires
        0 <= i <= g.len(),
    ensures
        i + zero_run(g, i) <= g.len(),
        forall|j: int| i <= j < i + zero_run(g, i) ==> #[trigger] g[j] == 0,
        i + zero_run(g, i) < g.len() ==> g[i + zero_run(g, i)] != 0,
    decreases g.len() - i,
{
    if i < g.len() && g[i] == 0 {
        law_zero_run(g, i + 1);
    }
}

/// Groups are written in base sixteen with colons between them.
pub proof fn law_colon_joined(g: Seq<nat>, last: nat)
    ensures
        colon_joined(Seq::empty()) == Seq::<u8>::empty(),
        colon_joined(seq![last]) == numeral(last, 16),
        g.len() > 0 ==> colon_joined(g.push(last)) == colon_joined(g) + seq![58u8] + numeral(
            last,
            16,
        ),
{
    assert(g.push(last).drop_last() =~= g);
}

/// What the special addresses are.
pub proof fn law_special_addresses(v4: Ipv4Addr, v6: Ipv6Addr)
    ensures
        IpAddr::V4(v4).spec_is_loopback() <==> 0x7f00_0000 <= v4.bits < 0x8000_0000,
        IpAddr::V6(v6).spec_is_loopback() <==> v6.bits == 1,
        IpAddr::V4(v4).spec_is_unspecified() <==> v4.bits == 0,
        IpAddr::V6(v6).spec_is_unspecified() <==> v6.bits == 0,
        v6.is_mapped() <==> 0xffff_0000_0000 <= v6.bits < 0x1_0000_0000_0000,
        v6.is_mapped() ==> v6.bits == 0xffff_0000_0000 + v6.mapped().bits,
{
}

/// A bare address carries no flow and no scope.
pub proof fn law_bare_address(ip: IpAddr, port: u16)
    ensures
        SocketAddr::spec_new(ip, port).ip == ip,
        SocketAddr::spec_new(ip, port).port == port,
        SocketAddr::spec_new(ip, port).flowinfo == 0,
        SocketAddr::spec_new(ip, port).scope_id == 0,
{
}

proof fn lemma_split_group(bits: int, low: int)
    requires
        0 <= bits,
        low > 0,
    ensures
        bits / low == bits / (low * 0x1_0000) * 0x1_0000 + bits / low % 0x1_0000,
{
    vstd::arithmetic::div_mod::lemma_div_denominator(bits, low, 0x1_0000);
}

/// The eight groups are those of the address, the highest first: read as digits
/// of base 65 536 they give it back.
pub proof fn law_groups(ip: Ipv6Addr)
    ensures
        ip.groups().len() == 8,
        forall|i: int| 0 <= i < 8 ==> #[trigger] ip.groups()[i] == ip.group(i),
        ip.group(1) < 0x1_0000 && ip.group(2) < 0x1_0000 && ip.group(3) < 0x1_0000,
        ip.group(4) < 0x1_0000 && ip.group(5) < 0x1_0000 && ip.group(6) < 0x1_0000,
        ip.group(7) < 0x1_0000,
        ip.bits == ((((((ip.group(0) * 0x1_0000 + ip.group(1)) * 0x1_0000 + ip.group(2)) * 0x1_0000
            + ip.group(3)) * 0x1_0000 + ip.group(4)) * 0x1_0000 + ip.group(5)) * 0x1_0000
            + ip.group(6)) * 0x1_0000 + ip.group(7),
{
    let b = ip.bits as int;
    lemma_split_group(b, 1);
    lemma_split_group(b, 0x1_0000);
    lemma_split_group(b, 0x1_0000_0000);
    lemma_split_group(b, 0x1_0000_0000_0000);
    lemma_split_group(b, 0x1_0000_0000_0000_0000);
    lemma_split_group(b, 0x1_0000_0000_0000_0000_0000);
    lemma_split_group(b, 0x1_0000_0000_0000_0000_0000_0000);
}

/// An IPv4 address is written by its octets with dots between them; a mapped
/// one likewise behind its prefix; any other IPv6 address by its groups, where
/// the first of its longest runs of zeroes, if longer than one, is left out
/// between two colons.
pub proof fn law_address_texts(v4: Ipv4Addr, v6: Ipv6Addr)
    ensures
        v4.text() == numeral(v4.octets()[0], 10) + seq![46u8] + numeral(v4.octets()[1], 10)
            + seq![46u8] + numeral(v4.octets()[2], 10) + seq![46u8] + numeral(v4.octets()[3], 10),
        IpAddr::V4(v4).text() == v4.text(),
        IpAddr::V6(v6).text() == v6.text(),
        v6.is_mapped() ==> v6.text() == seq![58u8, 58u8, 102u8, 102u8, 102u8, 102u8, 58u8]
            + v6.mapped().text(),
        !v6.is_mapped() ==> {
            let g = v6.groups();
            let at = longest_zero_run(g, 8);
            let n = zero_run(g, at);
            &&& n <= 1 ==> v6.text() == colon_joined(g)
            &&& n > 1 ==> v6.text() == colon_joined(g.take(at)) + seq![58u8, 58u8] + colon_joined(
                g.skip(at + n),
            )
        },
{
    let g = v6.groups();
    let at = longest_zero_run(g, 8);
    let n = zero_run(g, at);
    lemma_longest_zero_run(g, 8);
    lemma_zero_run_fits(g, at);
    assert(g.take(at) =~= g.subrange(0, at));
    assert(g.skip(at + n) =~= g.subrange(at + n, 8));
}

} // verus!
