//! Bounded birthday windows: which ports a session guesses, how many sockets
//! it asks for, and which socket probes which target in which wave.

use vstd::prelude::*;
use std::collections::HashSet;
use crate::net::{IpAddr, SocketAddr};

verus! {

broadcast use vstd::std_specs::hash::group_hash_axioms;

/// Nanoseconds between two waves.
pub const HARD_HARD_BIRTHDAY_WAVE_INTERVAL: u64 = 20_000_000;

pub const HARD_HARD_BIRTHDAY_WAVES: usize = 2;

/// The number of UDP ports other than zero.
pub const PORT_RING: u64 = 65_535;

/// One round of the FNV-1a hash.
pub open spec fn fnv_round(hash: u64, byte: u8) -> u64 {
    (hash ^ (byte as u64)).wrapping_mul(0x100000001b3u64)
}

/// The FNV-1a hash of a byte string.
pub open spec fn fnv(bytes: Seq<u8>) -> u64
    decreases bytes.len(),
{
    if bytes.len() == 0 {
        0xcbf29ce484222325
    } else {
        fnv_round(fnv(bytes.drop_last()), bytes.last())
    }
}

/// The seed of a session's window: the hash of the public address, written
/// out, and the session token.
pub open spec fn window_seed(ip: IpAddr, token: Seq<char>) -> u64 {
    fnv(ip.text() + vstd::utf8::encode_utf8(token))
}

/// The greatest common divisor.
pub open spec fn gcd(a: nat, b: nat) -> nat
    decreases a,
{
    if a == 0 {
        b
    } else {
        gcd(b % a, a)
    }
}

/// The first of `s`, `s + 2`, `s + 4` and so on that has no divisor in common
/// with the port ring. For an odd `s` that is 65533 at the latest.
pub open spec fn coprime_from(s: nat) -> nat
    decreases 65_535 - s,
{
    if s >= 65_533 || gcd(s, 65_535) == 1 {
        s
    } else {
        coprime_from(s + 2)
    }
}

/// The odd step with which a window walks the port ring: it visits every port
/// before it repeats one.
pub open spec fn window_stride(seed: u64) -> u64 {
    let r = seed % 65_534;
    coprime_from(
        if r % 2 == 0 {
            (r + 1) as nat
        } else {
            r as nat
        },
    ) as u64
}

/// A divisor of two numbers that is a sum of multiples of them: their
/// greatest common one.
proof fn lemma_bezout(a: nat, b: nat) -> (r: (int, int))
    ensures
        r.0 * a + r.1 * b == gcd(a, b),
    decreases a,
{
    if a == 0 {
        (0, 1)
    } else {
        let (x, y) = lemma_bezout(b % a, a);
        let q = (b / a) as int;
        vstd::arithmetic::div_mod::lemma_fundamental_div_mod(b as int, a as int);
        assert((y - x * q) * a + x * b == x * (b % a) + y * a) by (nonlinear_arith)
            requires
                b == a * q + (b % a),
        ;
        (y - x * q, x)
    }
}

proof fn lemma_coprime_from(s: nat)
    requires
        s % 2 == 1,
        s <= 65_533,
    ensures
        s <= coprime_from(s) <= 65_533,
        gcd(coprime_from(s), 65_535) == 1,
    decreases 65_533 - s,
{
    if s >= 65_533 {
        reveal_with_fuel(gcd, 4);
        assert(gcd(65_533, 65_535) == 1);
    } else if gcd(s, 65_535) != 1 {
        lemma_coprime_from(s + 2);
    }
}

/// A step that has no divisor in common with the ring comes back to its start
/// only after a whole round.
proof fn lemma_full_round(seed: u64, k: int)
    requires
        0 < k < 65_535,
    ensures
        (k * window_stride(seed) as int) % 65_535 != 0,
{
    lemma_stride(seed);
    let s = window_stride(seed) as nat;
    let (x, y) = lemma_bezout(s, 65_535);
    if (k * s) % 65_535 == 0 {
        let q = k * s / 65_535;
        vstd::arithmetic::div_mod::lemma_fundamental_div_mod(k * s, 65_535);
        assert(k == 65_535 * (x * q + y * k)) by (nonlinear_arith)
            requires
                x * s + y * 65_535 == 1,
                k * s == 65_535 * q,
        ;
        let w = x * q + y * k;
        assert(w <= 0 || w >= 1);
    }
}

/// The step is odd, as is what it is searched from, and smaller than the ring.
proof fn lemma_stride(seed: u64)
    ensures
        window_stride(seed) <= 65_533,
        gcd(window_stride(seed) as nat, 65_535) == 1,
{
    let r = seed % 65_534;
    lemma_coprime_from(
        if r % 2 == 0 {
            (r + 1) as nat
        } else {
            r as nat
        },
    );
}

fn common_divisor(a: u64, b: u64) -> (d: u64)
    ensures
        d == gcd(a as nat, b as nat),
{
    let mut x: u64 = a;
    let mut y: u64 = b;
    while x != 0
        invariant
            gcd(x as nat, y as nat) == gcd(a as nat, b as nat),
        decreases x,
    {
        let rest: u64 = y % x;
        y = x;
        x = rest;
    }
    y
}

/// The step of a seed.
fn find_stride(seed: u64) -> (stride: u64)
    ensures
        stride == window_stride(seed),
        stride <= 65_533,
{
    let reduced: u64 = seed % 65_534;
    let first: u64 = reduced | 1;
    assert(reduced % 2 == 0 ==> reduced | 1 == reduced + 1) by (bit_vector)
        requires
            reduced < 65_534,
    ;
    assert(reduced % 2 == 1 ==> reduced | 1 == reduced) by (bit_vector);
    let mut stride: u64 = first;
    while stride < 65_533 && common_divisor(stride, 65_535) != 1
        invariant
            stride % 2 == 1,
            stride <= 65_533,
            coprime_from(stride as nat) == coprime_from(first as nat),
        decreases 65_533 - stride,
    {
        stride = stride + 2;
    }
    proof {
        lemma_stride(seed);
    }
    stride
}

/// The port that a window visits at a step.
pub open spec fn ring_port(seed: u64, step: int) -> u16 {
    ((seed as int % 65_535 + step * window_stride(seed) as int) % 65_535 + 1) as u16
}

/// The ports that a window visits in `steps` steps.
pub open spec fn ring_ports(seed: u64, steps: nat) -> Seq<u16> {
    Seq::new(steps, |i: int| ring_port(seed, i))
}

/// The first occurrences in a list.
pub open spec fn deduplicated<A>(list: Seq<A>) -> Seq<A>
    decreases list.len(),
{
    if list.len() == 0 {
        Seq::empty()
    } else {
        let before = deduplicated(list.drop_last());
        if before.contains(list.last()) {
            before
        } else {
            before.push(list.last())
        }
    }
}

/// The first `n` elements, or all of a shorter list.
pub open spec fn at_most<A>(list: Seq<A>, n: nat) -> Seq<A> {
    if n <= list.len() {
        list.take(n as int)
    } else {
        list
    }
}

pub open spec fn nonzero(ports: Seq<u16>) -> Seq<u16>
    decreases ports.len(),
{
    if ports.len() == 0 {
        Seq::empty()
    } else if ports.last() == 0 {
        nonzero(ports.drop_last())
    } else {
        nonzero(ports.drop_last()).push(ports.last())
    }
}

/// How far a window of a level walks: once around the ring at most.
pub open spec fn window_steps(level: usize) -> nat {
    if 4 * level <= 65_535 {
        (4 * level) as nat
    } else {
        65_535
    }
}

/// The length of a window: the negotiated level, as far as there are ports.
pub open spec fn window_len(level: usize) -> nat {
    if level <= 65_535 {
        level as nat
    } else {
        65_535
    }
}

/// The ports that a window considers, the observed ones first.
pub open spec fn considered_ports(
    ip: IpAddr,
    observed: Seq<u16>,
    level: usize,
    token: Seq<char>,
) -> Seq<u16> {
    nonzero(observed) + ring_ports(window_seed(ip, token), window_steps(level))
}

/// The ports of a window: the first `level` different ones considered.
pub open spec fn window_ports(
    ip: IpAddr,
    observed: Seq<u16>,
    level: usize,
    token: Seq<char>,
) -> Seq<u16> {
    at_most(deduplicated(considered_ports(ip, observed, level, token)), level as nat)
}

proof fn lemma_deduplicated_len<A>(list: Seq<A>)
    ensures
        deduplicated(list).len() <= list.len(),
    decreases list.len(),
{
    if list.len() > 0 {
        lemma_deduplicated_len(list.drop_last());
    }
}

proof fn lemma_deduplicated_prefix<A>(list: Seq<A>, n: int)
    requires
        0 <= n <= list.len(),
    ensures
        deduplicated(list.take(n)).len() <= deduplicated(list).len(),
        deduplicated(list.take(n)) == deduplicated(list).take(
            deduplicated(list.take(n)).len() as int,
        ),
    decreases list.len(),
{
    if n == list.len() {
        assert(list.take(n) =~= list);
        assert(deduplicated(list) =~= deduplicated(list).take(deduplicated(list).len() as int));
    } else {
        let rest = list.drop_last();
        lemma_deduplicated_prefix(rest, n);
        assert(rest.take(n) =~= list.take(n));
        let k = deduplicated(list.take(n)).len() as int;
        assert(deduplicated(list).take(k) =~= deduplicated(rest).take(k));
    }
}

proof fn lemma_deduplicated_facts<A>(list: Seq<A>)
    ensures
        deduplicated(list).no_duplicates(),
        forall|i: int|
            0 <= i < deduplicated(list).len() ==> list.contains(#[trigger] deduplicated(list)[i]),
        forall|i: int|
            0 <= i < list.len() ==> deduplicated(list).contains(#[trigger] list[i]),
    decreases list.len(),
{
    if list.len() > 0 {
        let rest = list.drop_last();
        lemma_deduplicated_facts(rest);
        let d = deduplicated(list);
        let r = deduplicated(rest);
        assert forall|i: int| 0 <= i < d.len() implies list.contains(#[trigger] d[i]) by {
            if i < r.len() {
                assert(rest.contains(r[i]));
                let j = choose|j: int| 0 <= j < rest.len() && rest[j] == r[i];
                assert(list[j] == d[i]);
            } else {
                assert(list[list.len() - 1] == d[i]);
            }
        }
        assert forall|i: int| 0 <= i < list.len() implies d.contains(#[trigger] list[i]) by {
            if i < rest.len() {
                assert(r.contains(rest[i]));
                let j = choose|j: int| 0 <= j < r.len() && r[j] == rest[i];
                assert(d[j] == list[i]);
            } else if !r.contains(list[i]) {
                assert(d[d.len() - 1] == list[i]);
            } else {
                let j = choose|j: int| 0 <= j < r.len() && r[j] == list[i];
                assert(d[j] == list[i]);
            }
        }
    }
}

/// A list whose first `n` elements differ keeps at least those.
proof fn lemma_deduplicated_at_least<A>(list: Seq<A>, n: int)
    requires
        0 <= n <= list.len(),
        list.take(n).no_duplicates(),
    ensures
        deduplicated(list).len() >= n,
{
    lemma_deduplicated_prefix(list, n);
    lemma_deduplicated_of_distinct(list.take(n));
}

proof fn lemma_deduplicated_of_distinct<A>(list: Seq<A>)
    requires
        list.no_duplicates(),
    ensures
        deduplicated(list) == list,
    decreases list.len(),
{
    if list.len() > 0 {
        let rest = list.drop_last();
        lemma_deduplicated_of_distinct(rest);
        assert(!rest.contains(list.last())) by {
            if rest.contains(list.last()) {
                let j = choose|j: int| 0 <= j < rest.len() && rest[j] == list.last();
                assert(list[j] == list[list.len() - 1]);
            }
        }
        assert(deduplicated(list) =~= list);
    } else {
        assert(deduplicated(list) =~= list);
    }
}

proof fn lemma_more_distinct<A>(head: Seq<A>, tail: Seq<A>)
    ensures
        deduplicated(head + tail).len() >= deduplicated(tail).len(),
{
    let d = deduplicated(head + tail);
    let t = deduplicated(tail);
    lemma_deduplicated_facts(head + tail);
    lemma_deduplicated_facts(tail);
    assert(t.to_set().subset_of(d.to_set())) by {
        assert forall|a: A| t.to_set().contains(a) implies d.to_set().contains(a) by {
            let i = choose|i: int| 0 <= i < t.len() && t[i] == a;
            assert(tail.contains(t[i]));
            let j = choose|j: int| 0 <= j < tail.len() && tail[j] == t[i];
            assert((head + tail)[head.len() + j] == a);
            assert(d.contains((head + tail)[head.len() + j]));
        }
    }
    t.unique_seq_to_set();
    d.unique_seq_to_set();
    vstd::set_lib::lemma_len_subset(t.to_set(), d.to_set());
}

fn hash_bytes(bytes: &[u8], hash: u64, Ghost(before): Ghost<Seq<u8>>) -> (r: u64)
    requires
        hash == fnv(before),
    ensures
        r == fnv(before + bytes@),
{
    let mut hash: u64 = hash;
    let mut i: usize = 0;
    assert(before + bytes@.take(0) =~= before);
    while i < bytes.len()
        invariant
            i <= bytes@.len(),
            hash == fnv(before + bytes@.take(i as int)),
        decreases bytes@.len() - i,
    {
        proof {
            let next = before + bytes@.take(i + 1);
            assert(next.drop_last() =~= before + bytes@.take(i as int));
            assert(next.last() == bytes@[i as int]);
        }
        hash = (hash ^ (bytes[i] as u64)).wrapping_mul(0x100000001b3);
        i += 1;
    }
    assert(bytes@.take(i as int) =~= bytes@);
    hash
}

/// A session's guesses at the peer's ports: the observed ones first, then a
/// walk over the port ring that the token fixes, up to the negotiated level.
#[verifier::rlimit(30)]
pub fn hard_hard_birthday_candidates(
    public_ip: IpAddr,
    observed_ports: &[u16],
    level: usize,
    session_token: &str,
) -> (candidates: Vec<SocketAddr>)
    ensures
        candidates@.len() == window_len(level),
        ({
            let ports = window_ports(public_ip, observed_ports@, level, session_token@);
            &&& candidates@.len() == ports.len()
            &&& forall|i: int|
                0 <= i < ports.len() ==> #[trigger] candidates@[i] == SocketAddr::spec_new(
                    public_ip,
                    ports[i],
                )
        }),
{
    let mut candidates: Vec<SocketAddr> = Vec::new();
    let ip_text: Vec<u8> = public_ip.text_bytes();
    assert(Seq::<u8>::empty() + ip_text@ =~= ip_text@);
    let hash: u64 = hash_bytes(
        ip_text.as_slice(),
        0xcbf29ce484222325,
        Ghost(Seq::<u8>::empty()),
    );
    let seed: u64 = hash_bytes(session_token.as_bytes(), hash, Ghost(ip_text@));
    assert(seed == window_seed(public_ip, session_token@));
    let stride: u64 = find_stride(seed);
    proof {
        law_level_is_exact(public_ip, observed_ports@, level, session_token@);
    }
    let ghost all = considered_ports(public_ip, observed_ports@, level, session_token@);
    let ghost head = nonzero(observed_ports@);
    if level == 0 {
        return candidates;
    }
    let mut seen: HashSet<u16> = HashSet::new();
    let mut i: usize = 0;
    assert(observed_ports@.take(0) =~= Seq::empty());
    while i < observed_ports.len()
        invariant
            i <= observed_ports@.len(),
            head == nonzero(observed_ports@),
            candidates@.len() < level,
            window_ports(public_ip, observed_ports@, level, session_token@).len() == window_len(
                level,
            ),
            ({
                let d = deduplicated(nonzero(observed_ports@.take(i as int)));
                &&& candidates@.len() == d.len()
                &&& forall|j: int|
                    0 <= j < d.len() ==> #[trigger] candidates@[j] == SocketAddr::spec_new(
                        public_ip,
                        d[j],
                    )
                &&& forall|p: u16| #[trigger] seen@.contains(p) <==> d.contains(p)
            }),
            all == head + ring_ports(
                window_seed(public_ip, session_token@),
                window_steps(level),
            ),
            all == considered_ports(public_ip, observed_ports@, level, session_token@),
        decreases observed_ports@.len() - i,
    {
        let port: u16 = observed_ports[i];
        let ghost before = nonzero(observed_ports@.take(i as int));
        let ghost after = nonzero(observed_ports@.take(i + 1));
        proof {
            assert(observed_ports@.take(i + 1).drop_last() =~= observed_ports@.take(i as int));
            assert(observed_ports@.take(i + 1).last() == port);
            if port != 0 {
                assert(after.drop_last() =~= before);
            }
        }
        if port != 0 && seen.insert(port) {
            candidates.push(SocketAddr::new(public_ip, port));
            proof {
                let d = deduplicated(after);
                assert(d == deduplicated(before).push(port));
                assert forall|p: u16| #[trigger] seen@.contains(p) <==> d.contains(p) by {
                    if d.contains(p) && p != port {
                        let j = choose|j: int| 0 <= j < d.len() && d[j] == p;
                        assert(deduplicated(before)[j] == p);
                    }
                    if deduplicated(before).contains(p) {
                        let j = choose|j: int|
                            0 <= j < deduplicated(before).len() && deduplicated(before)[j] == p;
                        assert(d[j] == p);
                    }
                    assert(d[d.len() - 1] == port);
                }
            }
            if candidates.len() == level {
                proof {
                    lemma_nonzero_prefix(observed_ports@, i + 1);
                    let n = after.len() as int;
                    assert(all.take(n) =~= after);
                    lemma_deduplicated_prefix(all, n);
                }
                return candidates;
            }
        } else if port != 0 {
            assert(deduplicated(before).contains(port));
        }
        i += 1;
    }
    assert(observed_ports@.take(i as int) =~= observed_ports@);
    let origin: u64 = seed % 65_535;
    let steps: usize = if level <= 16_383 {
        level * 4
    } else {
        65_535
    };
    assert(all.take(head.len() as int) =~= head);
    assert forall|j: int| 0 <= j < steps implies #[trigger] all[head.len() + j] == ((origin + j
        * stride) % 65_535 + 1) as u16 by {
        assert(all[head.len() + j] == ring_port(seed, j));
    }
    let mut step: usize = 0;
    while step < steps
        invariant
            step <= steps,
            steps == window_steps(level),
            steps <= 65_535,
            candidates@.len() < level,
            all.len() == head.len() + steps,
            forall|j: int|
                0 <= j < steps ==> #[trigger] all[head.len() + j] == ((origin + j * stride) % 65_535
                    + 1) as u16,
            origin < 65_535,
            stride <= 65_533,
            window_ports(public_ip, observed_ports@, level, session_token@).len() == window_len(
                level,
            ),
            all == considered_ports(public_ip, observed_ports@, level, session_token@),
            ({
                let d = deduplicated(all.take(head.len() + step));
                &&& candidates@.len() == d.len()
                &&& forall|j: int|
                    0 <= j < d.len() ==> #[trigger] candidates@[j] == SocketAddr::spec_new(
                        public_ip,
                        d[j],
                    )
                &&& forall|p: u16| #[trigger] seen@.contains(p) <==> d.contains(p)
            }),
        decreases steps - step,
    {
        assert(step as int * stride as int <= 0xffff_ffff) by (nonlinear_arith)
            requires
                0 <= step < 65_535,
                0 <= stride <= 65_533,
        ;
        let port: u16 = ((origin + step as u64 * stride) % 65_535 + 1) as u16;
        let ghost n = (head.len() + step) as int;
        let ghost before = all.take(n);
        let ghost after = all.take(n + 1);
        proof {
            assert(after.drop_last() =~= before);
            assert(after.last() == all[head.len() + step]);
        }
        if seen.insert(port) {
            candidates.push(SocketAddr::new(public_ip, port));
            proof {
                let d = deduplicated(after);
                assert(d == deduplicated(before).push(port));
                assert forall|p: u16| #[trigger] seen@.contains(p) <==> d.contains(p) by {
                    if d.contains(p) && p != port {
                        let j = choose|j: int| 0 <= j < d.len() && d[j] == p;
                        assert(deduplicated(before)[j] == p);
                    }
                    if deduplicated(before).contains(p) {
                        let j = choose|j: int|
                            0 <= j < deduplicated(before).len() && deduplicated(before)[j] == p;
                        assert(d[j] == p);
                    }
                    assert(d[d.len() - 1] == port);
                }
            }
            if candidates.len() == level {
                proof {
                    lemma_deduplicated_prefix(all, n + 1);
                }
                return candidates;
            }
        } else {
            assert(deduplicated(before).contains(port));
        }
        step += 1;
    }
    assert(all.take(head.len() + step) =~= all);
    candidates
}

proof fn lemma_nonzero_prefix(ports: Seq<u16>, n: int)
    requires
        0 <= n <= ports.len(),
    ensures
        nonzero(ports.take(n)).len() <= nonzero(ports).len(),
        nonzero(ports).take(nonzero(ports.take(n)).len() as int) == nonzero(ports.take(n)),
    decreases ports.len(),
{
    if n == ports.len() {
        assert(ports.take(n) =~= ports);
        assert(nonzero(ports).take(nonzero(ports).len() as int) =~= nonzero(ports));
    } else {
        let rest = ports.drop_last();
        lemma_nonzero_prefix(rest, n);
        assert(rest.take(n) =~= ports.take(n));
        let k = nonzero(ports.take(n)).len() as int;
        assert(nonzero(ports).take(k) =~= nonzero(rest).take(k));
    }
}

/// A window holds at most `level` ports, all different and none of them zero.
pub proof fn law_window_is_bounded_and_distinct(
    ip: IpAddr,
    observed: Seq<u16>,
    level: usize,
    token: Seq<char>,
)
    ensures
        ({
            let ports = window_ports(ip, observed, level, token);
            &&& ports.len() <= level
            &&& ports.no_duplicates()
            &&& forall|i: int| 0 <= i < ports.len() ==> #[trigger] ports[i] != 0
        }),
{
    let all = considered_ports(ip, observed, level, token);
    let ports = window_ports(ip, observed, level, token);
    lemma_deduplicated_facts(all);
    assert forall|i: int| 0 <= i < ports.len() implies #[trigger] ports[i] != 0 by {
        assert(ports[i] == deduplicated(all)[i]);
        assert(all.contains(deduplicated(all)[i]));
        let j = choose|j: int| 0 <= j < all.len() && all[j] == ports[i];
        if j < nonzero(observed).len() {
            lemma_nonzero(observed, j);
        } else {
            let s = window_seed(ip, token);
            assert(all[j] == ring_port(s, j - nonzero(observed).len()));
        }
    }
}

proof fn lemma_nonzero(ports: Seq<u16>, i: int)
    requires
        0 <= i < nonzero(ports).len(),
    ensures
        nonzero(ports)[i] != 0,
    decreases ports.len(),
{
    if ports.len() > 0 && i < nonzero(ports.drop_last()).len() {
        lemma_nonzero(ports.drop_last(), i);
    }
}

/// A window holds exactly as many ports as its level asks for, and every port
/// there is where it asks for more.
pub proof fn law_level_is_exact(ip: IpAddr, observed: Seq<u16>, level: usize, token: Seq<char>)
    ensures
        window_ports(ip, observed, level, token).len() == window_len(level),
{
    let seed = window_seed(ip, token);
    let ring = ring_ports(seed, window_steps(level));
    let n = window_len(level) as int;
    let first = ring.take(n);
    assert(first.no_duplicates()) by {
        assert forall|i: int, j: int| 0 <= i < j < first.len() implies first[i] != first[j] by {
            if first[i] == first[j] {
                assert(ring_port(seed, i) == ring_port(seed, j));
                lemma_walk_comes_back(
                    seed as int % 65_535,
                    window_stride(seed) as int,
                    i,
                    j,
                );
                lemma_full_round(seed, j - i);
            }
        }
    }
    lemma_deduplicated_at_least(ring, n);
    lemma_more_distinct(nonzero(observed), ring);
    law_window_is_bounded_and_distinct(ip, observed, level, token);
    lemma_few_ports(window_ports(ip, observed, level, token));
}

/// The walk of a session is a permutation of the port ring: one round visits
/// every port other than zero exactly once.
pub proof fn law_walk_is_a_permutation(seed: u64)
    ensures
        ring_ports(seed, 65_535).no_duplicates(),
        forall|p: u16| #[trigger] ring_ports(seed, 65_535).contains(p) <==> p != 0,
{
    let ring = ring_ports(seed, 65_535);
    let numbers = ring.map_values(|p: u16| p as int);
    assert forall|i: int, j: int| 0 <= i < j < ring.len() implies ring[i] != ring[j] by {
        if ring[i] == ring[j] {
            assert(ring_port(seed, i) == ring_port(seed, j));
            lemma_walk_comes_back(seed as int % 65_535, window_stride(seed) as int, i, j);
            lemma_full_round(seed, j - i);
        }
    }
    assert(numbers.no_duplicates());
    numbers.unique_seq_to_set();
    vstd::set_lib::lemma_int_range(1, 65_536);
    assert forall|n: int| numbers.to_set().contains(n) implies 1 <= n < 65_536 by {
        let i = choose|i: int| 0 <= i < numbers.len() && numbers[i] == n;
        assert(ring[i] == ring_port(seed, i));
    }
    vstd::set_lib::lemma_subset_equality(
        numbers.to_set(),
        vstd::set_lib::set_int_range(1, 65_536),
    );
    assert forall|p: u16| #[trigger] ring.contains(p) <==> p != 0 by {
        if p != 0 {
            assert(numbers.to_set().contains(p as int));
            let i = choose|i: int| 0 <= i < numbers.len() && numbers[i] == p as int;
            assert(ring[i] == p);
        }
        if ring.contains(p) {
            let i = choose|i: int| 0 <= i < ring.len() && ring[i] == p;
            assert(numbers[i] == p as int);
            assert(numbers.to_set().contains(p as int));
        }
    }
}

/// There are 65535 different ports other than zero.
proof fn lemma_few_ports(ports: Seq<u16>)
    requires
        ports.no_duplicates(),
        forall|i: int| 0 <= i < ports.len() ==> #[trigger] ports[i] != 0,
    ensures
        ports.len() <= 65_535,
{
    let numbers = ports.map_values(|p: u16| p as int);
    assert(numbers.no_duplicates());
    numbers.unique_seq_to_set();
    vstd::set_lib::lemma_int_range(1, 65_536);
    vstd::set_lib::lemma_len_subset(numbers.to_set(), vstd::set_lib::set_int_range(1, 65_536));
}

/// A walk that visits a port twice comes back to its start in as many steps
/// as lie between the two visits.
proof fn lemma_walk_comes_back(o: int, stride: int, i: int, j: int)
    requires
        (o + i * stride) % 65_535 == (o + j * stride) % 65_535,
    ensures
        ((j - i) * stride) % 65_535 == 0,
{
    let a = o + i * stride;
    let b = o + j * stride;
    vstd::arithmetic::div_mod::lemma_fundamental_div_mod(a, 65_535);
    vstd::arithmetic::div_mod::lemma_fundamental_div_mod(b, 65_535);
    let q = b / 65_535 - a / 65_535;
    assert((j - i) * stride == b - a) by (nonlinear_arith)
        requires
            a == o + i * stride,
            b == o + j * stride,
    ;
    vstd::arithmetic::div_mod::lemma_fundamental_div_mod_converse(b - a, 65_535, q, 0);
}

/// The sockets that a level asks for.
pub open spec fn sockets_for(level: usize) -> usize {
    if level <= 64 {
        2
    } else if level <= 128 {
        4
    } else {
        8
    }
}

pub fn hard_hard_birthday_socket_count(level: usize) -> (n: usize)
    ensures
        n == sockets_for(level),
{
    if level <= 64 {
        2
    } else if level <= 128 {
        4
    } else {
        8
    }
}

/// The three levels: what is asked for is rounded up to one of them.
pub open spec fn rounded_level(level: usize) -> usize {
    if level <= 64 {
        64
    } else if level <= 128 {
        128
    } else {
        256
    }
}

pub fn round_level(level: usize) -> (r: usize)
    ensures
        r == rounded_level(level),
{
    if level <= 64 {
        64
    } else if level <= 128 {
        128
    } else {
        256
    }
}

/// The largest of two, four and eight sockets that are attached and asked
/// for, with the level that they carry.
pub open spec fn capacity_plan(requested_level: usize, attached: usize) -> Option<(usize, usize)> {
    let wanted = sockets_for(requested_level);
    if attached >= 8 && wanted == 8 {
        Some((256, 8))
    } else if attached >= 4 && wanted >= 4 {
        Some((128, 4))
    } else if attached >= 2 {
        Some((64, 2))
    } else {
        None
    }
}

pub fn hard_hard_birthday_capacity_plan(
    requested_level: usize,
    attached_socket_count: usize,
) -> (plan: Option<(usize, usize)>)
    ensures
        plan == capacity_plan(requested_level, attached_socket_count),
{
    let requested_level: usize = round_level(requested_level);
    let requested_socket_count: usize = hard_hard_birthday_socket_count(requested_level);
    let available_socket_count: usize = if attached_socket_count >= 8 {
        8
    } else if attached_socket_count >= 4 {
        4
    } else if attached_socket_count >= 2 {
        2
    } else {
        return None;
    };
    let actual_socket_count: usize = if available_socket_count < requested_socket_count {
        available_socket_count
    } else {
        requested_socket_count
    };
    match actual_socket_count {
        2 => Some((64, 2)),
        4 => Some((128, 4)),
        _ => Some((256, 8)),
    }
}

/// A downgrade never exceeds what was asked for nor what is attached, and the
/// level fits the sockets.
pub proof fn law_capacity_plan_is_capped(requested_level: usize, attached: usize)
    ensures
        match capacity_plan(requested_level, attached) {
            Some((level, sockets)) => {
                &&& sockets <= attached
                &&& sockets <= sockets_for(requested_level)
                &&& level <= rounded_level(requested_level)
                &&& sockets_for(level) == sockets
            },
            None => attached < 2,
        },
{
}

/// One requested socket of a session, as it stands.
#[derive(Clone, Copy, Debug, PartialEq, Eq, Structural)]
pub struct HardHardSocketSnapshot {
    pub socket_index: usize,
    pub attached: bool,
    pub usable: bool,
}

#[derive(Debug)]
pub struct BirthdaySocketPlan {
    pub requested_socket_count: usize,
    pub attached_socket_count: usize,
    pub usable_socket_count: usize,
    pub unavailable_socket_count: usize,
    pub usable_socket_indices: Vec<usize>,
}

/// The usable sockets of a snapshot, in its order.
pub open spec fn usable_sockets(snapshot: Seq<HardHardSocketSnapshot>) -> Seq<usize>
    decreases snapshot.len(),
{
    if snapshot.len() == 0 {
        Seq::empty()
    } else if snapshot.last().usable {
        usable_sockets(snapshot.drop_last()).push(snapshot.last().socket_index)
    } else {
        usable_sockets(snapshot.drop_last())
    }
}

pub open spec fn attached_sockets(snapshot: Seq<HardHardSocketSnapshot>) -> nat
    decreases snapshot.len(),
{
    if snapshot.len() == 0 {
        0
    } else {
        attached_sockets(snapshot.drop_last()) + if snapshot.last().attached {
            1nat
        } else {
            0
        }
    }
}

/// The only sockets that a birthday session may use. There is no substitute
/// for a missing one: it stays unavailable and lowers the plan.
pub fn hard_hard_birthday_socket_plan(
    requested_level: usize,
    snapshot: Vec<HardHardSocketSnapshot>,
) -> (plan: BirthdaySocketPlan)
    ensures
        plan.requested_socket_count == sockets_for(requested_level),
        plan.attached_socket_count == attached_sockets(snapshot@),
        plan.usable_socket_indices@ == usable_sockets(snapshot@),
        plan.usable_socket_count == usable_sockets(snapshot@).len(),
        plan.unavailable_socket_count == if plan.usable_socket_count
            < plan.requested_socket_count {
            plan.requested_socket_count - plan.usable_socket_count
        } else {
            0
        },
{
    let requested_socket_count: usize = hard_hard_birthday_socket_count(requested_level);
    let mut attached_socket_count: usize = 0;
    let mut usable_socket_indices: Vec<usize> = Vec::new();
    let mut i: usize = 0;
    assert(snapshot@.take(0) =~= Seq::empty());
    while i < snapshot.len()
        invariant
            i <= snapshot@.len(),
            attached_socket_count <= i,
            attached_socket_count == attached_sockets(snapshot@.take(i as int)),
            usable_socket_indices@ == usable_sockets(snapshot@.take(i as int)),
        decreases snapshot@.len() - i,
    {
        assert(snapshot@.take(i + 1).drop_last() =~= snapshot@.take(i as int));
        let entry: HardHardSocketSnapshot = snapshot[i];
        if entry.attached {
            attached_socket_count += 1;
        }
        if entry.usable {
            usable_socket_indices.push(entry.socket_index);
        }
        i += 1;
    }
    assert(snapshot@.take(i as int) =~= snapshot@);
    let usable_socket_count: usize = usable_socket_indices.len();
    BirthdaySocketPlan {
        requested_socket_count,
        attached_socket_count,
        usable_socket_count,
        unavailable_socket_count: requested_socket_count.saturating_sub(usable_socket_count),
        usable_socket_indices,
    }
}

/// The waves of a plan: a second one needs a second socket.
pub open spec fn waves_for(socket_count: usize) -> usize {
    if socket_count == 0 {
        0
    } else if socket_count == 1 {
        1
    } else {
        HARD_HARD_BIRTHDAY_WAVES
    }
}

pub fn hard_hard_birthday_wave_count(socket_count: usize) -> (n: usize)
    ensures
        n == waves_for(socket_count),
{
    match socket_count {
        0 => 0,
        1 => 1,
        _ => HARD_HARD_BIRTHDAY_WAVES,
    }
}

/// The packets of a plan: every target once per wave.
pub open spec fn packets_for(socket_count: usize, target_count: usize) -> usize {
    if target_count * waves_for(socket_count) <= usize::MAX {
        (target_count * waves_for(socket_count)) as usize
    } else {
        usize::MAX
    }
}

pub fn hard_hard_birthday_packets_planned(socket_count: usize, target_count: usize) -> (n: usize)
    ensures
        n == packets_for(socket_count, target_count),
{
    let ghost w = waves_for(socket_count);
    assert(w == 0 ==> target_count * w == 0) by (nonlinear_arith);
    assert(w == 1 ==> target_count * w == target_count) by (nonlinear_arith);
    assert(w == 2 ==> target_count * w == target_count + target_count) by (nonlinear_arith);
    match hard_hard_birthday_wave_count(socket_count) {
        0 => 0,
        1 => target_count,
        _ => target_count.saturating_add(target_count),
    }
}

/// The socket that probes a target in a wave.
pub open spec fn socket_of(target: int, wave: int, sockets: int) -> int {
    (target + wave % sockets) % sockets
}

/// The targets of a socket in a wave, in order.
pub open spec fn assigned(
    targets: Seq<SocketAddr>,
    wave: int,
    sockets: int,
    socket: int,
) -> Seq<SocketAddr>
    decreases targets.len(),
{
    if targets.len() == 0 {
        Seq::empty()
    } else {
        let before = assigned(targets.drop_last(), wave, sockets, socket);
        if socket_of(targets.len() - 1, wave, sockets) == socket {
            before.push(targets.last())
        } else {
            before
        }
    }
}

/// Spreads the targets over the sockets. Every wave moves each target on by
/// one socket.
pub fn hard_hard_birthday_wave_assignments(
    socket_count: usize,
    targets: Vec<SocketAddr>,
    wave: usize,
) -> (assignments: Vec<Vec<SocketAddr>>)
    ensures
        assignments@.len() == socket_count,
        forall|s: int|
            0 <= s < socket_count ==> (#[trigger] assignments@[s])@ == assigned(
                targets@,
                wave as int,
                socket_count as int,
                s,
            ),
{
    let mut assignments: Vec<Vec<SocketAddr>> = Vec::new();
    if socket_count == 0 {
        return assignments;
    }
    while assignments.len() < socket_count
        invariant
            assignments@.len() <= socket_count,
            forall|s: int|
                0 <= s < assignments@.len() ==> (#[trigger] assignments@[s])@ == Seq::<
                    SocketAddr,
                >::empty(),
        decreases socket_count - assignments@.len(),
    {
        assignments.push(Vec::new());
    }
    let socket_offset: usize = wave % socket_count;
    let mut index: usize = 0;
    // The socket of the target at `index`.
    let mut socket: usize = socket_offset;
    proof {
        assert(socket_offset as int % socket_count as int == socket_offset) by (nonlinear_arith)
            requires
                0 <= socket_offset < socket_count,
        ;
    }
    while index < targets.len()
        invariant
            socket_count > 0,
            index <= targets@.len(),
            assignments@.len() == socket_count,
            socket < socket_count,
            socket_offset == wave % socket_count,
            socket == socket_of(index as int, wave as int, socket_count as int),
            forall|s: int|
                0 <= s < socket_count ==> (#[trigger] assignments@[s])@ == assigned(
                    targets@.take(index as int),
                    wave as int,
                    socket_count as int,
                    s,
                ),
        decreases targets@.len() - index,
    {
        let ghost before = assignments@;
        assignments[socket].push(targets[index]);
        proof {
            assert(targets@.take(index + 1).drop_last() =~= targets@.take(index as int));
            assert forall|s: int| 0 <= s < socket_count implies (#[trigger] assignments@[s])@
                == assigned(
                targets@.take(index + 1),
                wave as int,
                socket_count as int,
                s,
            ) by {
                assert(before[s]@ == assigned(
                    targets@.take(index as int),
                    wave as int,
                    socket_count as int,
                    s,
                ));
            }
            lemma_next_socket(index as int, wave as int, socket_count as int);
        }
        index += 1;
        socket = if socket < socket_count - 1 {
            socket + 1
        } else {
            0
        };
    }
    assert(targets@.take(index as int) =~= targets@);
    assignments
}

/// The next target goes to the next socket around.
proof fn lemma_next_socket(target: int, wave: int, sockets: int)
    requires
        sockets > 0,
    ensures
        socket_of(target + 1, wave, sockets) == if socket_of(target, wave, sockets) + 1 < sockets {
            socket_of(target, wave, sockets) + 1
        } else {
            0
        },
{
    let a = target + wave % sockets;
    let q = a / sockets;
    let r = a % sockets;
    vstd::arithmetic::div_mod::lemma_fundamental_div_mod(a, sockets);
    vstd::arithmetic::div_mod::lemma_mod_bound(a, sockets);
    assert(a == q * sockets + r) by (nonlinear_arith)
        requires
            a == sockets * q + r,
    ;
    if r + 1 < sockets {
        vstd::arithmetic::div_mod::lemma_fundamental_div_mod_converse(a + 1, sockets, q, r + 1);
    } else {
        assert((q + 1) * sockets == q * sockets + sockets) by (nonlinear_arith);
        vstd::arithmetic::div_mod::lemma_fundamental_div_mod_converse(a + 1, sockets, q + 1, 0);
    }
}

/// With two or more sockets the second wave probes every target from another
/// socket than the first.
pub proof fn law_second_wave_rotates(target: int, sockets: int)
    requires
        target >= 0,
        sockets >= 2,
    ensures
        socket_of(target, 0, sockets) != socket_of(target, 1, sockets),
        0 <= socket_of(target, 0, sockets) < sockets,
        0 <= socket_of(target, 1, sockets) < sockets,
{
    assert(0int % sockets == 0 && 1int % sockets == 1) by (nonlinear_arith)
        requires
            sockets >= 2,
    ;
    vstd::arithmetic::div_mod::lemma_mod_bound(target, sockets);
    lemma_next_socket(target, 0, sockets);
}

/// The targets of all sockets below `n`, counted.
pub open spec fn assigned_in_total(
    targets: Seq<SocketAddr>,
    wave: int,
    sockets: int,
    n: int,
) -> nat
    decreases n,
{
    if n <= 0 {
        0
    } else {
        assigned_in_total(targets, wave, sockets, n - 1) + assigned(
            targets,
            wave,
            sockets,
            n - 1,
        ).len()
    }
}

/// A wave probes every target from exactly one socket: the target stands in
/// its socket's list, and the lists together are as long as the targets. There
/// is no product of sockets and targets.
pub proof fn law_wave_covers_every_target_once(
    targets: Seq<SocketAddr>,
    wave: int,
    sockets: int,
)
    requires
        wave >= 0,
        sockets > 0,
    ensures
        assigned_in_total(targets, wave, sockets, sockets) == targets.len(),
        forall|i: int|
            0 <= i < targets.len() ==> assigned(
                targets,
                wave,
                sockets,
                socket_of(i, wave, sockets),
            ).contains(#[trigger] targets[i]),
    decreases targets.len(),
{
    if targets.len() == 0 {
        lemma_nothing_assigned(targets, wave, sockets, sockets);
    } else {
        let rest = targets.drop_last();
        law_wave_covers_every_target_once(rest, wave, sockets);
        let last = socket_of(targets.len() - 1, wave, sockets);
        vstd::arithmetic::div_mod::lemma_mod_bound(wave, sockets);
        vstd::arithmetic::div_mod::lemma_mod_bound(
            targets.len() - 1 + wave % sockets,
            sockets,
        );
        lemma_one_more_assigned(targets, wave, sockets, sockets);
        assert forall|i: int| 0 <= i < targets.len() implies assigned(
            targets,
            wave,
            sockets,
            socket_of(i, wave, sockets),
        ).contains(#[trigger] targets[i]) by {
            let s = socket_of(i, wave, sockets);
            let before = assigned(rest, wave, sockets, s);
            let now = assigned(targets, wave, sockets, s);
            if i < rest.len() {
                assert(before.contains(rest[i]));
                let j = choose|j: int| 0 <= j < before.len() && before[j] == rest[i];
                assert(now[j] == targets[i]);
            } else {
                assert(now[now.len() - 1] == targets[i]);
            }
        }
    }
}

proof fn lemma_nothing_assigned(targets: Seq<SocketAddr>, wave: int, sockets: int, n: int)
    requires
        targets.len() == 0,
    ensures
        assigned_in_total(targets, wave, sockets, n) == 0,
    decreases n,
{
    if n > 0 {
        lemma_nothing_assigned(targets, wave, sockets, n - 1);
    }
}

proof fn lemma_one_more_assigned(targets: Seq<SocketAddr>, wave: int, sockets: int, n: int)
    requires
        targets.len() > 0,
        sockets > 0,
        0 <= n <= sockets,
    ensures
        assigned_in_total(targets, wave, sockets, n) == assigned_in_total(
            targets.drop_last(),
            wave,
            sockets,
            n,
        ) + if 0 <= socket_of(targets.len() - 1, wave, sockets) < n {
            1nat
        } else {
            0
        },
    decreases n,
{
    vstd::arithmetic::div_mod::lemma_mod_bound(targets.len() - 1 + wave % sockets, sockets);
    if n > 0 {
        lemma_one_more_assigned(targets, wave, sockets, n - 1);
    }
}

/// Agreeing on a lower level only shortens a window: its ports are the first
/// ones of the window of a higher level.
pub proof fn law_lower_level_is_a_prefix(
    ip: IpAddr,
    observed: Seq<u16>,
    low: usize,
    high: usize,
    token: Seq<char>,
)
    requires
        low <= high,
    ensures
        window_ports(ip, observed, low, token) == window_ports(ip, observed, high, token).take(
            window_len(low) as int,
        ),
{
    let short = considered_ports(ip, observed, low, token);
    let long = considered_ports(ip, observed, high, token);
    assert(long.take(short.len() as int) =~= short);
    lemma_deduplicated_prefix(long, short.len() as int);
    law_level_is_exact(ip, observed, low, token);
    law_level_is_exact(ip, observed, high, token);
    let a = window_ports(ip, observed, low, token);
    let b = window_ports(ip, observed, high, token);
    assert(a =~= b.take(window_len(low) as int));
}

/// The targets that the first `waves` waves hand out to all sockets, counted.
pub open spec fn handed_out(targets: Seq<SocketAddr>, sockets: int, waves: nat) -> nat
    decreases waves,
{
    if waves == 0 {
        0
    } else {
        handed_out(targets, sockets, (waves - 1) as nat) + assigned_in_total(
            targets,
            waves - 1,
            sockets,
            sockets,
        )
    }
}

/// The packets planned are the targets that all the waves hand out, as far as
/// the number fits.
pub proof fn law_planned_packets_are_handed_out(targets: Seq<SocketAddr>, sockets: usize)
    requires
        targets.len() <= usize::MAX,
    ensures
        packets_for(sockets, targets.len() as usize) == if handed_out(
            targets,
            sockets as int,
            waves_for(sockets) as nat,
        ) <= usize::MAX {
            handed_out(targets, sockets as int, waves_for(sockets) as nat)
        } else {
            usize::MAX as nat
        },
{
    if sockets > 0 {
        law_wave_covers_every_target_once(targets, 0, sockets as int);
        law_wave_covers_every_target_once(targets, 1, sockets as int);
        reveal_with_fuel(handed_out, 3);
    }
    let n = targets.len() as int;
    assert(n * 0 == 0 && n * 1 == n && n * 2 == n + n) by (nonlinear_arith);
}

/// The place of a socket in the order in which a wave serves them.
pub open spec fn turn_of(socket: int, wave: int, sockets: int) -> int {
    let first = wave % sockets;
    if socket >= first {
        socket - first
    } else {
        socket - first + sockets
    }
}

proof fn lemma_list_len(targets: Seq<SocketAddr>, wave: int, sockets: int, socket: int)
    requires
        wave >= 0,
        0 <= socket < sockets,
    ensures
        assigned(targets, wave, sockets, socket).len() == targets.len() as int / sockets + if turn_of(
            socket,
            wave,
            sockets,
        ) < targets.len() as int % sockets {
            1int
        } else {
            0
        },
        turn_of(socket_of(targets.len() as int, wave, sockets), wave, sockets)
            == targets.len() as int % sockets,
        0 <= socket_of(targets.len() as int, wave, sockets) < sockets,
        0 <= turn_of(socket, wave, sockets) < sockets,
    decreases targets.len(),
{
    let n = targets.len() as int;
    let first = wave % sockets;
    vstd::arithmetic::div_mod::lemma_mod_bound(wave, sockets);
    vstd::arithmetic::div_mod::lemma_mod_bound(n + first, sockets);
    if n == 0 {
        vstd::arithmetic::div_mod::lemma_small_mod(first as nat, sockets as nat);
        vstd::arithmetic::div_mod::lemma_fundamental_div_mod_converse(0, sockets, 0, 0);
    } else {
        let m = n - 1;
        lemma_list_len(targets.drop_last(), wave, sockets, socket);
        lemma_next_socket(m, wave, sockets);
        vstd::arithmetic::div_mod::lemma_fundamental_div_mod(m, sockets);
        vstd::arithmetic::div_mod::lemma_mod_bound(m, sockets);
        let q = m / sockets;
        let r = m % sockets;
        if r + 1 < sockets {
            assert(n == q * sockets + (r + 1)) by (nonlinear_arith)
                requires
                    m == sockets * q + r,
                    n == m + 1,
            ;
            vstd::arithmetic::div_mod::lemma_fundamental_div_mod_converse(n, sockets, q, r + 1);
        } else {
            assert(n == (q + 1) * sockets + 0) by (nonlinear_arith)
                requires
                    m == sockets * q + r,
                    n == m + 1,
                    r + 1 == sockets,
            ;
            vstd::arithmetic::div_mod::lemma_fundamental_div_mod_converse(n, sockets, q + 1, 0);
        }
    }
}

/// A wave spreads its targets evenly: the lists of two sockets differ by one
/// target at most.
pub proof fn law_wave_lists_are_even(
    targets: Seq<SocketAddr>,
    wave: int,
    sockets: int,
    one: int,
    other: int,
)
    requires
        wave >= 0,
        0 <= one < sockets,
        0 <= other < sockets,
    ensures
        assigned(targets, wave, sockets, one).len() <= assigned(
            targets,
            wave,
            sockets,
            other,
        ).len() + 1,
{
    lemma_list_len(targets, wave, sockets, one);
    lemma_list_len(targets, wave, sockets, other);
}

/// The level of a session decides how many sockets it asks for: two carry up
/// to 64 guesses, four up to 128, and eight everything above.
pub proof fn law_level_decides_the_sockets(level: usize)
    ensures
        level <= 64 ==> sockets_for(level) == 2,
        64 < level <= 128 ==> sockets_for(level) == 4,
        128 < level ==> sockets_for(level) == 8,
        rounded_level(level) == 32 * sockets_for(level),
        level <= 256 ==> level <= rounded_level(level),
        forall|other: usize|
            #![trigger rounded_level(other)]
            level <= rounded_level(other) ==> rounded_level(level) <= rounded_level(other),
{
}

/// The plan is the largest that fits: wherever two, four or eight sockets are
/// attached and no more than the level asks for, the plan has at least as
/// many, and carries 32 guesses for each of its sockets.
pub proof fn law_capacity_plan_is_the_largest(requested_level: usize, attached: usize, n: usize)
    requires
        n == 2 || n == 4 || n == 8,
        n <= attached,
        n == 4 ==> requested_level > 64,
        n == 8 ==> requested_level > 128,
    ensures
        capacity_plan(requested_level, attached) matches Some((level, sockets)) && sockets >= n
            && level == 32 * sockets,
{
}

/// No plan gives up a socket that a smaller request or fewer attached sockets
/// would have used.
pub proof fn law_capacity_plan_is_monotone(
    low_level: usize,
    high_level: usize,
    few: usize,
    many: usize,
)
    requires
        low_level <= high_level,
        few <= many,
    ensures
        few < 2 <==> capacity_plan(low_level, few) is None,
        capacity_plan(low_level, few) matches Some((level, sockets)) ==> (capacity_plan(
            high_level,
            many,
        ) matches Some((more, others)) && level <= more && sockets <= others),
        capacity_plan(low_level, few) matches Some((level, sockets)) ==> sockets <= few,
{
}

/// The usable sockets are those of the snapshot that are marked so, and the
/// attached ones are counted likewise.
pub proof fn law_plan_takes_the_marked_sockets(snapshot: Seq<HardHardSocketSnapshot>)
    ensures
        usable_sockets(snapshot) == snapshot.filter(
            |s: HardHardSocketSnapshot| s.usable,
        ).map_values(|s: HardHardSocketSnapshot| s.socket_index),
        attached_sockets(snapshot) == snapshot.filter(
            |s: HardHardSocketSnapshot| s.attached,
        ).len(),
    decreases snapshot.len(),
{
    reveal(Seq::filter);
    let usable = |s: HardHardSocketSnapshot| s.usable;
    let attached = |s: HardHardSocketSnapshot| s.attached;
    let index = |s: HardHardSocketSnapshot| s.socket_index;
    if snapshot.len() > 0 {
        law_plan_takes_the_marked_sockets(snapshot.drop_last());
        assert(usable_sockets(snapshot) =~= snapshot.filter(usable).map_values(index));
        assert(attached_sockets(snapshot) == snapshot.filter(attached).len());
    } else {
        assert(usable_sockets(snapshot) =~= snapshot.filter(usable).map_values(index));
    }
}

/// There is one wave for the first socket and one for all the others.
pub proof fn law_waves_follow_the_sockets(sockets: usize, targets: usize)
    ensures
        sockets < 2 ==> waves_for(sockets) == sockets,
        sockets >= 2 ==> waves_for(sockets) == 2,
        sockets >= 2 && 2 * targets <= usize::MAX ==> packets_for(sockets, targets) == 2 * targets,
        sockets == 1 ==> packets_for(sockets, targets) == targets,
        sockets == 0 ==> packets_for(sockets, targets) == 0,
{
    let n = targets as int;
    assert(n * 0 == 0 && n * 1 == n && n * 2 == n + n) by (nonlinear_arith);
}

/// The first wave deals the targets out like cards, and each further wave
/// moves every target on by one socket.
pub proof fn law_waves_deal_in_turn(target: int, wave: int, sockets: int)
    requires
        target >= 0,
        wave >= 0,
        sockets > 0,
    ensures
        socket_of(target, 0, sockets) == target % sockets,
        socket_of(target, wave + 1, sockets) == (socket_of(target, wave, sockets) + 1) % sockets,
        socket_of(target + 1, wave, sockets) == (socket_of(target, wave, sockets) + 1) % sockets,
        0 <= socket_of(target, wave, sockets) < sockets,
{
    vstd::arithmetic::div_mod::lemma_small_mod(0, sockets as nat);
    vstd::arithmetic::div_mod::lemma_mod_bound(target + wave % sockets, sockets);
    vstd::arithmetic::div_mod::lemma_add_mod_noop(target, wave, sockets);
    vstd::arithmetic::div_mod::lemma_add_mod_noop(target, wave % sockets, sockets);
    vstd::arithmetic::div_mod::lemma_mod_twice(wave, sockets);
    vstd::arithmetic::div_mod::lemma_add_mod_noop(target, wave + 1, sockets);
    vstd::arithmetic::div_mod::lemma_add_mod_noop(target, (wave + 1) % sockets, sockets);
    vstd::arithmetic::div_mod::lemma_mod_twice(wave + 1, sockets);
    vstd::arithmetic::div_mod::lemma_add_mod_noop(target + wave, 1, sockets);
    vstd::arithmetic::div_mod::lemma_add_mod_noop((target + wave) % sockets, 1, sockets);
    vstd::arithmetic::div_mod::lemma_mod_twice(target + wave, sockets);
    vstd::arithmetic::div_mod::lemma_add_mod_noop(target + 1, wave, sockets);
    vstd::arithmetic::div_mod::lemma_add_mod_noop(target + 1, wave % sockets, sockets);
    assert(socket_of(target, wave, sockets) == (target + wave) % sockets);
    assert(socket_of(target, wave + 1, sockets) == (target + wave + 1) % sockets);
    assert(socket_of(target + 1, wave, sockets) == (target + wave + 1) % sockets);
}

/// Every socket takes its targets in their order: target `i` stands at place
/// `i / sockets` of the list that it is dealt to.
pub proof fn law_lists_keep_the_order(
    targets: Seq<SocketAddr>,
    wave: int,
    sockets: int,
    i: int,
)
    requires
        wave >= 0,
        sockets > 0,
        0 <= i < targets.len(),
    ensures
        i / sockets < assigned(targets, wave, sockets, (i + wave) % sockets).len(),
        assigned(targets, wave, sockets, (i + wave) % sockets)[i / sockets] == targets[i],
    decreases targets.len(),
{
    let socket = (i + wave) % sockets;
    let init = targets.drop_last();
    law_waves_deal_in_turn(i, wave, sockets);
    vstd::arithmetic::div_mod::lemma_add_mod_noop(i, wave, sockets);
    vstd::arithmetic::div_mod::lemma_add_mod_noop(i, wave % sockets, sockets);
    vstd::arithmetic::div_mod::lemma_mod_twice(wave, sockets);
    assert(socket == socket_of(i, wave, sockets));
    if i == targets.len() - 1 {
        lemma_list_len(init, wave, sockets, socket);
    } else {
        law_lists_keep_the_order(init, wave, sockets, i);
    }
}

/// The observed ports come first: as far as the level goes, a window starts
/// with the different observed ports other than zero, in their order.
pub proof fn law_observed_ports_come_first(
    ip: IpAddr,
    observed: Seq<u16>,
    level: usize,
    token: Seq<char>,
    i: int,
)
    requires
        0 <= i < deduplicated(observed.filter(|p: u16| p != 0)).len(),
        i < window_len(level),
    ensures
        window_ports(ip, observed, level, token)[i] == deduplicated(
            observed.filter(|p: u16| p != 0),
        )[i],
{
    lemma_nonzero_is_filter(observed);
    let head = nonzero(observed);
    let all = considered_ports(ip, observed, level, token);
    assert(all.take(head.len() as int) =~= head);
    lemma_deduplicated_prefix(all, head.len() as int);
    law_level_is_exact(ip, observed, level, token);
}

proof fn lemma_nonzero_is_filter(ports: Seq<u16>)
    ensures
        nonzero(ports) == ports.filter(|p: u16| p != 0),
    decreases ports.len(),
{
    reveal(Seq::filter);
    if ports.len() > 0 {
        lemma_nonzero_is_filter(ports.drop_last());
    }
}

/// The seed of a window is the 64-bit FNV-1a hash of the address as it is
/// written and of the token: each byte is mixed in and spread, from the offset
/// basis on.
pub proof fn law_window_seed(bytes: Seq<u8>, byte: u8, ip: IpAddr, token: Seq<char>)
    ensures
        fnv(Seq::empty()) == 0xcbf2_9ce4_8422_2325,
        fnv(bytes.push(byte)) == (fnv(bytes) ^ (byte as u64)).wrapping_mul(0x0100_0000_01b3u64),
        window_seed(ip, token) == fnv(ip.text() + vstd::utf8::encode_utf8(token)),
{
    assert(bytes.push(byte).drop_last() =~= bytes);
}

proof fn lemma_quotients(a: nat, b: nat) -> (q: (nat, nat))
    ensures
        a == q.0 * gcd(a, b),
        b == q.1 * gcd(a, b),
    decreases a,
{
    let g = gcd(a, b);
    if a == 0 {
        assert(0 == 0 * g) by (nonlinear_arith);
        assert(b == 1 * g);
        (0, 1)
    } else {
        assert(b % a < a);
        let p = lemma_quotients(b % a, a);
        let k = b / a;
        assert(b == k * a + b % a) by (nonlinear_arith)
            requires
                k == b / a,
                a > 0,
        ;
        let q = k * p.1 + p.0;
        assert(b == q * g) by (nonlinear_arith)
            requires
                b == k * a + b % a,
                a == p.1 * g,
                b % a == p.0 * g,
                q == k * p.1 + p.0,
        ;
        (p.1, q)
    }
}

/// The greatest common divisor divides both numbers, and every number that
/// divides both divides it.
pub proof fn law_greatest_common_divisor(a: nat, b: nat, x: int, y: int, d: int)
    requires
        a == x * d,
        b == y * d,
    ensures
        exists|p: nat| a == #[trigger] (p * gcd(a, b)),
        exists|p: nat| b == #[trigger] (p * gcd(a, b)),
        exists|z: int| gcd(a, b) == #[trigger] (z * d),
{
    let g = gcd(a, b);
    let q = lemma_quotients(a, b);
    assert(a == q.0 * g);
    assert(b == q.1 * g);
    let r = lemma_bezout(a, b);
    let z = r.0 * x + r.1 * y;
    assert(g == z * d) by (nonlinear_arith)
        requires
            g == r.0 * a + r.1 * b,
            a == x * d,
            b == y * d,
            z == r.0 * x + r.1 * y,
    ;
}

/// The step of a walk is the first odd number from the seed's place on that has
/// no divisor in common with the ring.
pub proof fn law_stride_is_the_first_that_fits(seed: u64, t: nat)
    ensures
        ({
            let r = seed % 65_534;
            let s = window_stride(seed);
            &&& r <= s <= 65_533
            &&& s % 2 == 1
            &&& gcd(s as nat, 65_535) == 1
            &&& r <= t < s && t % 2 == 1 ==> gcd(t, 65_535) != 1
        }),
{
    let r = seed % 65_534;
    let start: nat = if r % 2 == 0 {
        (r + 1) as nat
    } else {
        r as nat
    };
    lemma_stride(seed);
    lemma_first_coprime(start, t);
}

proof fn lemma_first_coprime(s: nat, t: nat)
    requires
        s % 2 == 1,
        s <= 65_533,
    ensures
        s <= coprime_from(s) <= 65_533,
        coprime_from(s) % 2 == 1,
        s <= t < coprime_from(s) && t % 2 == 1 ==> gcd(t, 65_535) != 1,
    decreases 65_533 - s,
{
    if s < 65_533 && gcd(s, 65_535) != 1 {
        lemma_first_coprime(s + 2, t);
    }
}

/// The walk starts at the seed's place on the ring and goes on by its step; no
/// port of it is zero.
pub proof fn law_walk_goes_by_its_step(seed: u64, k: int, steps: nat, i: int)
    requires
        k >= 0,
        0 <= i < steps,
    ensures
        ring_port(seed, 0) == seed % 65_535 + 1,
        1 <= ring_port(seed, k) <= 65_535,
        ring_port(seed, k + 1) - 1 == (ring_port(seed, k) - 1 + window_stride(seed)) % 65_535,
        ring_ports(seed, steps).len() == steps,
        ring_ports(seed, steps)[i] == ring_port(seed, i),
{
    let s = window_stride(seed) as int;
    let o = seed as int % 65_535;
    assert(0 * s == 0);
    assert((k + 1) * s == k * s + s) by (nonlinear_arith);
    assert((o + k * s + s) % 65_535 == ((o + k * s) % 65_535 + s) % 65_535) by {
        vstd::arithmetic::div_mod::lemma_add_mod_noop(o + k * s, s, 65_535);
        vstd::arithmetic::div_mod::lemma_add_mod_noop((o + k * s) % 65_535, s, 65_535);
    }
}

/// A window looks at the observed ports first and then at four times its level
/// of the walk, but at no more than a round.
pub proof fn law_considered_ports(
    ip: IpAddr,
    observed: Seq<u16>,
    level: usize,
    token: Seq<char>,
    port: u16,
)
    ensures
        level <= 16_383 ==> window_steps(level) == 4 * level,
        level > 16_383 ==> window_steps(level) == 65_535,
        level <= 65_535 ==> window_len(level) == level,
        level > 65_535 ==> window_len(level) == 65_535,
        considered_ports(ip, observed, level, token).len() == nonzero(observed).len()
            + window_steps(level),
        considered_ports(ip, observed, level, token).take(nonzero(observed).len() as int)
            == nonzero(observed),
        considered_ports(ip, observed, level, token).skip(nonzero(observed).len() as int)
            == ring_ports(window_seed(ip, token), window_steps(level)),
        nonzero(Seq::empty()) == Seq::<u16>::empty(),
        nonzero(observed.push(port)) == if port == 0 {
            nonzero(observed)
        } else {
            nonzero(observed).push(port)
        },
{
    assert(observed.push(port).drop_last() =~= observed);
    let all = considered_ports(ip, observed, level, token);
    let n = nonzero(observed).len() as int;
    assert(all.take(n) =~= nonzero(observed));
    assert(all.skip(n) =~= ring_ports(window_seed(ip, token), window_steps(level)));
}

/// Of a list that is too long the first are taken, and of any other all;
/// dropping repetitions keeps the first of each.
pub proof fn law_first_of_a_list<A>(list: Seq<A>, n: nat, next: A)
    ensures
        list.len() <= n ==> at_most(list, n) == list,
        list.len() > n ==> at_most(list, n) == list.take(n as int),
        deduplicated(Seq::<A>::empty()) == Seq::<A>::empty(),
        list.contains(next) ==> deduplicated(list.push(next)) == deduplicated(list),
        !list.contains(next) ==> deduplicated(list.push(next)) == deduplicated(list).push(next),
{
    assert(list.push(next).drop_last() =~= list);
    lemma_deduplicated_facts(list);
    assert(list.contains(next) <==> deduplicated(list).contains(next)) by {
        if list.contains(next) {
            let i = choose|i: int| 0 <= i < list.len() && list[i] == next;
            assert(deduplicated(list).contains(list[i]));
        }
        if deduplicated(list).contains(next) {
            let i = choose|i: int| 0 <= i < deduplicated(list).len() && deduplicated(list)[i] == next;
            assert(list.contains(deduplicated(list)[i]));
        }
    }
    if list.len() == n {
        assert(list.take(n as int) =~= list);
    }
}

} // verus!
