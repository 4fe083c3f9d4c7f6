//! Datagram counts by socket, and lists of distinct endpoints.

use vstd::prelude::*;
use crate::net::SocketAddr;

verus! {

/// Rows of (socket index, datagrams).
pub type Histogram = Vec<(usize, u32)>;

pub open spec fn add32(a: u32, b: u32) -> u32 {
    if a + b <= u32::MAX {
        (a + b) as u32
    } else {
        u32::MAX
    }
}

pub open spec fn max32(a: u32, b: u32) -> u32 {
    if a >= b {
        a
    } else {
        b
    }
}

pub open spec fn add64(a: u64, b: u64) -> u64 {
    if a + b <= u64::MAX {
        (a + b) as u64
    } else {
        u64::MAX
    }
}

pub open spec fn max64(a: u64, b: u64) -> u64 {
    if a >= b {
        a
    } else {
        b
    }
}

/// A count that is held in thirty-two bits, at most the largest of them.
pub open spec fn clamp32(n: nat) -> u32 {
    if n <= u32::MAX {
        n as u32
    } else {
        u32::MAX
    }
}

pub fn clamp_u32(n: usize) -> (r: u32)
    ensures
        r == clamp32(n as nat),
{
    if n <= u32::MAX as usize {
        n as u32
    } else {
        u32::MAX
    }
}

pub fn max_u32(a: u32, b: u32) -> (r: u32)
    ensures
        r == max32(a, b),
{
    if a >= b {
        a
    } else {
        b
    }
}

pub fn max_u64(a: u64, b: u64) -> (r: u64)
    ensures
        r == max64(a, b),
{
    if a >= b {
        a
    } else {
        b
    }
}

/// All datagrams of a histogram.
pub open spec fn total(h: Seq<(usize, u32)>) -> nat
    decreases h.len(),
{
    if h.len() == 0 {
        0
    } else {
        total(h.drop_last()) + h.last().1 as nat
    }
}

/// The first row of a socket, or the end.
pub open spec fn first_row(h: Seq<(usize, u32)>, socket: usize) -> int
    decreases h.len(),
{
    if h.len() == 0 || h[0].0 == socket {
        0
    } else {
        1 + first_row(h.drop_first(), socket)
    }
}

/// Adds a row to the first row of its socket, or as a new one.
pub open spec fn with_added(h: Seq<(usize, u32)>, row: (usize, u32)) -> Seq<(usize, u32)> {
    let i = first_row(h, row.0);
    if i < h.len() {
        h.update(i, (row.0, add32(h[i].1, row.1)))
    } else {
        h.push(row)
    }
}

/// Adds all rows of `more`, in order.
pub open spec fn with_all_added(h: Seq<(usize, u32)>, more: Seq<(usize, u32)>) -> Seq<(usize, u32)>
    decreases more.len(),
{
    if more.len() == 0 {
        h
    } else {
        with_added(with_all_added(h, more.drop_last()), more.last())
    }
}

/// Raises the first row of a socket to at least the row's count, or adds it.
pub open spec fn with_raised(h: Seq<(usize, u32)>, row: (usize, u32)) -> Seq<(usize, u32)> {
    let i = first_row(h, row.0);
    if i < h.len() {
        h.update(i, (row.0, max32(h[i].1, row.1)))
    } else {
        h.push(row)
    }
}

/// Raises by all rows of `more`, in order.
pub open spec fn with_all_raised(h: Seq<(usize, u32)>, more: Seq<(usize, u32)>) -> Seq<(usize, u32)>
    decreases more.len(),
{
    if more.len() == 0 {
        h
    } else {
        with_raised(with_all_raised(h, more.drop_last()), more.last())
    }
}

/// `sorted` holds the rows of `h` in order of their sockets.
pub open spec fn is_sorting_of(sorted: Seq<(usize, u32)>, h: Seq<(usize, u32)>) -> bool {
    &&& sorted.to_multiset() == h.to_multiset()
    &&& forall|i: int, j: int|
        0 <= i <= j < sorted.len() ==> (#[trigger] sorted[i]).0 <= (#[trigger] sorted[j]).0
}

/// The endpoints of `list` followed by those of `more` that are new.
pub open spec fn with_new(list: Seq<SocketAddr>, more: Seq<SocketAddr>) -> Seq<SocketAddr>
    decreases more.len(),
{
    if more.len() == 0 {
        list
    } else {
        let before = with_new(list, more.drop_last());
        if before.contains(more.last()) {
            before
        } else {
            before.push(more.last())
        }
    }
}

proof fn lemma_first_row(h: Seq<(usize, u32)>, socket: usize)
    ensures
        0 <= first_row(h, socket) <= h.len(),
        first_row(h, socket) < h.len() ==> h[first_row(h, socket)].0 == socket,
        forall|j: int| 0 <= j < first_row(h, socket) ==> (#[trigger] h[j]).0 != socket,
    decreases h.len(),
{
    if h.len() > 0 && h[0].0 != socket {
        let rest = h.drop_first();
        lemma_first_row(rest, socket);
        assert forall|j: int| 0 <= j < first_row(h, socket) implies (#[trigger] h[j]).0
            != socket by {
            if j > 0 {
                assert(rest[j - 1] == h[j]);
            }
        }
    }
}

proof fn lemma_first_row_is(h: Seq<(usize, u32)>, socket: usize, i: int)
    requires
        0 <= i <= h.len(),
        i < h.len() ==> h[i].0 == socket,
        forall|j: int| 0 <= j < i ==> (#[trigger] h[j]).0 != socket,
    ensures
        first_row(h, socket) == i,
{
    lemma_first_row(h, socket);
    let f = first_row(h, socket);
    if f < i {
        assert(h[f].0 != socket);
    }
    if i < f {
        assert(h[i].0 != socket);
    }
}

proof fn lemma_total_update(h: Seq<(usize, u32)>, i: int, row: (usize, u32))
    requires
        0 <= i < h.len(),
    ensures
        total(h.update(i, row)) == total(h) - h[i].1 + row.1,
    decreases h.len(),
{
    if i == h.len() - 1 {
        assert(h.update(i, row).drop_last() =~= h.drop_last());
    } else {
        lemma_total_update(h.drop_last(), i, row);
        assert(h.update(i, row).drop_last() =~= h.drop_last().update(i, row));
    }
}

proof fn lemma_total_prefix(h: Seq<(usize, u32)>, n: int)
    requires
        0 <= n <= h.len(),
    ensures
        total(h.take(n)) <= total(h),
    decreases h.len(),
{
    if n < h.len() {
        lemma_total_prefix(h.drop_last(), n);
        assert(h.drop_last().take(n) =~= h.take(n));
    } else {
        assert(h.take(n) =~= h);
    }
}

fn row_of(h: &Histogram, socket: usize) -> (i: usize)
    ensures
        i == first_row(h@, socket),
        i <= h@.len(),
{
    let mut i: usize = 0;
    while i < h.len() && h[i].0 != socket
        invariant
            i <= h@.len(),
            forall|j: int| 0 <= j < i ==> (#[trigger] h@[j]).0 != socket,
        decreases h@.len() - i,
    {
        i += 1;
    }
    proof {
        lemma_first_row_is(h@, socket, i as int);
    }
    i
}

/// The sum of a histogram that fits.
pub fn sum_datagrams(h: &Histogram) -> (sum: u32)
    requires
        total(h@) <= u32::MAX,
    ensures
        sum == total(h@),
{
    let mut sum: u32 = 0;
    let mut i: usize = 0;
    assert(h@.take(0) =~= Seq::empty());
    while i < h.len()
        invariant
            i <= h@.len(),
            sum == total(h@.take(i as int)),
            total(h@) <= u32::MAX,
        decreases h@.len() - i,
    {
        proof {
            lemma_total_prefix(h@, i + 1);
            assert(h@.take(i + 1).drop_last() =~= h@.take(i as int));
        }
        sum = sum + h[i].1;
        i += 1;
    }
    assert(h@.take(i as int) =~= h@);
    sum
}

pub fn add_row(h: &mut Histogram, socket: usize, sent: u32)
    ensures
        final(h)@ == with_added(old(h)@, (socket, sent)),
{
    let i: usize = row_of(h, socket);
    if i < h.len() {
        let existing: u32 = h[i].1;
        h.set(i, (socket, existing.saturating_add(sent)));
    } else {
        h.push((socket, sent));
    }
}

pub fn add_rows(h: &mut Histogram, more: &Histogram)
    ensures
        final(h)@ == with_all_added(old(h)@, more@),
{
    let mut i: usize = 0;
    assert(more@.take(0) =~= Seq::empty());
    while i < more.len()
        invariant
            i <= more@.len(),
            h@ == with_all_added(old(h)@, more@.take(i as int)),
        decreases more@.len() - i,
    {
        assert(more@.take(i + 1).drop_last() =~= more@.take(i as int));
        add_row(h, more[i].0, more[i].1);
        i += 1;
    }
    assert(more@.take(i as int) =~= more@);
}

pub fn raise_rows(h: &mut Histogram, more: &Histogram)
    ensures
        final(h)@ == with_all_raised(old(h)@, more@),
{
    let mut n: usize = 0;
    assert(more@.take(0) =~= Seq::empty());
    while n < more.len()
        invariant
            n <= more@.len(),
            h@ == with_all_raised(old(h)@, more@.take(n as int)),
        decreases more@.len() - n,
    {
        assert(more@.take(n + 1).drop_last() =~= more@.take(n as int));
        let i: usize = row_of(h, more[n].0);
        if i < h.len() {
            let existing: u32 = h[i].1;
            h.set(i, (more[n].0, max_u32(existing, more[n].1)));
        } else {
            h.push((more[n].0, more[n].1));
        }
        n += 1;
    }
    assert(more@.take(n as int) =~= more@);
}

proof fn lemma_swap(h: Seq<(usize, u32)>, i: int)
    requires
        0 <= i,
        i + 1 < h.len(),
    ensures
        h.update(i, h[i + 1]).update(i + 1, h[i]).to_multiset() == h.to_multiset(),
        total(h.update(i, h[i + 1]).update(i + 1, h[i])) == total(h),
{
    broadcast use vstd::seq_lib::group_to_multiset_ensures;

    let a = h.update(i, h[i + 1]);
    lemma_total_update(h, i, h[i + 1]);
    lemma_total_update(a, i + 1, h[i]);
    let b = a.update(i + 1, h[i]);
    assert(b.to_multiset() =~= h.to_multiset()) by {
        vstd::seq_lib::to_multiset_update(h, i, h[i + 1]);
        vstd::seq_lib::to_multiset_update(a, i + 1, h[i]);
    }
}

/// Brings a histogram into the order of its sockets.
pub fn sort_rows(h: &mut Histogram)
    ensures
        is_sorting_of(final(h)@, old(h)@),
        total(final(h)@) == total(old(h)@),
        final(h)@.len() == old(h)@.len(),
{
    let n: usize = h.len();
    let mut i: usize = 0;
    while i < n
        invariant
            i <= n,
            n == h@.len(),
            h@.len() == old(h)@.len(),
            h@.to_multiset() == old(h)@.to_multiset(),
            total(h@) == total(old(h)@),
            forall|a: int, b: int|
                0 <= a <= b < i ==> (#[trigger] h@[a]).0 <= (#[trigger] h@[b]).0,
        decreases n - i,
    {
        let mut j: usize = i;
        while j > 0 && h[j - 1].0 > h[j].0
            invariant
                j <= i < n,
                n == h@.len(),
                h@.len() == old(h)@.len(),
                h@.to_multiset() == old(h)@.to_multiset(),
                total(h@) == total(old(h)@),
                forall|a: int, b: int|
                    0 <= a <= b <= i && a != j && b != j ==> (#[trigger] h@[a]).0 <= (
                    #[trigger] h@[b]).0,
                forall|b: int| j < b <= i ==> h@[j as int].0 < (#[trigger] h@[b]).0,
            decreases j,
        {
            proof {
                lemma_swap(h@, j - 1);
            }
            let left: (usize, u32) = h[j - 1];
            let right: (usize, u32) = h[j];
            h.set(j - 1, right);
            h.set(j, left);
            j -= 1;
        }
        i += 1;
    }
}

/// Whether an endpoint is listed.
pub fn lists(list: &Vec<SocketAddr>, endpoint: SocketAddr) -> (r: bool)
    ensures
        r == list@.contains(endpoint),
{
    let mut i: usize = 0;
    while i < list.len()
        invariant
            i <= list@.len(),
            forall|j: int| 0 <= j < i ==> list@[j] != endpoint,
        decreases list@.len() - i,
    {
        if list[i] == endpoint {
            return true;
        }
        i += 1;
    }
    false
}

pub fn add_new(list: &mut Vec<SocketAddr>, more: &Vec<SocketAddr>)
    ensures
        final(list)@ == with_new(old(list)@, more@),
{
    let mut i: usize = 0;
    assert(more@.take(0) =~= Seq::empty());
    while i < more.len()
        invariant
            i <= more@.len(),
            list@ == with_new(old(list)@, more@.take(i as int)),
        decreases more@.len() - i,
    {
        assert(more@.take(i + 1).drop_last() =~= more@.take(i as int));
        if !lists(list, more[i]) {
            list.push(more[i]);
        }
        i += 1;
    }
    assert(more@.take(i as int) =~= more@);
}

/// The earlier of two times, where there are two.
pub open spec fn earlier(a: Option<u64>, b: Option<u64>) -> Option<u64> {
    match (a, b) {
        (Some(x), Some(y)) => Some(
            if x <= y {
                x
            } else {
                y
            },
        ),
        (None, y) => y,
        (x, None) => x,
    }
}

/// The later of two times, where there are two.
pub open spec fn later(a: Option<u64>, b: Option<u64>) -> Option<u64> {
    match (a, b) {
        (Some(x), Some(y)) => Some(max64(x, y)),
        (None, y) => y,
        (x, None) => x,
    }
}

pub fn earlier_of(a: Option<u64>, b: Option<u64>) -> (r: Option<u64>)
    ensures
        r == earlier(a, b),
{
    match (a, b) {
        (Some(x), Some(y)) => Some(
            if x <= y {
                x
            } else {
                y
            },
        ),
        (None, y) => y,
        (x, None) => x,
    }
}

pub fn later_of(a: Option<u64>, b: Option<u64>) -> (r: Option<u64>)
    ensures
        r == later(a, b),
{
    match (a, b) {
        (Some(x), Some(y)) => Some(max_u64(x, y)),
        (None, y) => y,
        (x, None) => x,
    }
}

/// No socket has two rows.
pub open spec fn one_row_each(h: Seq<(usize, u32)>) -> bool {
    forall|i: int, j: int|
        0 <= i < j < h.len() ==> (#[trigger] h[i]).0 != (#[trigger] h[j]).0
}

/// What a histogram counts for a socket.
pub open spec fn count_of(h: Seq<(usize, u32)>, socket: usize) -> u32 {
    let i = first_row(h, socket);
    if i < h.len() {
        h[i].1
    } else {
        0
    }
}

/// Whether a socket has a row.
pub open spec fn has_row(h: Seq<(usize, u32)>, socket: usize) -> bool {
    first_row(h, socket) < h.len()
}

/// Every row of `h` has one in `other` that counts at least as much.
pub open spec fn covered_by(h: Seq<(usize, u32)>, other: Seq<(usize, u32)>) -> bool {
    forall|i: int|
        0 <= i < h.len() ==> has_row(other, (#[trigger] h[i]).0) && count_of(other, h[i].0)
            >= h[i].1
}

/// In a histogram with one row each, a row is the one of its socket.
pub proof fn lemma_row_is(h: Seq<(usize, u32)>, i: int)
    requires
        one_row_each(h),
        0 <= i < h.len(),
    ensures
        first_row(h, h[i].0) == i,
        count_of(h, h[i].0) == h[i].1,
{
    lemma_first_row_is(h, h[i].0, i);
}

proof fn lemma_raised_row(h: Seq<(usize, u32)>, row: (usize, u32), socket: usize)
    requires
        one_row_each(h),
    ensures
        one_row_each(with_raised(h, row)),
        has_row(with_raised(h, row), socket) == (has_row(h, socket) || socket == row.0),
        count_of(with_raised(h, row), socket) == if socket == row.0 {
            max32(count_of(h, socket), row.1)
        } else {
            count_of(h, socket)
        },
{
    let next = with_raised(h, row);
    let i = first_row(h, row.0);
    let k = first_row(h, socket);
    lemma_first_row(h, row.0);
    lemma_first_row(h, socket);
    assert forall|a: int, b: int| 0 <= a < b < next.len() implies (#[trigger] next[a]).0 != (
    #[trigger] next[b]).0 by {
        if i < h.len() {
            assert(next[a].0 == h[a].0 && next[b].0 == h[b].0);
        }
    }
    if socket == row.0 {
        assert forall|j: int| 0 <= j < i implies (#[trigger] next[j]).0 != socket by {
            assert(next[j] == h[j]);
        }
        lemma_first_row_is(next, socket, i);
    } else if k < h.len() {
        assert forall|j: int| 0 <= j < k implies (#[trigger] next[j]).0 != socket by {
            assert(h[j].0 != socket);
        }
        lemma_first_row_is(next, socket, k);
    } else {
        assert forall|j: int| 0 <= j < next.len() implies (#[trigger] next[j]).0 != socket by {
            if j < h.len() {
                assert(h[j].0 != socket);
            }
        }
        lemma_first_row_is(next, socket, next.len() as int);
    }
}

/// Raising one histogram by another gives every socket the larger of its two
/// counts, and still one row.
pub proof fn lemma_all_raised(h: Seq<(usize, u32)>, more: Seq<(usize, u32)>, socket: usize)
    requires
        one_row_each(h),
        one_row_each(more),
    ensures
        one_row_each(with_all_raised(h, more)),
        has_row(with_all_raised(h, more), socket) == (has_row(h, socket) || has_row(more, socket)),
        count_of(with_all_raised(h, more), socket) == max32(
            count_of(h, socket),
            count_of(more, socket),
        ),
    decreases more.len(),
{
    lemma_first_row(more, socket);
    if more.len() > 0 {
        let init = more.drop_last();
        let row = more.last();
        assert(one_row_each(init));
        lemma_all_raised(h, init, socket);
        lemma_raised_row(with_all_raised(h, init), row, socket);
        lemma_first_row(init, socket);
        let k = first_row(more, socket);
        if k < init.len() {
            assert forall|j: int| 0 <= j < k implies (#[trigger] init[j]).0 != socket by {
                assert(init[j] == more[j]);
            }
            lemma_first_row_is(init, socket, k);
            assert(more[k].0 != more[more.len() - 1].0);
        } else {
            assert forall|j: int| 0 <= j < init.len() implies (#[trigger] init[j]).0 != socket by {
                assert(init[j] == more[j]);
            }
            lemma_first_row_is(init, socket, init.len() as int);
        }
    }
}

/// Sorting keeps one row each, with its count.
pub proof fn lemma_sorted_rows(sorted: Seq<(usize, u32)>, h: Seq<(usize, u32)>, socket: usize)
    requires
        is_sorting_of(sorted, h),
        one_row_each(h),
    ensures
        one_row_each(sorted),
        has_row(sorted, socket) == has_row(h, socket),
        count_of(sorted, socket) == count_of(h, socket),
{
    sorted.to_multiset_ensures();
    h.to_multiset_ensures();
    assert(h.no_duplicates());
    h.lemma_multiset_has_no_duplicates();
    sorted.lemma_multiset_has_no_duplicates_conv();
    assert forall|r: (usize, u32)| sorted.contains(r) == #[trigger] h.contains(r) by {
        assert(sorted.to_multiset().count(r) == h.to_multiset().count(r));
    }
    assert forall|i: int, j: int| 0 <= i < j < sorted.len() implies (#[trigger] sorted[i]).0 != (
    #[trigger] sorted[j]).0 by {
        let a = sorted[i];
        let b = sorted[j];
        assert(sorted.contains(a) && sorted.contains(b));
        assert(h.contains(a) && h.contains(b));
        let x = choose|x: int| 0 <= x < h.len() && h[x] == a;
        let y = choose|y: int| 0 <= y < h.len() && h[y] == b;
        assert(x == y ==> a == b);
    }
    lemma_first_row(h, socket);
    lemma_first_row(sorted, socket);
    if has_row(h, socket) {
        let row = h[first_row(h, socket)];
        assert(h.contains(row));
        assert(sorted.contains(row));
        let i = choose|i: int| 0 <= i < sorted.len() && sorted[i] == row;
        lemma_row_is(sorted, i);
    } else if has_row(sorted, socket) {
        let row = sorted[first_row(sorted, socket)];
        assert(sorted.contains(row));
        assert(h.contains(row));
        let i = choose|i: int| 0 <= i < h.len() && h[i] == row;
        assert(h[i].0 == socket);
    }
}

/// Raising by what is covered already changes nothing.
pub proof fn lemma_raised_by_covered(h: Seq<(usize, u32)>, more: Seq<(usize, u32)>)
    requires
        covered_by(more, h),
    ensures
        with_all_raised(h, more) == h,
    decreases more.len(),
{
    if more.len() > 0 {
        assert forall|i: int| 0 <= i < more.drop_last().len() implies has_row(
            h,
            (#[trigger] more.drop_last()[i]).0,
        ) && count_of(h, more.drop_last()[i].0) >= more.drop_last()[i].1 by {
            assert(more.drop_last()[i] == more[i]);
        }
        lemma_raised_by_covered(h, more.drop_last());
        let row = more[more.len() - 1];
        lemma_first_row(h, row.0);
        assert(with_raised(h, row) =~= h);
    }
}

/// The order by socket decides the place of every row where each socket has
/// one.
pub proof fn lemma_sorting_is_unique(a: Seq<(usize, u32)>, b: Seq<(usize, u32)>)
    requires
        is_sorting_of(a, b),
        is_sorting_of(b, b),
        one_row_each(b),
    ensures
        a == b,
{
    let leq = |x: (usize, u32), y: (usize, u32)| x.0 < y.0 || (x.0 == y.0 && x.1 <= y.1);
    lemma_sorted_rows(a, b, 0);
    assert forall|i: int, j: int| 0 <= i < j < a.len() implies #[trigger] leq(a[i], a[j]) by {
        assert(a[i].0 <= a[j].0);
    }
    assert forall|i: int, j: int| 0 <= i < j < b.len() implies #[trigger] leq(b[i], b[j]) by {
        assert(b[i].0 <= b[j].0);
    }
    vstd::seq_lib::lemma_sorted_unique(a, b, leq);
}

proof fn lemma_total_remove(h: Seq<(usize, u32)>, i: int)
    requires
        0 <= i < h.len(),
    ensures
        total(h.remove(i)) == total(h) - h[i].1,
    decreases h.len(),
{
    if i == h.len() - 1 {
        assert(h.remove(i) =~= h.drop_last());
    } else {
        lemma_total_remove(h.drop_last(), i);
        assert(h.remove(i).drop_last() =~= h.drop_last().remove(i));
        assert(h.remove(i).last() == h.last());
    }
}

/// A histogram that is covered has no larger total.
pub proof fn lemma_covered_total(h: Seq<(usize, u32)>, other: Seq<(usize, u32)>)
    requires
        one_row_each(h),
        one_row_each(other),
        covered_by(h, other),
    ensures
        total(h) <= total(other),
    decreases h.len(),
{
    if h.len() > 0 {
        let init = h.drop_last();
        let row = h[h.len() - 1];
        lemma_first_row(other, row.0);
        let i = first_row(other, row.0);
        assert(has_row(other, row.0) && count_of(other, row.0) >= row.1);
        let rest = other.remove(i);
        assert forall|k: int| 0 <= k < init.len() implies has_row(rest, (#[trigger] init[k]).0)
            && count_of(rest, init[k].0) >= init[k].1 by {
            assert(init[k] == h[k]);
            assert(h[k].0 != h[h.len() - 1].0);
            lemma_first_row(other, h[k].0);
            let j = first_row(other, h[k].0);
            let at = if j < i {
                j
            } else {
                j - 1
            };
            assert(rest[at] == other[j]);
            assert forall|m: int| 0 <= m < at implies (#[trigger] rest[m]).0 != h[k].0 by {
                if m < i {
                    assert(rest[m] == other[m]);
                } else {
                    assert(rest[m] == other[m + 1]);
                }
            }
            lemma_first_row_is(rest, h[k].0, at);
        }
        assert(one_row_each(rest)) by {
            assert forall|a: int, b: int| 0 <= a < b < rest.len() implies (#[trigger] rest[a]).0
                != (#[trigger] rest[b]).0 by {
                let x = if a < i {
                    a
                } else {
                    a + 1
                };
                let y = if b < i {
                    b
                } else {
                    b + 1
                };
                assert(rest[a] == other[x] && rest[b] == other[y]);
            }
        }
        lemma_covered_total(init, rest);
        lemma_total_remove(other, i);
    }
}

/// The endpoints that are listed after adding some are those that were and
/// those that were added, and adding them again changes nothing.
pub proof fn lemma_with_new_twice(list: Seq<SocketAddr>, more: Seq<SocketAddr>)
    ensures
        with_new(with_new(list, more), more) == with_new(list, more),
{
    lemma_with_new_contains(list, more);
    lemma_with_new_known(with_new(list, more), more);
}

proof fn lemma_with_new_contains(list: Seq<SocketAddr>, more: Seq<SocketAddr>)
    ensures
        forall|i: int| 0 <= i < more.len() ==> with_new(list, more).contains(#[trigger] more[i]),
    decreases more.len(),
{
    if more.len() > 0 {
        let init = more.drop_last();
        let before = with_new(list, init);
        let after = with_new(list, more);
        lemma_with_new_contains(list, init);
        assert forall|i: int| 0 <= i < more.len() implies after.contains(#[trigger] more[i]) by {
            if i < init.len() {
                assert(init[i] == more[i]);
                let k = choose|k: int| 0 <= k < before.len() && before[k] == more[i];
                assert(after[k] == more[i]);
            } else if !before.contains(more.last()) {
                assert(after[before.len() as int] == more[i]);
            }
        }
    }
}

proof fn lemma_with_new_known(list: Seq<SocketAddr>, more: Seq<SocketAddr>)
    requires
        forall|i: int| 0 <= i < more.len() ==> list.contains(#[trigger] more[i]),
    ensures
        with_new(list, more) == list,
    decreases more.len(),
{
    if more.len() > 0 {
        assert forall|i: int| 0 <= i < more.drop_last().len() implies list.contains(
            #[trigger] more.drop_last()[i],
        ) by {
            assert(more.drop_last()[i] == more[i]);
        }
        lemma_with_new_known(list, more.drop_last());
        assert(list.contains(more[more.len() - 1]));
    }
}

/// Sums stop at the largest number, and the larger of two is one of them.
pub proof fn law_sums_and_maxima(a: u32, b: u32, c: u64, d: u64, n: nat)
    ensures
        a + b <= u32::MAX ==> add32(a, b) == a + b,
        a + b > u32::MAX ==> add32(a, b) == u32::MAX,
        c + d <= u64::MAX ==> add64(c, d) == c + d,
        c + d > u64::MAX ==> add64(c, d) == u64::MAX,
        max32(a, b) >= a && max32(a, b) >= b && (max32(a, b) == a || max32(a, b) == b),
        max64(c, d) >= c && max64(c, d) >= d && (max64(c, d) == c || max64(c, d) == d),
        n <= u32::MAX ==> clamp32(n) == n,
        n > u32::MAX ==> clamp32(n) == u32::MAX,
{
}

/// The total of a histogram is the sum of its rows.
pub proof fn law_total_is_the_sum(h: Seq<(usize, u32)>, row: (usize, u32))
    ensures
        total(Seq::empty()) == 0,
        total(h.push(row)) == total(h) + row.1,
{
    assert(h.push(row).drop_last() =~= h);
}

/// The row of a socket is its first one.
pub proof fn law_first_row(h: Seq<(usize, u32)>, socket: usize)
    ensures
        0 <= first_row(h, socket) <= h.len(),
        has_row(h, socket) <==> exists|i: int| 0 <= i < h.len() && (#[trigger] h[i]).0 == socket,
        has_row(h, socket) ==> h[first_row(h, socket)] == (socket, count_of(h, socket)),
        forall|j: int| 0 <= j < first_row(h, socket) ==> (#[trigger] h[j]).0 != socket,
        !has_row(h, socket) ==> count_of(h, socket) == 0,
{
    lemma_first_row(h, socket);
    if has_row(h, socket) {
        assert(h[first_row(h, socket)].0 == socket);
    }
}

/// Adding a row adds to the row of its socket, or stands at the end where there
/// is none; every other row stays.
pub proof fn law_added_row(h: Seq<(usize, u32)>, row: (usize, u32))
    ensures
        has_row(h, row.0) ==> with_added(h, row).len() == h.len(),
        !has_row(h, row.0) ==> with_added(h, row).len() == h.len() + 1 && with_added(h, row).last()
            == row,
        has_row(h, row.0) && count_of(h, row.0) + row.1 <= u32::MAX ==> count_of(
            with_added(h, row),
            row.0,
        ) == count_of(h, row.0) + row.1,
        has_row(h, row.0) && count_of(h, row.0) + row.1 > u32::MAX ==> count_of(
            with_added(h, row),
            row.0,
        ) == u32::MAX,
        forall|i: int|
            0 <= i < h.len() && i != first_row(h, row.0) ==> with_added(h, row)[i]
                == #[trigger] h[i],
{
    lemma_first_row(h, row.0);
    let next = with_added(h, row);
    if has_row(h, row.0) {
        lemma_first_row_is(next, row.0, first_row(h, row.0));
    }
}

/// Raising a row gives its socket the larger count, or stands at the end where
/// the socket has no row; every other row stays.
pub proof fn law_raised_row(h: Seq<(usize, u32)>, row: (usize, u32))
    ensures
        has_row(h, row.0) ==> with_raised(h, row).len() == h.len(),
        !has_row(h, row.0) ==> with_raised(h, row).len() == h.len() + 1 && with_raised(
            h,
            row,
        ).last() == row,
        has_row(h, row.0) && row.1 > count_of(h, row.0) ==> count_of(with_raised(h, row), row.0)
            == row.1,
        has_row(h, row.0) && row.1 <= count_of(h, row.0) ==> count_of(with_raised(h, row), row.0)
            == count_of(h, row.0),
        forall|i: int|
            0 <= i < h.len() && i != first_row(h, row.0) ==> with_raised(h, row)[i]
                == #[trigger] h[i],
{
    lemma_first_row(h, row.0);
    let next = with_raised(h, row);
    if has_row(h, row.0) {
        lemma_first_row_is(next, row.0, first_row(h, row.0));
    }
}

/// Rows are added and raised one after the other.
pub proof fn law_rows_are_taken_in_turn(
    h: Seq<(usize, u32)>,
    more: Seq<(usize, u32)>,
    row: (usize, u32),
)
    ensures
        with_all_added(h, Seq::empty()) == h,
        with_all_added(h, more.push(row)) == with_added(with_all_added(h, more), row),
        with_all_raised(h, Seq::empty()) == h,
        with_all_raised(h, more.push(row)) == with_raised(with_all_raised(h, more), row),
{
    assert(more.push(row).drop_last() =~= more);
}

/// A histogram in order holds the rows of the other, the smaller sockets
/// first.
pub proof fn law_sorted_histogram(
    sorted: Seq<(usize, u32)>,
    h: Seq<(usize, u32)>,
    row: (usize, u32),
    i: int,
    j: int,
)
    requires
        is_sorting_of(sorted, h),
        0 <= i <= j < sorted.len(),
    ensures
        sorted[i].0 <= sorted[j].0,
        sorted.to_multiset().count(row) == h.to_multiset().count(row),
{
}

/// The endpoints that are listed after adding some: those that were, in their
/// order and first, and behind them the added ones that were not, each once.
pub proof fn law_new_endpoints_follow(
    list: Seq<SocketAddr>,
    more: Seq<SocketAddr>,
    endpoint: SocketAddr,
)
    ensures
        list.len() <= with_new(list, more).len(),
        with_new(list, more).take(list.len() as int) == list,
        with_new(list, more).contains(endpoint) <==> list.contains(endpoint) || more.contains(
            endpoint,
        ),
        forall|i: int, j: int|
            #![trigger with_new(list, more)[i], with_new(list, more)[j]]
            0 <= i < j < with_new(list, more).len() && list.len() <= j ==> with_new(list, more)[i]
                != with_new(list, more)[j],
    decreases more.len(),
{
    let after = with_new(list, more);
    if more.len() == 0 {
        assert(list.take(list.len() as int) =~= list);
    } else {
        let rest = more.drop_last();
        let before = with_new(list, rest);
        law_new_endpoints_follow(list, rest, endpoint);
        assert(more =~= rest.push(more.last()));
        assert(after.take(list.len() as int) =~= before.take(list.len() as int));
        assert(more.contains(endpoint) <==> rest.contains(endpoint) || endpoint == more.last()) by {
            if rest.contains(endpoint) {
                let i = choose|i: int| 0 <= i < rest.len() && rest[i] == endpoint;
                assert(more[i] == endpoint);
            }
            if endpoint == more.last() {
                assert(more[more.len() - 1] == endpoint);
            }
            if more.contains(endpoint) {
                let i = choose|i: int| 0 <= i < more.len() && more[i] == endpoint;
                if i < rest.len() {
                    assert(rest[i] == endpoint);
                }
            }
        }
        if !before.contains(more.last()) {
            assert(after.contains(endpoint) <==> before.contains(endpoint) || endpoint
                == more.last()) by {
                if before.contains(endpoint) {
                    let i = choose|i: int| 0 <= i < before.len() && before[i] == endpoint;
                    assert(after[i] == endpoint);
                }
                if endpoint == more.last() {
                    assert(after[after.len() - 1] == endpoint);
                }
                if after.contains(endpoint) {
                    let i = choose|i: int| 0 <= i < after.len() && after[i] == endpoint;
                    if i < before.len() {
                        assert(before[i] == endpoint);
                    }
                }
            }
            assert forall|i: int, j: int|
                #![trigger after[i], after[j]]
                0 <= i < j < after.len() && list.len() <= j implies after[i] != after[j] by {
                if j == before.len() {
                    assert(before[i] == after[i]);
                } else {
                    assert(before[i] == after[i] && before[j] == after[j]);
                }
            }
        }
    }
}

/// The earlier of two moments is one of them and not after either; a missing
/// one does not count. So with the later.
pub proof fn law_earlier_and_later(a: Option<u64>, b: Option<u64>)
    ensures
        earlier(a, b) is None <==> a is None && b is None,
        later(a, b) is None <==> a is None && b is None,
        earlier(a, b) is Some ==> earlier(a, b) == a || earlier(a, b) == b,
        later(a, b) is Some ==> later(a, b) == a || later(a, b) == b,
        a is Some ==> earlier(a, b)->0 <= a->0 && later(a, b)->0 >= a->0,
        b is Some ==> earlier(a, b)->0 <= b->0 && later(a, b)->0 >= b->0,
{
}

/// A histogram is covered by another where each of its rows is, by a count as
/// large; each socket has one row where no two rows are of one socket.
pub proof fn law_covered_rows(h: Seq<(usize, u32)>, other: Seq<(usize, u32)>, i: int, j: int)
    requires
        0 <= i < j < h.len(),
    ensures
        covered_by(h, other) ==> has_row(other, h[i].0) && h[i].1 <= count_of(other, h[i].0),
        covered_by(h, other) ==> has_row(other, h[j].0) && h[j].1 <= count_of(other, h[j].0),
        one_row_each(h) ==> h[i].0 != h[j].0,
{
}

} // verus!
