//! Priority bands, and the order in which priorities put interceptors.

use std::ops::Range;
use vstd::prelude::*;
use crate::views::views;

verus! {

/// The reserved bands of priority. A higher priority runs earlier.
pub struct PriorityRanges;

impl PriorityRanges {
    /// Security and compliance: always first.
    pub const CRITICAL_SYSTEM: Range<i32> = 9000..10000;

    /// Global policies of high priority.
    pub const GLOBAL_HIGH: Range<i32> = 8000..9000;

    /// Directives of high priority, such as `@timeout` and `@if`.
    pub const DIRECTIVE_HIGH: Range<i32> = 7000..8000;

    /// Global policies of normal priority.
    pub const GLOBAL_NORMAL: Range<i32> = 5000..7000;

    /// Directives of normal priority, such as `@parallel`.
    pub const DIRECTIVE_NORMAL: Range<i32> = 3000..5000;

    /// Global policies that support others.
    pub const GLOBAL_SUPPORT: Range<i32> = 1000..3000;

    /// Directives that support others, such as debug logging.
    pub const DIRECTIVE_SUPPORT: Range<i32> = 500..1000;

    /// Monitoring and analytics: last among the interceptors that are no executors.
    pub const MONITORING: Range<i32> = 0..500;
}

/// Whether a global interceptor may be registered with the priority.
pub open spec fn global_priority(p: int) -> bool {
    ||| 9000 <= p < 10000
    ||| 8000 <= p < 9000
    ||| 5000 <= p < 7000
    ||| 1000 <= p < 3000
    ||| 0 <= p < 500
}

/// Whether a directive interceptor may be registered with the priority.
pub open spec fn directive_priority(p: int) -> bool {
    ||| 7000 <= p < 8000
    ||| 3000 <= p < 5000
    ||| 500 <= p < 1000
}

/// The bands of the two categories do not overlap: no priority is valid for
/// both a global and a directive interceptor.
pub proof fn bands_are_disjoint(p: int)
    ensures
        !(global_priority(p) && directive_priority(p)),
{
}

fn within(band: &Range<i32>, p: i32) -> (r: bool)
    ensures
        r == (band.start <= p < band.end),
{
    band.start <= p && p < band.end
}

/// Whether a global interceptor may be registered with the priority.
pub fn is_global_priority(p: i32) -> (r: bool)
    ensures
        r == global_priority(p as int),
{
    within(&PriorityRanges::CRITICAL_SYSTEM, p) || within(&PriorityRanges::GLOBAL_HIGH, p)
        || within(&PriorityRanges::GLOBAL_NORMAL, p) || within(&PriorityRanges::GLOBAL_SUPPORT, p)
        || within(&PriorityRanges::MONITORING, p)
}

/// Whether a directive interceptor may be registered with the priority.
pub fn is_directive_priority(p: i32) -> (r: bool)
    ensures
        r == directive_priority(p as int),
{
    within(&PriorityRanges::DIRECTIVE_HIGH, p) || within(&PriorityRanges::DIRECTIVE_NORMAL, p)
        || within(&PriorityRanges::DIRECTIVE_SUPPORT, p)
}

/// The first place from `i` on at which `s` holds an item of a priority below `k`.
pub open spec fn place_from<A>(s: Seq<A>, k: int, key: spec_fn(A) -> int, i: int) -> int
    decreases s.len() - i,
{
    if i < 0 || i >= s.len() || key(s[i]) < k {
        i
    } else {
        place_from(s, k, key, i + 1)
    }
}

/// The first `n` items of `s`, each put behind the items before it that have
/// at least its priority: a stable sort, the highest priority first.
pub open spec fn sorted_prefix<A>(s: Seq<A>, n: nat, key: spec_fn(A) -> int) -> Seq<A>
    decreases n,
{
    if n == 0 || n > s.len() {
        Seq::empty()
    } else {
        let before = sorted_prefix(s, (n - 1) as nat, key);
        before.insert(place_from(before, key(s[n - 1]), key, 0), s[n - 1])
    }
}

/// The items of `s` by falling priority; items of equal priority keep their order.
pub open spec fn stable_sort<A>(s: Seq<A>, key: spec_fn(A) -> int) -> Seq<A> {
    sorted_prefix(s, s.len(), key)
}

/// Whether priorities never rise along `s`.
pub open spec fn falling<A>(s: Seq<A>, key: spec_fn(A) -> int) -> bool {
    forall|i: int, j: int| 0 <= i < j < s.len() ==> key(s[i]) >= key(s[j])
}

/// The place found lies within the list; everything before it has at least
/// the priority `k`, and the item at it, if any, has less.
pub proof fn place_properties<A>(s: Seq<A>, k: int, key: spec_fn(A) -> int, i: int)
    requires
        0 <= i <= s.len(),
    ensures
        i <= place_from(s, k, key, i) <= s.len(),
        forall|j: int| i <= j < place_from(s, k, key, i) ==> key(s[j]) >= k,
        place_from(s, k, key, i) < s.len() ==> key(s[place_from(s, k, key, i)]) < k,
    decreases s.len() - i,
{
    if i < s.len() && key(s[i]) >= k {
        place_properties(s, k, key, i + 1);
    }
}

/// A list in falling priority stays so when an item is put behind the items
/// of at least its priority.
pub proof fn insert_keeps_falling<A>(s: Seq<A>, x: A, key: spec_fn(A) -> int)
    requires
        falling(s, key),
    ensures
        falling(s.insert(place_from(s, key(x), key, 0), x), key),
{
    let p = place_from(s, key(x), key, 0);
    place_properties(s, key(x), key, 0);
    let after = s.insert(p, x);
    assert forall|i: int, j: int| 0 <= i < j < after.len() implies key(after[i]) >= key(after[j]) by {
        if j < p {
            assert(after[i] == s[i] && after[j] == s[j]);
        } else if j == p {
            assert(after[i] == s[i]);
        } else if i < p {
            assert(after[i] == s[i] && after[j] == s[j - 1]);
        } else if i == p {
            assert(after[j] == s[j - 1]);
            assert(key(s[p]) >= key(s[j - 1]) || j - 1 == p);
        } else {
            assert(after[i] == s[i - 1] && after[j] == s[j - 1]);
        }
    }
}

/// The sorted list holds as many items as were sorted, in falling priority,
/// and exactly the items that were sorted.
pub proof fn sorted_prefix_properties<A>(s: Seq<A>, n: nat, key: spec_fn(A) -> int)
    requires
        n <= s.len(),
    ensures
        sorted_prefix(s, n, key).len() == n,
        falling(sorted_prefix(s, n, key), key),
        sorted_prefix(s, n, key).to_multiset() == s.take(n as int).to_multiset(),
    decreases n,
{
    broadcast use vstd::seq_lib::group_to_multiset_ensures;

    if n == 0 {
        assert(s.take(0) =~= Seq::<A>::empty());
    } else {
        sorted_prefix_properties(s, (n - 1) as nat, key);
        let before = sorted_prefix(s, (n - 1) as nat, key);
        let x = s[n - 1];
        let p = place_from(before, key(x), key, 0);
        place_properties(before, key(x), key, 0);
        let after = before.insert(p, x);
        assert forall|i: int, j: int| 0 <= i < j < after.len() implies key(after[i]) >= key(
            after[j],
        ) by {
            if j < p {
                assert(after[i] == before[i] && after[j] == before[j]);
            } else if j == p {
                assert(after[i] == before[i]);
            } else if i < p {
                assert(after[i] == before[i] && after[j] == before[j - 1]);
                if p < before.len() {
                    assert(key(before[p]) < key(x));
                    if j - 1 > p {
                        assert(key(before[p]) >= key(before[j - 1]));
                    }
                }
            } else if i == p {
                assert(after[j] == before[j - 1]);
                assert(key(before[p]) < key(x));
                if j - 1 > p {
                    assert(key(before[p]) >= key(before[j - 1]));
                }
            } else {
                assert(after[i] == before[i - 1] && after[j] == before[j - 1]);
            }
        }
        vstd::seq_lib::to_multiset_insert(before, p, x);
        assert(s.take(n as int) =~= s.take(n - 1).push(x));
    }
}

/// Sorting keeps the number of items, puts them in falling priority and
/// neither adds nor loses one.
pub proof fn stable_sort_properties<A>(s: Seq<A>, key: spec_fn(A) -> int)
    ensures
        stable_sort(s, key).len() == s.len(),
        falling(stable_sort(s, key), key),
        stable_sort(s, key).to_multiset() == s.to_multiset(),
{
    sorted_prefix_properties(s, s.len(), key);
    assert(s.take(s.len() as int) =~= s);
}

/// The sorted list holds exactly the items that were sorted.
pub proof fn sorted_holds_the_same<A>(s: Seq<A>, key: spec_fn(A) -> int, x: A)
    ensures
        stable_sort(s, key).contains(x) <==> s.contains(x),
{
    stable_sort_properties(s, key);
    vstd::seq_lib::to_multiset_contains(s, x);
    vstd::seq_lib::to_multiset_contains(stable_sort(s, key), x);
}

/// Sorting and mapping commute where the mapping keeps the priorities.
pub proof fn sorted_prefix_of_mapped<A, B>(
    s: Seq<A>,
    n: nat,
    key: spec_fn(A) -> int,
    f: spec_fn(A) -> B,
    mapped_key: spec_fn(B) -> int,
)
    requires
        n <= s.len(),
        forall|a: A| #[trigger] mapped_key(f(a)) == key(a),
    ensures
        sorted_prefix(s.map_values(f), n, mapped_key) == sorted_prefix(s, n, key).map_values(f),
    decreases n,
{
    if n == 0 {
        assert(sorted_prefix(s, n, key).map_values(f) =~= Seq::<B>::empty());
    } else {
        sorted_prefix_of_mapped(s, (n - 1) as nat, key, f, mapped_key);
        sorted_prefix_properties(s, (n - 1) as nat, key);
        let before = sorted_prefix(s, (n - 1) as nat, key);
        let x = s[n - 1];
        place_of_mapped(before, key(x), key, f, mapped_key, 0);
        place_properties(before, key(x), key, 0);
        let p = place_from(before, key(x), key, 0);
        assert(before.insert(p, x).map_values(f) =~= before.map_values(f).insert(p, f(x)));
    }
}

/// The place of an item does not change when the list is mapped by a
/// mapping that keeps the priorities.
pub proof fn place_of_mapped<A, B>(
    s: Seq<A>,
    k: int,
    key: spec_fn(A) -> int,
    f: spec_fn(A) -> B,
    mapped_key: spec_fn(B) -> int,
    i: int,
)
    requires
        0 <= i <= s.len(),
        forall|a: A| #[trigger] mapped_key(f(a)) == key(a),
    ensures
        place_from(s.map_values(f), k, mapped_key, i) == place_from(s, k, key, i),
    decreases s.len() - i,
{
    if i < s.len() && key(s[i]) >= k {
        place_of_mapped(s, k, key, f, mapped_key, i + 1);
    }
}

/// Something that has a priority.
pub trait Prioritized {
    /// The priority.
    spec fn rank(&self) -> int;

    fn priority_value(&self) -> (r: i32)
        ensures
            r as int == self.rank(),
    ;
}

/// The priority of an item, as a function.
pub open spec fn rank_of<T: Prioritized>() -> spec_fn(T) -> int {
    |x: T| x.rank()
}

/// The views of a sorted list are the sorted views, where the views carry
/// the priorities.
pub proof fn sorted_views<T: Prioritized + View>(s: Seq<T>, view_key: spec_fn(T::V) -> int)
    requires
        forall|x: T| #[trigger] view_key(x@) == x.rank(),
    ensures
        views(stable_sort(s, rank_of::<T>())) == stable_sort(views(s), view_key),
{
    let f = |x: T| x@;
    assert forall|a: T| #[trigger] view_key(f(a)) == rank_of::<T>()(a) by {
        assert(view_key(a@) == a.rank());
    }
    sorted_prefix_of_mapped(s, s.len(), rank_of::<T>(), f, view_key);
    assert(s.map_values(f) =~= views(s));
    assert(stable_sort(s, rank_of::<T>()).map_values(f) =~= views(stable_sort(s, rank_of::<T>())));
}

/// Sorts by falling priority; items of equal priority keep their order.
///
/// vstd does not specify the sorts of `std`, so the order is made
/// here, by insertion, and proved to be [`stable_sort`].
pub fn sort_by_priority<T: Prioritized>(items: Vec<T>) -> (r: Vec<T>)
    ensures
        r@ == stable_sort(items@, rank_of::<T>()),
{
    let ghost all = items@;
    let ghost key = rank_of::<T>();
    let mut rest = items;
    let mut out: Vec<T> = Vec::new();
    let mut n: usize = 0;
    let total = rest.len();
    while rest.len() > 0
        invariant
            n + rest.len() == total,
            total == all.len(),
            key == rank_of::<T>(),
            rest@ == all.skip(n as int),
            out@ == sorted_prefix(all, n as nat, key),
            out.len() == n,
        decreases rest.len(),
    {
        let x = rest.remove(0);
        assert(x == all[n as int]);
        let k = x.priority_value();
        let mut p: usize = 0;
        while p < out.len() && out[p].priority_value() >= k
            invariant
                p <= out.len(),
                key == rank_of::<T>(),
                place_from(out@, k as int, key, 0) == place_from(out@, k as int, key, p as int),
            decreases out.len() - p,
        {
            p += 1;
        }
        out.insert(p, x);
        n += 1;
        proof {
            assert(rest@ =~= all.skip(n as int));
            sorted_prefix_properties(all, (n - 1) as nat, key);
        }
    }
    out
}

} // verus!
