//! Rows in the order of a moment, and, where two have the same, of an identifier.

use crate::ident::Uuid;
use vstd::prelude::*;

verus! {

/// A moment and an identifier, by which a row is placed.
pub type Place = (i128, Uuid);

/// Whether place `a` comes before place `b`.
pub open spec fn earlier(a: Place, b: Place) -> bool {
    a.0 < b.0 || (a.0 == b.0 && a.1 < b.1)
}

/// Whether places stand in order, each once.
pub open spec fn ordered(places: Seq<Place>) -> bool {
    forall|i: int, j: int| 0 <= i < j < places.len() ==> earlier(places[i], places[j])
}

/// Whether `first` are the first places of a set, in order and at most `limit` of them: a place that
/// is left out comes after all of them, and there is no room for it.
pub open spec fn first_of(places: Set<Place>, limit: int, first: Seq<Place>) -> bool {
    &&& ordered(first)
    &&& first.len() <= limit
    &&& forall|p: Place| first.contains(p) ==> #[trigger] places.contains(p)
    &&& forall|p: Place| #[trigger]
        places.contains(p) && !first.contains(p) ==> first.len() == limit && forall|i: int|
            0 <= i < first.len() ==> earlier(#[trigger] first[i], p)
}

/// How many rows a listing gives: at least one, at most a thousand.
pub open spec fn page(limit: int) -> int {
    if limit < 1 {
        1
    } else if limit > 1_000 {
        1_000
    } else {
        limit
    }
}

/// How many rows a listing gives.
pub fn page_of(limit: u32) -> (n: usize)
    ensures
        n == page(limit as int),
{
    if limit < 1 {
        1
    } else if limit > 1_000 {
        1_000
    } else {
        limit as usize
    }
}

/// Puts a new place where it belongs.
pub fn insert_place(places: &mut Vec<Place>, place: Place)
    requires
        ordered(old(places)@),
        !old(places)@.contains(place),
    ensures
        ordered(final(places)@),
        forall|p: Place| #[trigger]
            final(places)@.contains(p) == (old(places)@.contains(p) || p == place),
{
    let mut at: usize = places.len();
    while at > 0
        invariant
            at <= places@.len(),
            places@ == old(places)@,
            forall|i: int| at <= i < places@.len() ==> earlier(place, #[trigger] places@[i]),
        ensures
            at <= places@.len(),
            places@ == old(places)@,
            forall|i: int| at <= i < places@.len() ==> earlier(place, #[trigger] places@[i]),
            at > 0 ==> !earlier(place, places@[at - 1]),
        decreases at,
    {
        let other: Place = places[at - 1];
        if !(place.0 < other.0 || (place.0 == other.0 && place.1 < other.1)) {
            break;
        }
        at -= 1;
    }
    let ghost before = places@;
    places.insert(at, place);
    proof {
        let after = places@;
        assert(after == before.insert(at as int, place));
        assert forall|p: Place| #[trigger] after.contains(p) == (before.contains(p) || p == place) by {
            if after.contains(p) {
                let i = choose|i: int| 0 <= i < after.len() && after[i] == p;
                if i < at {
                    assert(before[i] == p);
                } else if i > at {
                    assert(before[i - 1] == p);
                }
            }
            if before.contains(p) {
                let i = choose|i: int| 0 <= i < before.len() && before[i] == p;
                if i < at {
                    assert(after[i] == p);
                } else {
                    assert(after[i + 1] == p);
                }
            }
            if p == place {
                assert(after[at as int] == place);
            }
        }
        assert forall|i: int, j: int| 0 <= i < j < after.len() implies earlier(
            after[i],
            after[j],
        ) by {
            let a = if i < at {
                i
            } else {
                i - 1
            };
            let b = if j < at {
                j
            } else {
                j - 1
            };
            if i != at && j != at {
                assert(after[i] == before[a] && after[j] == before[b]);
            } else if i == at {
                assert(after[j] == before[b]);
            } else {
                assert(after[i] == before[a]);
                assert(before.contains(before[a]));
                if a < at - 1 {
                    assert(earlier(before[a], before[at - 1]));
                }
                assert(before.contains(before[at - 1]));
            }
        }
    }
}

/// Keeps the first places.
pub fn keep_first(places: &mut Vec<Place>, limit: usize)
    requires
        ordered(old(places)@),
    ensures
        final(places)@ == old(places)@.take(
            if limit < old(places)@.len() {
                limit as int
            } else {
                old(places)@.len() as int
            },
        ),
        first_of(old(places)@.to_set(), limit as int, final(places)@),
{
    let ghost all = places@;
    places.truncate(limit);
    proof {
        let kept = places@;
        let n = kept.len();
        assert(kept =~= all.take(n as int));
        assert forall|p: Place| kept.contains(p) implies #[trigger] all.to_set().contains(p) by {
            let i = choose|i: int| 0 <= i < kept.len() && kept[i] == p;
            assert(all[i] == p);
        }
        assert forall|p: Place| #[trigger] all.to_set().contains(p) && !kept.contains(p) implies
            kept.len() == limit && forall|i: int|
            0 <= i < kept.len() ==> earlier(#[trigger] kept[i], p) by {
            let j = choose|j: int| 0 <= j < all.len() && all[j] == p;
            if j < n {
                assert(kept[j] == p);
            }
            assert forall|i: int| 0 <= i < kept.len() implies earlier(#[trigger] kept[i], p) by {
                assert(kept[i] == all[i]);
            }
        }
    }
}

/// There is only one listing: two sequences that are both the first places of a set, as far as the
/// same limit, are the same.
pub proof fn law_a_listing_is_determined(places: Set<Place>, limit: int, a: Seq<Place>, b: Seq<Place>)
    requires
        first_of(places, limit, a),
        first_of(places, limit, b),
    ensures
        a == b,
{
    lemma_same_prefix(places, limit, a, b, if a.len() < b.len() {
        a.len() as int
    } else {
        b.len() as int
    });
    if a.len() <= b.len() {
        assert(a =~= a.take(a.len() as int));
        lemma_as_long(places, limit, a, b);
    } else {
        assert(b =~= b.take(b.len() as int));
        lemma_as_long(places, limit, b, a);
    }
    assert(a =~= b);
}

/// A listing cannot stop where another goes on.
proof fn lemma_as_long(places: Set<Place>, limit: int, short: Seq<Place>, long: Seq<Place>)
    requires
        first_of(places, limit, short),
        first_of(places, limit, long),
        short.len() <= long.len(),
        short == long.take(short.len() as int),
    ensures
        short.len() == long.len(),
{
    if short.len() < long.len() {
        let p = long[short.len() as int];
        assert(long.contains(p));
        if short.contains(p) {
            let i = choose|i: int| 0 <= i < short.len() && short[i] == p;
            assert(long[i] == p);
            assert(earlier(long[i], long[short.len() as int]));
        }
        assert(places.contains(p));
    }
}

/// Two listings agree as far as both go.
proof fn lemma_same_prefix(places: Set<Place>, limit: int, a: Seq<Place>, b: Seq<Place>, n: int)
    requires
        first_of(places, limit, a),
        first_of(places, limit, b),
        0 <= n <= a.len(),
        n <= b.len(),
    ensures
        a.take(n) == b.take(n),
    decreases n,
{
    if n > 0 {
        lemma_same_prefix(places, limit, a, b, n - 1);
        let k = n - 1;
        assert(forall|i: int| 0 <= i < k ==> a.take(k)[i] == b.take(k)[i]);
        assert(forall|i: int| 0 <= i < k ==> a[i] == #[trigger] b[i]) by {
            assert forall|i: int| 0 <= i < k implies a[i] == #[trigger] b[i] by {
                assert(a.take(k)[i] == b.take(k)[i]);
            }
        }
        lemma_not_earlier(places, limit, a, b, k);
        lemma_not_earlier(places, limit, b, a, k);
        assert(a.take(n) =~= b.take(n));
    }
}

/// Where two listings first differ, neither place can come before the other.
proof fn lemma_not_earlier(places: Set<Place>, limit: int, a: Seq<Place>, b: Seq<Place>, k: int)
    requires
        first_of(places, limit, a),
        first_of(places, limit, b),
        0 <= k < a.len(),
        k < b.len(),
        forall|i: int| 0 <= i < k ==> a[i] == #[trigger] b[i],
    ensures
        !earlier(a[k], b[k]),
{
    let p = a[k];
    assert(a.contains(p));
    if b.contains(p) {
        let i = choose|i: int| 0 <= i < b.len() && b[i] == p;
        if i < k {
            assert(a[i] == b[i]);
            assert(earlier(a[i], a[k]));
        } else if i > k {
            assert(earlier(b[k], b[i]));
        }
    } else {
        assert(places.contains(p));
        assert(earlier(b[k], p));
    }
}

/// A listing gives as many rows as were asked for, as long as that is at least one and at most a thousand;
/// else the nearest of these.
pub proof fn law_pages_are_bounded(limit: int, more: int)
    ensures
        1 <= page(limit) <= 1_000,
        1 <= limit <= 1_000 ==> page(limit) == limit,
        limit <= more ==> page(limit) <= page(more),
{
}

/// A listing with room for everything holds everything, each once and in order; one that is full holds
/// nothing that comes after something left out.
pub proof fn law_a_listing_leaves_out_only_the_last(
    places: Set<Place>,
    limit: int,
    first: Seq<Place>,
    p: Place,
)
    requires
        first_of(places, limit, first),
        places.contains(p),
    ensures
        first.len() < limit ==> first.contains(p),
        !first.contains(p) ==> forall|i: int|
            0 <= i < first.len() ==> (#[trigger] first[i]).0 < p.0 || (first[i].0 == p.0 && first[i].1
                < p.1),
{
}

} // verus!
