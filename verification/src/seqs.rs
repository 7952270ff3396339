//! Sequences: the first item that meets a condition, what the items give one after the
//! other, and the items without those that occurred before.

use vstd::prelude::*;

verus! {

/// The place of the first item of `s` of which `wanted` holds.
pub open spec fn first_place<A>(s: Seq<A>, wanted: spec_fn(A) -> bool) -> Option<int>
    decreases s.len(),
{
    if s.len() == 0 {
        None
    } else if wanted(s[0]) {
        Some(0)
    } else {
        match first_place(s.drop_first(), wanted) {
            Some(i) => Some(i + 1),
            None => None,
        }
    }
}

/// Where `wanted` holds of the item at `at` and of none before it, `at` is the first
/// place.
pub proof fn lemma_first_place_found<A>(s: Seq<A>, wanted: spec_fn(A) -> bool, at: int)
    requires
        0 <= at < s.len(),
        wanted(s[at]),
        forall|k: int| 0 <= k < at ==> !wanted(#[trigger] s[k]),
    ensures
        first_place(s, wanted) == Some(at),
    decreases s.len(),
{
    if at > 0 {
        let rest = s.drop_first();
        assert(!wanted(s[0]));
        assert(rest[at - 1] == s[at]);
        assert forall|k: int| 0 <= k < at - 1 implies !wanted(#[trigger] rest[k]) by {
            assert(rest[k] == s[k + 1]);
        }
        lemma_first_place_found(rest, wanted, at - 1);
    }
}

/// Where `wanted` holds of no item, there is no first place.
pub proof fn lemma_first_place_missing<A>(s: Seq<A>, wanted: spec_fn(A) -> bool)
    requires
        forall|k: int| 0 <= k < s.len() ==> !wanted(#[trigger] s[k]),
    ensures
        first_place(s, wanted) is None,
    decreases s.len(),
{
    if s.len() > 0 {
        let rest = s.drop_first();
        assert(!wanted(s[0]));
        assert forall|k: int| 0 <= k < rest.len() implies !wanted(#[trigger] rest[k]) by {
            assert(rest[k] == s[k + 1]);
        }
        lemma_first_place_missing(rest, wanted);
    }
}

/// The first place is a place of `s` at which `wanted` holds, and before which it does
/// not; without a first place it holds nowhere.
pub proof fn lemma_first_place<A>(s: Seq<A>, wanted: spec_fn(A) -> bool)
    ensures
        match first_place(s, wanted) {
            Some(i) => 0 <= i < s.len() && wanted(s[i]) && forall|k: int|
                0 <= k < i ==> !wanted(#[trigger] s[k]),
            None => forall|k: int| 0 <= k < s.len() ==> !wanted(#[trigger] s[k]),
        },
    decreases s.len(),
{
    if s.len() == 0 {
    } else if wanted(s[0]) {
    } else {
        let rest = s.drop_first();
        lemma_first_place(rest, wanted);
        match first_place(rest, wanted) {
            Some(i) => {
                assert(rest[i] == s[i + 1]);
                assert forall|k: int| 0 <= k < i + 1 implies !wanted(#[trigger] s[k]) by {
                    if k > 0 {
                        assert(rest[k - 1] == s[k]);
                    }
                }
            },
            None => {
                assert forall|k: int| 0 <= k < s.len() implies !wanted(#[trigger] s[k]) by {
                    if k > 0 {
                        assert(rest[k - 1] == s[k]);
                    }
                }
            },
        }
    }
}

/// What the items of `items` before `upto` give, one after the other, where `each` says
/// what an item at a place gives; the first refusal among them where there is one.
pub open spec fn gathered<A, B, E>(
    items: Seq<A>,
    each: spec_fn(A, int) -> Result<Seq<B>, E>,
    upto: int,
) -> Result<Seq<B>, E>
    decreases upto,
{
    if upto <= 0 {
        Ok(Seq::empty())
    } else {
        match gathered(items, each, upto - 1) {
            Ok(before) => match each(items[upto - 1], upto - 1) {
                Ok(more) => Ok(before + more),
                Err(e) => Err(e),
            },
            Err(e) => Err(e),
        }
    }
}

/// Once an item is refused, so is every longer part of the sequence, and for the same
/// reason.
pub proof fn lemma_gathered_fails<A, B, E>(
    items: Seq<A>,
    each: spec_fn(A, int) -> Result<Seq<B>, E>,
    at: int,
    upto: int,
)
    requires
        at <= upto,
        gathered(items, each, at) is Err,
    ensures
        gathered(items, each, upto) == gathered(items, each, at),
    decreases upto - at,
{
    if at < upto {
        lemma_gathered_fails(items, each, at, upto - 1);
    }
}

/// `s` without the items that occurred earlier in it: the first of each stays, in place.
pub open spec fn unique<A>(s: Seq<A>) -> Seq<A>
    decreases s.len(),
{
    if s.len() == 0 {
        Seq::empty()
    } else {
        let before = unique(s.drop_last());
        if before.contains(s.last()) {
            before
        } else {
            before.push(s.last())
        }
    }
}

/// The items of `s` before `upto` of which `keep` holds, in their order.
pub open spec fn chosen<A>(s: Seq<A>, keep: spec_fn(A) -> bool, upto: int) -> Seq<A>
    decreases upto,
{
    if upto <= 0 {
        Seq::empty()
    } else {
        let before = chosen(s, keep, upto - 1);
        if keep(s[upto - 1]) {
            before.push(s[upto - 1])
        } else {
            before
        }
    }
}

} // verus!
