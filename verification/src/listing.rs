//! Lists that are made from others by leaving items out.

use vstd::prelude::*;

verus! {

/// Each number is larger than those before it.
pub open spec fn rising(places: Seq<int>) -> bool {
    forall|i: int, j: int|
        0 <= i < j < places.len() ==> #[trigger] places[i] < #[trigger] places[j]
}

/// The places are, in rising order, exactly those of a list of that length at
/// which `kept` holds.
pub open spec fn are_places(places: Seq<int>, len: nat, kept: spec_fn(int) -> bool) -> bool {
    &&& rising(places)
    &&& forall|k: int|
        0 <= k < places.len() ==> 0 <= #[trigger] places[k] < len && kept(places[k])
    &&& forall|i: int| 0 <= i < len && #[trigger] kept(i) ==> places.contains(i)
}

/// A list of what a rule makes of the items of another: there is one item for
/// each of those of which it makes something, in their order.
pub proof fn lemma_places<A, B>(s: Seq<A>, rule: spec_fn(A) -> Option<B>) -> (places: Seq<int>)
    ensures
        are_places(places, s.len(), |i: int| rule(s[i]) is Some),
        places.len() == s.filter_map(rule).len(),
        forall|k: int|
            0 <= k < places.len() ==> rule(s[#[trigger] places[k]]) == Some(
                s.filter_map(rule)[k],
            ),
    decreases s.len(),
{
    let kept = |i: int| rule(s[i]) is Some;
    if s.len() == 0 {
        assert(s.filter_map(rule).len() == 0) by {
            reveal(Seq::filter_map);
        }
        Seq::empty()
    } else {
        let front = s.drop_last();
        let n = s.len() - 1;
        let before = lemma_places(front, rule);
        let kept_before = |i: int| rule(front[i]) is Some;
        s.lemma_filter_map_take_succ(rule, n);
        assert(s.take(n + 1) =~= s);
        assert(s.take(n) =~= front);
        assert forall|i: int| 0 <= i < n implies front[i] == #[trigger] s[i] by {}
        let places = if rule(s[n]) is Some {
            before.push(n)
        } else {
            before
        };
        assert forall|i: int| 0 <= i < s.len() && #[trigger] kept(i) implies places.contains(i) by {
            if i < n {
                assert(kept_before(i));
                let k = choose|k: int| 0 <= k < before.len() && before[k] == i;
                assert(places[k] == i);
            } else {
                assert(places[before.len() as int] == n);
            }
        }
        assert forall|k: int| 0 <= k < places.len() implies 0 <= #[trigger] places[k] < s.len()
            && kept(places[k]) && rule(s[places[k]]) == Some(s.filter_map(rule)[k]) by {
            if k < before.len() {
                assert(places[k] == before[k]);
                assert(kept_before(before[k]));
                assert(front[before[k]] == s[before[k]]);
                assert(rule(front[before[k]]) == Some(front.filter_map(rule)[k]));
            }
        }
        assert forall|i: int, j: int| 0 <= i < j < places.len() implies #[trigger] places[i]
            < #[trigger] places[j] by {
            assert(places[i] == before[i]);
            if j < before.len() {
                assert(places[j] == before[j]);
            } else {
                assert(0 <= before[i] < front.len());
            }
        }
        places
    }
}

} // verus!
