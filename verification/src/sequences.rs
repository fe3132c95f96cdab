//! Facts about filtered sequences.

use vstd::prelude::*;

verus! {

/// A filter that every element passes changes nothing.
pub proof fn filter_all<A>(s: Seq<A>, keep: spec_fn(A) -> bool)
    requires
        forall|i: int| 0 <= i < s.len() ==> keep(#[trigger] s[i]),
    ensures
        s.filter(keep) == s,
    decreases s.len(),
{
    reveal(Seq::filter);
    if s.len() > 0 {
        filter_all(s.drop_last(), keep);
        assert(s.drop_last().push(s.last()) =~= s);
    }
}

/// A filter that no element passes leaves nothing.
pub proof fn filter_none<A>(s: Seq<A>, keep: spec_fn(A) -> bool)
    requires
        forall|i: int| 0 <= i < s.len() ==> !keep(#[trigger] s[i]),
    ensures
        s.filter(keep) == Seq::<A>::empty(),
    decreases s.len(),
{
    reveal(Seq::filter);
    if s.len() > 0 {
        filter_none(s.drop_last(), keep);
    }
}

/// Filters that agree on the elements leave the same.
pub proof fn filters_agree<A>(s: Seq<A>, keep: spec_fn(A) -> bool, same: spec_fn(A) -> bool)
    requires
        forall|i: int| 0 <= i < s.len() ==> keep(#[trigger] s[i]) == same(s[i]),
    ensures
        s.filter(keep) == s.filter(same),
    decreases s.len(),
{
    reveal(Seq::filter);
    if s.len() > 0 {
        assert(keep(s[s.len() - 1]) == same(s[s.len() - 1]));
        filters_agree(s.drop_last(), keep, same);
    }
}

/// Two filters, one after the other, leave what passes both.
pub proof fn filter_of_filter<A>(
    s: Seq<A>,
    first: spec_fn(A) -> bool,
    second: spec_fn(A) -> bool,
    both: spec_fn(A) -> bool,
)
    requires
        forall|i: int|
            0 <= i < s.len() ==> #[trigger] both(s[i]) == (first(s[i]) && second(s[i])),
    ensures
        s.filter(first).filter(second) == s.filter(both),
    decreases s.len(),
{
    reveal(Seq::filter);
    if s.len() > 0 {
        let init = s.drop_last();
        let last = s.last();
        assert forall|i: int| 0 <= i < init.len() implies #[trigger] both(init[i]) == (first(
            init[i],
        ) && second(init[i])) by {
            assert(both(s[i]) == (first(s[i]) && second(s[i])));
        }
        filter_of_filter(init, first, second, both);
        assert(both(s[s.len() - 1]) == (first(last) && second(last)));
        if first(last) {
            assert(init.filter(first).push(last).drop_last() =~= init.filter(first));
        }
    }
}

/// A sequence and one more element hold that element and what was there before.
pub proof fn push_members<A>(s: Seq<A>, last: A, x: A)
    ensures
        s.push(last).contains(x) <==> s.contains(x) || x == last,
{
    if s.contains(x) {
        let i = choose|i: int| 0 <= i < s.len() && s[i] == x;
        assert(s.push(last)[i] == x);
    }
    assert(s.push(last)[s.len() as int] == last);
}

/// What a filter leaves, passes it and was there before.
pub proof fn filter_members<A>(s: Seq<A>, keep: spec_fn(A) -> bool, x: A)
    ensures
        s.filter(keep).contains(x) <==> s.contains(x) && keep(x),
    decreases s.len(),
{
    reveal(Seq::filter);
    if s.len() > 0 {
        let init = s.drop_last();
        let last = s.last();
        filter_members(init, keep, x);
        assert(s =~= init.push(last));
        push_members(init, last, x);
        push_members(init.filter(keep), last, x);
    }
}

/// What a filter leaves comes in the order it had, each element at a place of its
/// own.
pub proof fn filter_keeps_order<A>(s: Seq<A>, keep: spec_fn(A) -> bool, i: int, j: int)
    requires
        0 <= i < j < s.filter(keep).len(),
    ensures
        exists|a: int, b: int|
            0 <= a < b < s.len() && #[trigger] s[a] == s.filter(keep)[i] && #[trigger] s[b]
                == s.filter(keep)[j],
    decreases s.len(),
{
    reveal(Seq::filter);
    let kept = s.filter(keep);
    if s.len() > 0 {
        let init = s.drop_last();
        let before = init.filter(keep);
        if j < before.len() {
            filter_keeps_order(init, keep, i, j);
            let (a, b) = choose|a: int, b: int|
                0 <= a < b < init.len() && #[trigger] init[a] == before[i] && #[trigger] init[b]
                    == before[j];
            assert(s[a] == kept[i] && s[b] == kept[j]);
        } else {
            assert(before.contains(before[i]));
            filter_members(init, keep, before[i]);
            let a = choose|a: int| 0 <= a < init.len() && init[a] == before[i];
            let b = s.len() - 1;
            assert(s[a] == kept[i] && s[b] == kept[j]);
        }
    }
}

} // verus!
