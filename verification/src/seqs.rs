//! Sequences: first occurrences and first failures.

use vstd::prelude::*;

verus! {

/// `known` with those of `more` put behind that it does not hold yet.
pub open spec fn with_new<T>(known: Seq<T>, more: Seq<T>) -> Seq<T>
    decreases more.len(),
{
    if more.len() == 0 {
        known
    } else {
        let before = with_new(known, more.drop_last());
        if before.contains(more.last()) {
            before
        } else {
            before.push(more.last())
        }
    }
}

/// The elements of a sequence, each where it first stands.
pub open spec fn first_of_each<T>(s: Seq<T>) -> Seq<T> {
    with_new(Seq::empty(), s)
}

/// The elements of `more` that are not in `seen`, each where it first stands.
pub open spec fn unseen<T>(seen: Set<T>, more: Seq<T>) -> Seq<T>
    decreases more.len(),
{
    if more.len() == 0 {
        Seq::empty()
    } else {
        let before = unseen(seen, more.drop_last());
        if seen.contains(more.last()) || before.contains(more.last()) {
            before
        } else {
            before.push(more.last())
        }
    }
}

/// An element is among the unseen ones exactly where it stands in the sequence and was not seen
/// before.
pub proof fn lemma_unseen_contains<T>(seen: Set<T>, more: Seq<T>, e: T)
    ensures
        unseen(seen, more).contains(e) <==> more.contains(e) && !seen.contains(e),
    decreases more.len(),
{
    if more.len() > 0 {
        let rest = more.drop_last();
        let last = more.last();
        let before = unseen(seen, rest);
        lemma_unseen_contains(seen, rest, e);
        lemma_unseen_contains(seen, rest, last);
        assert(more =~= rest + seq![last]);
        lemma_add_contains(rest, seq![last], e);
        assert(seq![last][0] == last);
        assert(before.push(last) =~= before + seq![last]);
        lemma_add_contains(before, seq![last], e);
    }
}

/// What is put behind a sequence is what has not been seen in it.
pub proof fn lemma_with_new_is_unseen<T>(known: Seq<T>, seen: Set<T>, more: Seq<T>)
    requires
        forall|e: T| known.contains(e) <==> seen.contains(e),
    ensures
        with_new(known, more) == known + unseen(seen, more),
    decreases more.len(),
{
    if more.len() == 0 {
        assert(known + unseen(seen, more) =~= known);
    } else {
        let rest = more.drop_last();
        let last = more.last();
        lemma_with_new_is_unseen(known, seen, rest);
        let new = unseen(seen, rest);
        lemma_add_contains(known, new, last);
        assert((known + new).push(last) =~= known + new.push(last));
    }
}

/// Two sequences one after the other hold what either holds.
pub proof fn lemma_add_contains<T>(a: Seq<T>, b: Seq<T>, e: T)
    ensures
        (a + b).contains(e) <==> a.contains(e) || b.contains(e),
{
    if a.contains(e) {
        let j = choose|j: int| 0 <= j < a.len() && a[j] == e;
        assert((a + b)[j] == e);
    }
    if b.contains(e) {
        let j = choose|j: int| 0 <= j < b.len() && b[j] == e;
        assert((a + b)[a.len() + j] == e);
    }
}

/// Putting two sequences behind a third one after the other is putting both behind it.
pub proof fn lemma_with_new_add<T>(known: Seq<T>, a: Seq<T>, b: Seq<T>)
    ensures
        with_new(with_new(known, a), b) == with_new(known, a + b),
    decreases b.len(),
{
    if b.len() == 0 {
        assert(a + b =~= a);
    } else {
        assert((a + b).drop_last() =~= a + b.drop_last());
        lemma_with_new_add(known, a, b.drop_last());
    }
}

/// Nothing is put behind twice, nothing is lost, and what was there stays in front.
pub proof fn lemma_with_new<T>(known: Seq<T>, more: Seq<T>)
    requires
        known.no_duplicates(),
    ensures
        with_new(known, more).no_duplicates(),
        forall|e: T| with_new(known, more).contains(e) <==> known.contains(e) || more.contains(e),
        known.len() <= with_new(known, more).len(),
        with_new(known, more).take(known.len() as int) == known,
    decreases more.len(),
{
    if more.len() == 0 {
        assert(known.take(known.len() as int) =~= known);
    } else {
        let rest = more.drop_last();
        let last = more.last();
        lemma_with_new(known, rest);
        let before = with_new(known, rest);
        let all = with_new(known, more);
        assert(all.take(known.len() as int) =~= before.take(known.len() as int));
        assert forall|e: T| all.contains(e) <==> known.contains(e) || more.contains(e) by {
            if more.contains(e) {
                let j = choose|j: int| 0 <= j < more.len() && more[j] == e;
                if j < rest.len() {
                    assert(rest[j] == e);
                }
            }
            if rest.contains(e) {
                let j = choose|j: int| 0 <= j < rest.len() && rest[j] == e;
                assert(more[j] == e);
            }
            assert(more[more.len() - 1] == last);
            if before.contains(e) {
                let j = choose|j: int| 0 <= j < before.len() && before[j] == e;
                assert(all[j] == e);
            }
            if !before.contains(last) {
                assert(all[before.len() as int] == last);
            }
            if all.contains(e) {
                let j = choose|j: int| 0 <= j < all.len() && all[j] == e;
                if j < before.len() {
                    assert(before[j] == e);
                }
            }
        }
        assert(all.no_duplicates());
    }
}

/// The first failure in a sequence of results, where there is one.
pub open spec fn first_error<T, E>(results: Seq<Result<T, E>>) -> Option<E>
    decreases results.len(),
{
    if results.len() == 0 {
        None
    } else {
        match first_error(results.drop_last()) {
            Some(e) => Some(e),
            None => match results.last() {
                Ok(_) => None,
                Err(e) => Some(e),
            },
        }
    }
}

/// There is a first failure exactly where there is a failure, and it is the one before which all
/// succeeded.
pub proof fn lemma_first_error<T, E>(results: Seq<Result<T, E>>)
    ensures
        first_error(results) is None <==> (forall|i: int|
            0 <= i < results.len() ==> #[trigger] results[i] is Ok),
        first_error(results) is Some ==> exists|i: int|
            0 <= i < results.len() && #[trigger] results[i] == Err::<T, E>(first_error(results)->0)
                && first_error(results.take(i)) is None,
    decreases results.len(),
{
    if results.len() > 0 {
        let rest = results.drop_last();
        lemma_first_error(rest);
        assert forall|i: int| 0 <= i < rest.len() implies rest[i] == #[trigger] results[i] by {}
        if first_error(rest) is Some {
            let i = choose|i: int|
                0 <= i < rest.len() && #[trigger] rest[i] == Err::<T, E>(first_error(rest)->0)
                    && first_error(rest.take(i)) is None;
            assert(results[i] == rest[i]);
            assert(results.take(i) =~= rest.take(i));
        } else {
            assert(forall|i: int| 0 <= i < rest.len() ==> #[trigger] rest[i] is Ok);
            let n = results.len() - 1;
            assert(results.take(n) =~= rest);
            if results[n] is Err {
                assert(results[n] == Err::<T, E>(first_error(results)->0));
            }
            if results[n] is Ok {
                assert forall|i: int| 0 <= i < results.len() implies #[trigger] results[i] is Ok by {
                    if i < n {
                        assert(rest[i] == results[i]);
                    }
                }
            }
        }
    }
}

/// A first failure stays the first one, whatever follows.
pub proof fn lemma_first_error_stays<T, E>(results: Seq<Result<T, E>>, n: int)
    requires
        0 <= n <= results.len(),
        first_error(results.take(n)) is Some,
    ensures
        first_error(results) == first_error(results.take(n)),
    decreases results.len(),
{
    if n < results.len() {
        assert(results.drop_last().take(n) =~= results.take(n));
        lemma_first_error_stays(results.drop_last(), n);
    } else {
        assert(results.take(n) =~= results);
    }
}

/// The first failure among results, where there is one.
pub fn first_failure<E>(results: Vec<Result<(), E>>) -> (r: Result<(), E>)
    ensures
        r == (match first_error(results@) {
            Some(e) => Err::<(), E>(e),
            None => Ok(()),
        }),
{
    let ghost all = results@;
    let mut kept: Option<E> = None;
    for result in it: results
        invariant
            it.seq() == all,
            kept == first_error(all.take(it.index() as int)),
    {
        proof {
            let i = it.index() as int;
            assert(all.take(i + 1).drop_last() =~= all.take(i));
            assert(all.take(i + 1).last() == result);
        }
        match result {
            Ok(_) => {},
            Err(e) => {
                if kept.is_none() {
                    kept = Some(e);
                }
            },
        }
    }
    assert(all.take(all.len() as int) =~= all);
    match kept {
        Some(e) => Err(e),
        None => Ok(()),
    }
}

// ---------------------------------------------------------------------------
// Laws
// ---------------------------------------------------------------------------
/// `x` stands in `s` before any `y` does.
pub open spec fn stands_before<T>(s: Seq<T>, x: T, y: T) -> bool {
    exists|p: int|
        0 <= p < s.len() && #[trigger] s[p] == x && forall|q: int| 0 <= q <= p ==> s[q] != y
}

/// The unseen elements are exactly those that had not been seen, each once, in the order in which
/// they first stand.
pub proof fn unseen_elements_keep_their_order<T>(seen: Set<T>, more: Seq<T>)
    ensures
        unseen(seen, more).no_duplicates(),
        forall|e: T|
            #![trigger unseen(seen, more).contains(e)]
            unseen(seen, more).contains(e) <==> more.contains(e) && !seen.contains(e),
        forall|i: int, j: int|
            0 <= i < j < unseen(seen, more).len() ==> stands_before(
                more,
                #[trigger] unseen(seen, more)[i],
                #[trigger] unseen(seen, more)[j],
            ),
    decreases more.len(),
{
    assert forall|e: T| #![trigger unseen(seen, more).contains(e)]
        unseen(seen, more).contains(e) <==> more.contains(e) && !seen.contains(e) by {
        lemma_unseen_contains(seen, more, e);
    }
    if more.len() > 0 {
        let rest = more.drop_last();
        let last = more.last();
        let before = unseen(seen, rest);
        let all = unseen(seen, more);
        unseen_elements_keep_their_order(seen, rest);
        assert forall|i: int, j: int| 0 <= i < j < all.len() implies stands_before(
            more,
            #[trigger] all[i],
            #[trigger] all[j],
        ) by {
            assert(all[i] == before[i]);
            if j < before.len() {
                assert(all[j] == before[j]);
                assert(stands_before(rest, before[i], before[j]));
                let p = choose|p: int|
                    0 <= p < rest.len() && #[trigger] rest[p] == before[i] && forall|q: int|
                        0 <= q <= p ==> rest[q] != before[j];
                assert(more[p] == before[i]);
                assert forall|q: int| 0 <= q <= p implies more[q] != all[j] by {
                    assert(rest[q] == more[q]);
                }
            } else {
                assert(before.contains(before[i]));
                assert(rest.contains(before[i]));
                let p = choose|p: int| 0 <= p < rest.len() && rest[p] == before[i];
                assert(more[p] == before[i]);
                assert(!before.contains(last) && !seen.contains(last));
                assert forall|q: int| 0 <= q <= p implies more[q] != all[j] by {
                    if more[q] == last {
                        assert(rest[q] == last);
                        assert(rest.contains(last));
                    }
                }
            }
        }
    }
}

/// The first occurrences are all the elements, each once, in the order in which they first stand.
pub proof fn first_occurrences_keep_their_order<T>(s: Seq<T>)
    ensures
        first_of_each(s).no_duplicates(),
        forall|e: T| #![trigger first_of_each(s).contains(e)] first_of_each(s).contains(e)
            <==> s.contains(e),
        forall|i: int, j: int|
            0 <= i < j < first_of_each(s).len() ==> stands_before(
                s,
                #[trigger] first_of_each(s)[i],
                #[trigger] first_of_each(s)[j],
            ),
{
    lemma_with_new_is_unseen(Seq::empty(), Set::empty(), s);
    assert(Seq::empty() + unseen(Set::empty(), s) =~= unseen(Set::empty(), s));
    unseen_elements_keep_their_order(Set::empty(), s);
}

} // verus!
