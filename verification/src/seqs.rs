//! Sequences.

use vstd::prelude::*;

verus! {

/// `f` over the sequence, or the first error it gives.
pub open spec fn try_map<T, U, E>(f: spec_fn(T) -> Result<U, E>, items: Seq<T>) -> Result<Seq<U>, E>
    decreases items.len(),
{
    if items.len() == 0 {
        Ok(Seq::empty())
    } else {
        match try_map(f, items.drop_last()) {
            Ok(done) => match f(items.last()) {
                Ok(item) => Ok(done.push(item)),
                Err(error) => Err(error),
            },
            Err(error) => Err(error),
        }
    }
}

/// One step of [`try_map`]: the next item extends the result, or its error is
/// that of the whole sequence.
pub proof fn lemma_try_map_step<T, U, E>(f: spec_fn(T) -> Result<U, E>, items: Seq<T>, at: int)
    requires
        0 <= at < items.len(),
        try_map(f, items.take(at)) is Ok,
    ensures
        f(items[at]) matches Ok(item) ==> try_map(f, items.take(at + 1)) == Ok::<Seq<U>, E>(
            try_map(f, items.take(at))->Ok_0.push(item),
        ),
        f(items[at]) matches Err(error) ==> try_map(f, items) == Err::<Seq<U>, E>(error),
{
    let next = items.take(at + 1);
    assert(next.drop_last() =~= items.take(at));
    assert(next.last() == items[at]);
    if f(items[at]) is Err {
        lemma_try_map_error(f, items, at + 1);
    }
}

proof fn lemma_try_map_error<T, U, E>(f: spec_fn(T) -> Result<U, E>, items: Seq<T>, at: int)
    requires
        0 <= at <= items.len(),
        try_map(f, items.take(at)) is Err,
    ensures
        try_map(f, items) == try_map(f, items.take(at)),
    decreases items.len(),
{
    if at < items.len() {
        assert(items.drop_last().take(at) =~= items.take(at));
        lemma_try_map_error(f, items.drop_last(), at);
    } else {
        assert(items.take(at) =~= items);
    }
}

/// Where no item gives an error, [`try_map`] maps each.
pub proof fn lemma_try_map_all<T, U, E>(f: spec_fn(T) -> Result<U, E>, items: Seq<T>)
    requires
        forall|i: int| 0 <= i < items.len() ==> f(#[trigger] items[i]) is Ok,
    ensures
        try_map(f, items) == Ok::<Seq<U>, E>(Seq::new(items.len(), |i: int| f(items[i])->Ok_0)),
    decreases items.len(),
{
    if items.len() > 0 {
        lemma_try_map_all(f, items.drop_last());
        assert(try_map(f, items)->Ok_0 =~= Seq::new(items.len(), |i: int| f(items[i])->Ok_0));
    } else {
        assert(try_map(f, items)->Ok_0 =~= Seq::new(items.len(), |i: int| f(items[i])->Ok_0));
    }
}

/// What [`try_map`] gives on success.
pub proof fn lemma_try_map_ok<T, U, E>(f: spec_fn(T) -> Result<U, E>, items: Seq<T>)
    ensures
        try_map(f, items) is Ok ==> {
            let done = try_map(f, items)->Ok_0;
            &&& done.len() == items.len()
            &&& forall|i: int|
                0 <= i < items.len() ==> f(#[trigger] items[i]) == Ok::<U, E>(done[i])
        },
    decreases items.len(),
{
    if items.len() > 0 {
        lemma_try_map_ok(f, items.drop_last());
        if try_map(f, items) is Ok {
            let done = try_map(f, items)->Ok_0;
            assert forall|i: int| 0 <= i < items.len() implies f(#[trigger] items[i]) == Ok::<
                U,
                E,
            >(done[i]) by {
                if i < items.len() - 1 {
                    assert(items.drop_last()[i] == items[i]);
                }
            }
        }
    }
}

/// What `f` gives for the items, without those for which it gives nothing.
pub open spec fn filter_map<T, U>(f: spec_fn(T) -> Option<U>, items: Seq<T>) -> Seq<U>
    decreases items.len(),
{
    if items.len() == 0 {
        Seq::empty()
    } else {
        let before = filter_map(f, items.drop_last());
        match f(items.last()) {
            Some(item) => before.push(item),
            None => before,
        }
    }
}

/// One step of [`filter_map`].
pub proof fn lemma_filter_map_step<T, U>(f: spec_fn(T) -> Option<U>, items: Seq<T>, at: int)
    requires
        0 <= at < items.len(),
    ensures
        filter_map(f, items.take(at + 1)) == match f(items[at]) {
            Some(item) => filter_map(f, items.take(at)).push(item),
            None => filter_map(f, items.take(at)),
        },
{
    let next = items.take(at + 1);
    assert(next.drop_last() =~= items.take(at));
    assert(next.last() == items[at]);
}

/// The state after the steps of all items, or the first error.
pub open spec fn try_fold<S, T, E>(f: spec_fn(S, T) -> Result<S, E>, start: S, items: Seq<T>) -> Result<
    S,
    E,
>
    decreases items.len(),
{
    if items.len() == 0 {
        Ok(start)
    } else {
        match try_fold(f, start, items.drop_last()) {
            Ok(state) => f(state, items.last()),
            Err(error) => Err(error),
        }
    }
}

/// One step of [`try_fold`].
pub proof fn lemma_try_fold_step<S, T, E>(
    f: spec_fn(S, T) -> Result<S, E>,
    start: S,
    items: Seq<T>,
    at: int,
)
    requires
        0 <= at < items.len(),
        try_fold(f, start, items.take(at)) is Ok,
    ensures
        try_fold(f, start, items.take(at + 1)) == f(
            try_fold(f, start, items.take(at))->Ok_0,
            items[at],
        ),
        try_fold(f, start, items.take(at + 1)) matches Err(error) ==> try_fold(f, start, items)
            == Err::<S, E>(error),
{
    let next = items.take(at + 1);
    assert(next.drop_last() =~= items.take(at));
    assert(next.last() == items[at]);
    if try_fold(f, start, next) is Err {
        lemma_try_fold_error(f, start, items, at + 1);
    }
}

proof fn lemma_try_fold_error<S, T, E>(
    f: spec_fn(S, T) -> Result<S, E>,
    start: S,
    items: Seq<T>,
    at: int,
)
    requires
        0 <= at <= items.len(),
        try_fold(f, start, items.take(at)) is Err,
    ensures
        try_fold(f, start, items) == try_fold(f, start, items.take(at)),
    decreases items.len(),
{
    if at < items.len() {
        assert(items.drop_last().take(at) =~= items.take(at));
        lemma_try_fold_error(f, start, items.drop_last(), at);
    } else {
        assert(items.take(at) =~= items);
    }
}

/// [`try_map`] over two sequences is what it gives for each, one behind the other.
pub proof fn lemma_try_map_append<T, U, E>(
    f: spec_fn(T) -> Result<U, E>,
    first: Seq<T>,
    second: Seq<T>,
)
    requires
        try_map(f, first) is Ok,
        try_map(f, second) is Ok,
    ensures
        try_map(f, first + second) == Ok::<Seq<U>, E>(
            try_map(f, first)->Ok_0 + try_map(f, second)->Ok_0,
        ),
    decreases second.len(),
{
    if second.len() == 0 {
        assert(first + second =~= first);
        assert(try_map(f, first)->Ok_0 + try_map(f, second)->Ok_0 =~= try_map(f, first)->Ok_0);
    } else {
        assert((first + second).drop_last() =~= first + second.drop_last());
        assert((first + second).last() == second.last());
        lemma_try_map_append(f, first, second.drop_last());
        let item = f(second.last())->Ok_0;
        let front = try_map(f, second.drop_last())->Ok_0;
        assert((try_map(f, first)->Ok_0 + front).push(item) =~= try_map(f, first)->Ok_0
            + front.push(item));
    }
}

/// [`filter_map`] over two sequences is what it gives for each, one behind the
/// other.
pub proof fn lemma_filter_map_append<T, U>(
    f: spec_fn(T) -> Option<U>,
    first: Seq<T>,
    second: Seq<T>,
)
    ensures
        filter_map(f, first + second) == filter_map(f, first) + filter_map(f, second),
    decreases second.len(),
{
    if second.len() == 0 {
        assert(first + second =~= first);
        assert(filter_map(f, first) + filter_map(f, second) =~= filter_map(f, first));
    } else {
        assert((first + second).drop_last() =~= first + second.drop_last());
        assert((first + second).last() == second.last());
        lemma_filter_map_append(f, first, second.drop_last());
        if let Some(item) = f(second.last()) {
            let front = filter_map(f, second.drop_last());
            assert((filter_map(f, first) + front).push(item) =~= filter_map(f, first) + front.push(
                item,
            ));
        }
    }
}

/// [`try_map`] over two sequences gives an error exactly where it does for one of
/// them: the first error of the first one that has any.
pub proof fn lemma_try_map_parts<T, U, E>(
    f: spec_fn(T) -> Result<U, E>,
    first: Seq<T>,
    second: Seq<T>,
)
    ensures
        try_map(f, first + second) == match (try_map(f, first), try_map(f, second)) {
            (Err(error), _) => Err(error),
            (Ok(_), Err(error)) => Err(error),
            (Ok(one), Ok(two)) => Ok(one + two),
        },
    decreases second.len(),
{
    if try_map(f, first) is Ok && try_map(f, second) is Ok {
        lemma_try_map_append(f, first, second);
    } else if try_map(f, first) is Err {
        assert((first + second).take(first.len() as int) =~= first);
        lemma_try_map_error(f, first + second, first.len() as int);
    } else if second.len() > 0 {
        assert((first + second).drop_last() =~= first + second.drop_last());
        assert((first + second).last() == second.last());
        lemma_try_map_parts(f, first, second.drop_last());
    }
}

/// [`try_map`] and [`filter_map`] of nothing and of one item.
pub proof fn lemma_map_one<T, U, E>(
    f: spec_fn(T) -> Result<U, E>,
    g: spec_fn(T) -> Option<U>,
    item: T,
)
    ensures
        try_map(f, Seq::empty()) == Ok::<Seq<U>, E>(Seq::empty()),
        try_map(f, seq![item]) == match f(item) {
            Ok(mapped) => Ok(seq![mapped]),
            Err(error) => Err(error),
        },
        filter_map(g, Seq::empty()) == Seq::<U>::empty(),
        filter_map(g, seq![item]) == match g(item) {
            Some(mapped) => seq![mapped],
            None => Seq::empty(),
        },
{
    let one = seq![item];
    assert(one.drop_last() =~= Seq::empty());
    assert(try_map(f, one.drop_last()) == Ok::<Seq<U>, E>(Seq::empty()));
    if let Ok(mapped) = f(item) {
        assert(Seq::<U>::empty().push(mapped) =~= seq![mapped]);
    }
    assert(filter_map(g, one.drop_last()) == Seq::<U>::empty());
    if let Some(mapped) = g(item) {
        assert(Seq::<U>::empty().push(mapped) =~= seq![mapped]);
    }
}

/// What is mapped and what is left out keeps its order, and every item is looked at
/// once: mapping behind more items adds what they give.
pub proof fn law_mapping_keeps_the_order<T, U, E>(
    f: spec_fn(T) -> Result<U, E>,
    g: spec_fn(T) -> Option<U>,
    items: Seq<T>,
    place: int,
)
    requires
        0 <= place < items.len(),
    ensures
        try_map(f, items) matches Ok(mapped) ==> mapped.len() == items.len() && f(items[place])
            == Ok::<U, E>(mapped[place]),
        f(items[place]) is Err ==> try_map(f, items) is Err,
        g(items[place]) matches Some(mapped) ==> filter_map(g, items).contains(mapped),
        filter_map(g, items).len() <= items.len(),
{
    lemma_try_map_ok(f, items);
    lemma_filter_map_holds(g, items, place);
}

proof fn lemma_filter_map_holds<T, U>(g: spec_fn(T) -> Option<U>, items: Seq<T>, place: int)
    requires
        0 <= place < items.len(),
    ensures
        g(items[place]) matches Some(mapped) ==> filter_map(g, items).contains(mapped),
        filter_map(g, items).len() <= items.len(),
    decreases items.len(),
{
    let front = items.drop_last();
    if front.len() > 0 {
        lemma_filter_map_holds(g, front, if place < front.len() {
            place
        } else {
            0
        });
    } else {
        assert(filter_map(g, front) == Seq::<U>::empty());
    }
    let before = filter_map(g, front);
    if let Some(mapped) = g(items[place]) {
        if place < front.len() {
            assert(front[place] == items[place]);
            let at = choose|at: int| 0 <= at < before.len() && before[at] == mapped;
            assert(filter_map(g, items)[at] == mapped);
        } else {
            assert(before.push(mapped)[before.len() as int] == mapped);
        }
    }
}

} // verus!
