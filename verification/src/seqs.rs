//! Sequences of results, lists of lists, and dictionary encoding, as
//! mathematical functions, with what is proved of them.

use vstd::prelude::*;

verus! {

/// The values of a sequence of results, or the first failure among them.
pub open spec fn collect<T, E>(items: Seq<Result<T, E>>) -> Result<Seq<T>, E>
    decreases items.len(),
{
    if items.len() == 0 {
        Ok(Seq::empty())
    } else {
        match collect(items.drop_last()) {
            Err(e) => Err(e),
            Ok(head) => match items.last() {
                Err(e) => Err(e),
                Ok(v) => Ok(head.push(v)),
            },
        }
    }
}

/// What `collect` gives, it gives item by item.
pub proof fn lemma_collect_items<T, E>(items: Seq<Result<T, E>>)
    requires
        collect(items) is Ok,
    ensures
        collect(items)->Ok_0.len() == items.len(),
        forall|i: int|
            0 <= i < items.len() ==> (#[trigger] items[i]) == Ok::<T, E>(collect(items)->Ok_0[i]),
    decreases items.len(),
{
    if items.len() > 0 {
        lemma_collect_items(items.drop_last());
        assert forall|i: int| 0 <= i < items.len() implies (#[trigger] items[i]) == Ok::<T, E>(
            collect(items)->Ok_0[i],
        ) by {
            if i < items.len() - 1 {
                assert(items.drop_last()[i] == items[i]);
            }
        }
    }
}

/// Where item `k` is the first to fail, its failure is that of the whole.
pub proof fn lemma_collect_first_err<T, E>(items: Seq<Result<T, E>>, k: int)
    requires
        0 <= k < items.len(),
        items[k] is Err,
        forall|j: int| 0 <= j < k ==> (#[trigger] items[j]) is Ok,
    ensures
        collect(items) == Err::<Seq<T>, E>(items[k]->Err_0),
    decreases items.len(),
{
    if k < items.len() - 1 {
        lemma_collect_first_err(items.drop_last(), k);
    } else {
        lemma_collect_all_ok(items.drop_last());
    }
}

/// Where no item fails, the whole does not fail.
pub proof fn lemma_collect_all_ok<T, E>(items: Seq<Result<T, E>>)
    requires
        forall|j: int| 0 <= j < items.len() ==> (#[trigger] items[j]) is Ok,
    ensures
        collect(items) is Ok,
    decreases items.len(),
{
    if items.len() > 0 {
        lemma_collect_all_ok(items.drop_last());
    }
}

/// A failure among the first `n` items is the failure of the whole.
pub proof fn lemma_collect_prefix_err<T, E>(items: Seq<Result<T, E>>, n: int)
    requires
        0 <= n <= items.len(),
        collect(items.take(n)) is Err,
    ensures
        collect(items) == collect(items.take(n)),
    decreases items.len() - n,
{
    if n < items.len() {
        assert(items.take(n + 1).drop_last() == items.take(n));
        lemma_collect_prefix_err(items, n + 1);
    } else {
        assert(items.take(n) == items);
    }
}

/// Without an item that does not fail, `collect` gives the same failure, or
/// the same values without the one of that item.
pub proof fn lemma_collect_remove<T, E>(items: Seq<Result<T, E>>, i: int)
    requires
        0 <= i < items.len(),
        items[i] is Ok,
    ensures
        match collect(items) {
            Ok(values) => collect(items.remove(i)) == Ok::<Seq<T>, E>(values.remove(i)),
            Err(e) => collect(items.remove(i)) == Err::<Seq<T>, E>(e),
        },
    decreases items.len(),
{
    if i == items.len() - 1 {
        assert(items.remove(i) == items.drop_last());
        if collect(items.drop_last()) is Ok {
            lemma_collect_items(items.drop_last());
            let head = collect(items.drop_last())->Ok_0;
            assert(head.push(items.last()->Ok_0).remove(i) == head);
        }
    } else {
        lemma_collect_remove(items.drop_last(), i);
        assert(items.remove(i).drop_last() == items.drop_last().remove(i));
        assert(items.remove(i).last() == items.last());
        if collect(items) is Ok {
            lemma_collect_items(items.drop_last());
            let head = collect(items.drop_last())->Ok_0;
            assert(head.push(items.last()->Ok_0).remove(i) == head.remove(i).push(
                items.last()->Ok_0,
            ));
        }
    }
}

/// The lists laid end to end.
pub open spec fn concat<T>(lists: Seq<Seq<T>>) -> Seq<T>
    decreases lists.len(),
{
    if lists.len() == 0 {
        Seq::empty()
    } else {
        concat(lists.drop_last()) + lists.last()
    }
}

/// The offsets of the lists in their concatenation: entry `i` is the number
/// of items in the lists before list `i`, and the last entry the number of
/// all items.
pub open spec fn offsets_of<T>(lists: Seq<Seq<T>>) -> Seq<int> {
    Seq::new(lists.len() + 1, |i: int| concat(lists.take(i)).len() as int)
}

/// Each list adds its length to the offset before it.
pub proof fn lemma_offsets_step<T>(lists: Seq<Seq<T>>, i: int)
    requires
        0 <= i < lists.len(),
    ensures
        concat(lists.take(i + 1)) == concat(lists.take(i)) + lists[i],
        offsets_of(lists)[i + 1] == offsets_of(lists)[i] + lists[i].len(),
{
    assert(lists.take(i + 1).drop_last() == lists.take(i));
}

/// The offsets start at zero and end at the number of all items.
pub proof fn lemma_offsets_ends<T>(lists: Seq<Seq<T>>)
    ensures
        offsets_of(lists)[0] == 0,
        offsets_of(lists)[lists.len() as int] == concat(lists).len(),
{
    assert(lists.take(0) == Seq::<Seq<T>>::empty());
    assert(lists.take(lists.len() as int) == lists);
}

/// Without a list that is empty, the lists laid end to end are the same.
pub proof fn lemma_concat_remove_empty<T>(lists: Seq<Seq<T>>, i: int)
    requires
        0 <= i < lists.len(),
        lists[i].len() == 0,
    ensures
        concat(lists.remove(i)) == concat(lists),
    decreases lists.len(),
{
    if i == lists.len() - 1 {
        assert(lists.remove(i) == lists.drop_last());
        assert(concat(lists.drop_last()) + lists.last() == concat(lists.drop_last()));
    } else {
        lemma_concat_remove_empty(lists.drop_last(), i);
        assert(lists.remove(i).drop_last() == lists.drop_last().remove(i));
        assert(lists.remove(i).last() == lists.last());
    }
}

/// The distinct texts of a sequence of optional texts, in the order in which
/// each first comes.
pub open spec fn distinct(texts: Seq<Option<Seq<char>>>) -> Seq<Seq<char>>
    decreases texts.len(),
{
    if texts.len() == 0 {
        Seq::empty()
    } else {
        let head = distinct(texts.drop_last());
        match texts.last() {
            Some(s) => if head.contains(s) {
                head
            } else {
                head.push(s)
            },
            None => head,
        }
    }
}

/// The position of a text among distinct texts.
pub open spec fn key_of(values: Seq<Seq<char>>, s: Seq<char>) -> int {
    choose|k: int| 0 <= k < values.len() && values[k] == s
}

/// The dictionary keys of a sequence of optional texts: for each text its
/// position among the distinct texts, and nothing for a missing text.
pub open spec fn dictionary_keys(texts: Seq<Option<Seq<char>>>) -> Seq<Option<int>> {
    Seq::new(
        texts.len(),
        |i: int|
            match texts[i] {
                Some(s) => Some(key_of(distinct(texts), s)),
                None => None,
            },
    )
}

/// No text stands twice among the distinct texts, and each of them is one of
/// the texts.
pub proof fn lemma_distinct_no_duplicates(texts: Seq<Option<Seq<char>>>)
    ensures
        distinct(texts).no_duplicates(),
    decreases texts.len(),
{
    if texts.len() > 0 {
        lemma_distinct_no_duplicates(texts.drop_last());
    }
}

/// The distinct texts of the first `n` texts are the first of the distinct
/// texts of all.
pub proof fn lemma_distinct_prefix(texts: Seq<Option<Seq<char>>>, n: int)
    requires
        0 <= n <= texts.len(),
    ensures
        distinct(texts.take(n)).len() <= distinct(texts).len(),
        distinct(texts.take(n)) == distinct(texts).take(distinct(texts.take(n)).len() as int),
    decreases texts.len() - n,
{
    if n < texts.len() {
        assert(texts.take(n + 1).drop_last() == texts.take(n));
        lemma_distinct_prefix(texts, n + 1);
        let small = distinct(texts.take(n));
        let next = distinct(texts.take(n + 1));
        let all = distinct(texts);
        assert(small == next.take(small.len() as int));
        assert(small =~= all.take(small.len() as int));
    } else {
        assert(texts.take(n) == texts);
        assert(distinct(texts) =~= distinct(texts).take(distinct(texts).len() as int));
    }
}

/// Every text is among the distinct texts.
pub proof fn lemma_distinct_contains(texts: Seq<Option<Seq<char>>>, i: int)
    requires
        0 <= i < texts.len(),
        texts[i] is Some,
    ensures
        distinct(texts).contains(texts[i]->Some_0),
    decreases texts.len(),
{
    let head = distinct(texts.drop_last());
    if i < texts.len() - 1 {
        lemma_distinct_contains(texts.drop_last(), i);
        let k = choose|k: int| 0 <= k < head.len() && head[k] == texts[i]->Some_0;
        assert(distinct(texts)[k] == texts[i]->Some_0);
    } else {
        let s = texts.last()->Some_0;
        if head.contains(s) {
        } else {
            assert(head.push(s)[head.len() as int] == s);
        }
    }
}

/// Without a missing text, the distinct texts are the same.
pub proof fn lemma_distinct_remove_none(texts: Seq<Option<Seq<char>>>, i: int)
    requires
        0 <= i < texts.len(),
        texts[i] is None,
    ensures
        distinct(texts.remove(i)) == distinct(texts),
    decreases texts.len(),
{
    if i == texts.len() - 1 {
        assert(texts.remove(i) == texts.drop_last());
    } else {
        lemma_distinct_remove_none(texts.drop_last(), i);
        assert(texts.remove(i).drop_last() == texts.drop_last().remove(i));
        assert(texts.remove(i).last() == texts.last());
    }
}

/// Among texts of which no two are the same, the position of a text is the
/// one place where it stands.
pub proof fn lemma_key_of(values: Seq<Seq<char>>, k: int)
    requires
        values.no_duplicates(),
        0 <= k < values.len(),
    ensures
        key_of(values, values[k]) == k,
{
}

/// The key of a text does not change when more texts follow.
pub proof fn lemma_key_stable(texts: Seq<Option<Seq<char>>>, n: int, s: Seq<char>)
    requires
        0 <= n <= texts.len(),
        distinct(texts.take(n)).contains(s),
    ensures
        key_of(distinct(texts), s) == key_of(distinct(texts.take(n)), s),
        0 <= key_of(distinct(texts), s) < distinct(texts.take(n)).len(),
{
    let small = distinct(texts.take(n));
    let all = distinct(texts);
    lemma_distinct_prefix(texts, n);
    lemma_distinct_no_duplicates(texts);
    lemma_distinct_no_duplicates(texts.take(n));
    let k = choose|k: int| 0 <= k < small.len() && small[k] == s;
    assert(all[k] == all.take(small.len() as int)[k]);
    lemma_key_of(all, k);
    lemma_key_of(small, k);
}

} // verus!
