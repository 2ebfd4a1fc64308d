//! Which documents a document draws on: the documents that it includes,
//! and those that they include in turn.

use crate::spitem::SPItem;
use std::collections::HashSet;
use vstd::prelude::*;
use vstd::std_specs::hash::*;

verus! {

broadcast use vstd::std_specs::hash::group_hash_axioms;

/// Whether document `from` includes document `to`, where `includes`
/// lists for each document the documents that it includes.
pub open spec fn includes_directly(includes: Seq<Vec<usize>>, from: int, to: int) -> bool {
    0 <= from < includes.len() && includes[from]@.contains(to as usize) && 0 <= to
        < includes.len()
}

/// Whether `found` is the list of the documents that `main` draws on:
/// `main` first, every other document after one that includes it, no
/// document twice, and with each document those that it includes.
pub open spec fn draws_on(includes: Seq<Vec<usize>>, main: usize, found: Seq<usize>) -> bool {
    &&& found.len() > 0
    &&& found[0] == main
    &&& forall|i: int| 0 <= i < found.len() ==> (#[trigger] found[i]) < includes.len()
    &&& forall|i: int, j: int| 0 <= i < j < found.len() ==> found[i] != found[j]
    &&& forall|i: int|
        0 < i < found.len() ==> exists|j: int|
            0 <= j < i && includes_directly(includes, found[j] as int, #[trigger] found[i] as int)
    &&& forall|i: int, to: int|
        0 <= i < found.len() && includes_directly(includes, #[trigger] found[i] as int, to)
            ==> #[trigger] found.contains(to as usize)
}

/// Places below `count` of which none occurs twice are at most `count`.
pub proof fn lemma_distinct_places(places: Seq<usize>, count: nat)
    requires
        forall|i: int| 0 <= i < places.len() ==> (#[trigger] places[i]) < count,
        forall|i: int, j: int| 0 <= i < j < places.len() ==> places[i] != places[j],
    ensures
        places.len() <= count,
    decreases count,
{
    if places.len() > 0 {
        if count == 0 {
            assert(places[0] < count);
        } else if exists|k: int| 0 <= k < places.len() && places[k] == count - 1 {
            let k = choose|k: int| 0 <= k < places.len() && places[k] == count - 1;
            let rest = places.remove(k);
            assert forall|i: int| 0 <= i < rest.len() implies (#[trigger] rest[i]) < count - 1 by {
                if i < k {
                    assert(rest[i] == places[i]);
                } else {
                    assert(rest[i] == places[i + 1]);
                }
            }
            assert forall|i: int, j: int| 0 <= i < j < rest.len() implies rest[i] != rest[j] by {
                let from = if i < k { i } else { i + 1 };
                let to = if j < k { j } else { j + 1 };
                assert(rest[i] == places[from] && rest[j] == places[to]);
            }
            lemma_distinct_places(rest, (count - 1) as nat);
        } else {
            assert forall|i: int| 0 <= i < places.len() implies (#[trigger] places[i]) < count
                - 1 by {
                assert(places[i] < count);
            }
            lemma_distinct_places(places, (count - 1) as nat);
        }
    }
}

/// The documents that the document `main` draws on, where `includes`
/// lists for each document, by its place, the places of the documents
/// that it includes. A place that is no document's is passed over, and
/// nothing is found where `main` itself is no document's.
///
/// The places met are kept in a hash set, so that no document is walked
/// twice; the list gives them in the order in which they were met.
pub fn get_included_files(includes: &Vec<Vec<usize>>, main: usize) -> (found: Vec<usize>)
    ensures
        main < includes@.len() ==> draws_on(includes@, main, found@),
        main >= includes@.len() ==> found@.len() == 0,
{
    let count = includes.len();
    if main >= count {
        return Vec::new();
    }
    let mut seen: HashSet<usize> = HashSet::new();
    let mut found: Vec<usize> = Vec::new();
    seen.insert(main);
    found.push(main);
    let mut next: usize = 0;
    proof {
        assert(found@.contains(main)) by {
            assert(found@[0] == main);
        }
    }
    while next < found.len()
        invariant
            count == includes@.len(),
            next <= found@.len(),
            found@.len() > 0,
            found@[0] == main,
            forall|i: int|
                0 <= i < found@.len() ==> (#[trigger] found@[i]) < count && seen@.contains(
                    found@[i],
                ),
            forall|v: usize| #[trigger] seen@.contains(v) ==> found@.contains(v),
            forall|i: int, j: int| 0 <= i < j < found@.len() ==> found@[i] != found@[j],
            forall|i: int|
                0 < i < found@.len() ==> exists|j: int|
                    0 <= j < i && includes_directly(
                        includes@,
                        found@[j] as int,
                        #[trigger] found@[i] as int,
                    ),
            forall|i: int, to: int|
                0 <= i < next && includes_directly(includes@, #[trigger] found@[i] as int, to)
                    ==> #[trigger] found@.contains(to as usize),
        decreases count - next,
    {
        proof {
            lemma_distinct_places(found@, count as nat);
        }
        let from = found[next];
        let targets = &includes[from];
        let mut k: usize = 0;
        while k < targets.len()
            invariant
                count == includes@.len(),
                next < found@.len(),
                from == found@[next as int],
                from < count,
                targets@ == includes@[from as int]@,
                k <= targets@.len(),
                found@[0] == main,
                forall|i: int|
                    0 <= i < found@.len() ==> (#[trigger] found@[i]) < count && seen@.contains(
                        found@[i],
                    ),
                forall|v: usize| #[trigger] seen@.contains(v) ==> found@.contains(v),
                forall|i: int, j: int| 0 <= i < j < found@.len() ==> found@[i] != found@[j],
                forall|i: int|
                    0 < i < found@.len() ==> exists|j: int|
                        0 <= j < i && includes_directly(
                            includes@,
                            found@[j] as int,
                            #[trigger] found@[i] as int,
                        ),
                forall|i: int, to: int|
                    0 <= i < next && includes_directly(includes@, #[trigger] found@[i] as int, to)
                        ==> #[trigger] found@.contains(to as usize),
                forall|l: int|
                    0 <= l < k && (#[trigger] targets@[l]) < count ==> found@.contains(targets@[l]),
            decreases targets@.len() - k,
        {
            let to = targets[k];
            if to < count {
                if !seen.contains(&to) {
                    let ghost found_before = found@;
                    let ghost seen_before = seen@;
                    seen.insert(to);
                    found.push(to);
                    proof {
                        let last = found@.len() - 1;
                        assert(found@[last] == to);
                        assert forall|v: usize| #[trigger] seen@.contains(v) implies found@.contains(
                            v,
                        ) by {
                            if v == to {
                                assert(found@[last] == v);
                            } else {
                                assert(seen_before.contains(v));
                                let at = choose|at: int|
                                    0 <= at < found_before.len() && found_before[at] == v;
                                assert(found@[at] == v);
                            }
                        }
                        assert forall|i: int, j: int| 0 <= i < j < found@.len() implies found@[i]
                            != found@[j] by {
                            if j == last {
                                assert(found_before[i] == found@[i]);
                                assert(seen_before.contains(found_before[i]));
                            } else {
                                assert(found_before[i] == found@[i]);
                                assert(found_before[j] == found@[j]);
                            }
                        }
                        assert forall|i: int| 0 < i < found@.len() implies exists|j: int|
                            0 <= j < i && includes_directly(
                                includes@,
                                found@[j] as int,
                                #[trigger] found@[i] as int,
                            ) by {
                            if i == last {
                                assert(targets@[k as int] == to);
                                assert(includes_directly(includes@, found@[next as int] as int, to as int));
                            } else {
                                assert(found_before[i] == found@[i]);
                                let j = choose|j: int|
                                    0 <= j < i && includes_directly(
                                        includes@,
                                        found_before[j] as int,
                                        found_before[i] as int,
                                    );
                                assert(found@[j] == found_before[j]);
                            }
                        }
                        assert forall|i: int, other: int|
                            0 <= i < next && includes_directly(
                                includes@,
                                #[trigger] found@[i] as int,
                                other,
                            ) implies #[trigger] found@.contains(other as usize) by {
                            assert(found_before[i] == found@[i]);
                            assert(found_before.contains(other as usize));
                            let at = choose|at: int|
                                0 <= at < found_before.len() && found_before[at] == other as usize;
                            assert(found@[at] == other as usize);
                        }
                        assert forall|l: int| 0 <= l < k + 1 && (#[trigger] targets@[l]) < count implies found@.contains(
                            targets@[l],
                        ) by {
                            if l == k {
                                assert(found@[last] == targets@[l]);
                            } else {
                                assert(found_before.contains(targets@[l]));
                                let at = choose|at: int|
                                    0 <= at < found_before.len() && found_before[at] == targets@[l];
                                assert(found@[at] == targets@[l]);
                            }
                        }
                        assert forall|i: int| 0 <= i < found@.len() implies (#[trigger] found@[i])
                            < count && seen@.contains(found@[i]) by {
                            if i < last {
                                assert(found_before[i] == found@[i]);
                            }
                        }
                    }
                }
            }
            k += 1;
        }
        proof {
            assert forall|i: int, to: int|
                0 <= i < next + 1 && includes_directly(
                    includes@,
                    #[trigger] found@[i] as int,
                    to,
                ) implies #[trigger] found@.contains(to as usize) by {
                if i == next {
                    let l = choose|l: int|
                        0 <= l < targets@.len() && targets@[l] == to as usize;
                    assert(targets@[l] < count);
                }
            }
        }
        next += 1;
    }
    found
}

/// The items of the documents at the places `order`, document by
/// document, where `items` lists the items of each document. A place
/// that is no document's gives no items.
pub open spec fn gathered(items: Seq<&Vec<SPItem>>, order: Seq<usize>) -> Seq<SPItem>
    decreases order.len(),
{
    if order.len() == 0 {
        Seq::empty()
    } else if order.last() < items.len() {
        gathered(items, order.drop_last()) + items[order.last() as int]@
    } else {
        gathered(items, order.drop_last())
    }
}

/// The places of all documents, in their order.
pub open spec fn all_places(count: nat) -> Seq<usize> {
    Seq::new(count, |i: int| i as usize)
}

fn gather<'a>(items: &Vec<&'a Vec<SPItem>>, order: &Vec<usize>) -> (all: Vec<&'a SPItem>)
    ensures
        all@.len() == gathered(items@, order@).len(),
        forall|i: int| 0 <= i < all@.len() ==> *(#[trigger] all@[i]) == gathered(items@, order@)[i],
{
    let mut all: Vec<&'a SPItem> = Vec::new();
    let mut d: usize = 0;
    while d < order.len()
        invariant
            d <= order@.len(),
            all@.len() == gathered(items@, order@.take(d as int)).len(),
            forall|i: int|
                0 <= i < all@.len() ==> *(#[trigger] all@[i]) == gathered(
                    items@,
                    order@.take(d as int),
                )[i],
        decreases order.len() - d,
    {
        let place = order[d];
        proof {
            assert(order@.take(d + 1).drop_last() =~= order@.take(d as int));
            assert(order@.take(d + 1).last() == place);
        }
        if place < items.len() {
            let document = items[place];
            let ghost before = gathered(items@, order@.take(d as int));
            let mut i: usize = 0;
            while i < document.len()
                invariant
                    i <= document@.len(),
                    place < items@.len(),
                    document@ == items@[place as int]@,
                    all@.len() == before.len() + i,
                    forall|k: int| 0 <= k < before.len() ==> *(#[trigger] all@[k]) == before[k],
                    forall|k: int|
                        0 <= k < i ==> *(#[trigger] all@[before.len() + k]) == document@[k],
                decreases document.len() - i,
            {
                all.push(&document[i]);
                i += 1;
            }
            proof {
                let after = gathered(items@, order@.take(d + 1));
                assert(after =~= before + document@);
                assert forall|k: int| 0 <= k < all@.len() implies *(#[trigger] all@[k])
                    == after[k] by {
                    if k >= before.len() {
                        assert(*all@[before.len() + (k - before.len())] == document@[k
                            - before.len()]);
                    }
                }
            }
        }
        d += 1;
    }
    proof {
        assert(order@.take(order@.len() as int) =~= order@);
    }
    all
}

/// The items that a request is answered from: those of the document
/// `main` and of the documents that it draws on, where there is a main
/// document and it is one of the documents; and else those of all
/// documents.
pub fn get_all_items<'a>(
    items: &Vec<&'a Vec<SPItem>>,
    includes: &Vec<Vec<usize>>,
    main: Option<usize>,
) -> (all: Vec<&'a SPItem>)
    ensures
        match main {
            Some(place) if place < includes@.len() => exists|found: Seq<usize>|
                draws_on(includes@, place, found) && all@.len() == gathered(items@, found).len()
                    && forall|i: int|
                    0 <= i < all@.len() ==> *(#[trigger] all@[i]) == gathered(items@, found)[i],
            _ => all@.len() == gathered(items@, all_places(items@.len())).len() && forall|i: int|
                0 <= i < all@.len() ==> *(#[trigger] all@[i]) == gathered(
                    items@,
                    all_places(items@.len()),
                )[i],
        },
{
    let within = match main {
        Some(place) => place < includes.len(),
        None => false,
    };
    match main {
        Some(place) if within => {
            let found = get_included_files(includes, place);
            gather(items, &found)
        },
        _ => {
            let mut order: Vec<usize> = Vec::new();
            let mut d: usize = 0;
            while d < items.len()
                invariant
                    d <= items@.len(),
                    order@ == all_places(d as nat),
                decreases items.len() - d,
            {
                order.push(d);
                proof {
                    assert(order@ =~= all_places((d + 1) as nat));
                }
                d += 1;
            }
            gather(items, &order)
        },
    }
}

} // verus!
