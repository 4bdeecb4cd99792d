//! Facts about sequences that the laws of the store rest on: how `filter`
//! and `filter_map` behave under concatenation, insertion and agreement of
//! the functions.

use vstd::prelude::*;

verus! {

/// `filter_map` goes through a concatenation.
pub proof fn filter_map_add<A, B>(a: Seq<A>, b: Seq<A>, f: spec_fn(A) -> Option<B>)
    ensures
        (a + b).filter_map(f) == a.filter_map(f) + b.filter_map(f),
    decreases b.len(),
{
    if b.len() == 0 {
        assert(a + b =~= a);
        assert(a.filter_map(f) + b.filter_map(f) =~= a.filter_map(f));
    } else {
        assert((a + b).drop_last() =~= a + b.drop_last());
        assert((a + b).last() == b.last());
        filter_map_add(a, b.drop_last(), f);
        match f(b.last()) {
            Some(x) => {
                assert((a.filter_map(f) + b.drop_last().filter_map(f)) + seq![x]
                    =~= a.filter_map(f) + (b.drop_last().filter_map(f) + seq![x]));
            },
            None => {},
        }
    }
}

/// Two functions that agree on every item of `s` give the same `filter_map`.
pub proof fn filter_map_agree<A, B>(
    s: Seq<A>,
    f: spec_fn(A) -> Option<B>,
    g: spec_fn(A) -> Option<B>,
)
    requires
        forall|i: int| 0 <= i < s.len() ==> f(#[trigger] s[i]) == g(s[i]),
    ensures
        s.filter_map(f) == s.filter_map(g),
    decreases s.len(),
{
    if s.len() > 0 {
        assert forall|i: int| 0 <= i < s.drop_last().len() implies f(#[trigger] s.drop_last()[i])
            == g(s.drop_last()[i]) by {
            assert(s.drop_last()[i] == s[i]);
        }
        filter_map_agree(s.drop_last(), f, g);
        assert(s.last() == s[s.len() - 1]);
    }
}

/// `filter_map` of a single item.
pub proof fn filter_map_one<A, B>(a: A, f: spec_fn(A) -> Option<B>)
    ensures
        seq![a].filter_map(f) == (match f(a) {
            Some(x) => seq![x],
            None => Seq::empty(),
        }),
{
    Seq::lemma_filter_map_singleton(a, f);
}

/// `filter_map` after an insertion: the image of the new item, where it has
/// one, goes in behind the images of the items before it.
pub proof fn filter_map_insert<A, B>(s: Seq<A>, k: int, a: A, f: spec_fn(A) -> Option<B>)
    requires
        0 <= k <= s.len(),
    ensures
        s.insert(k, a).filter_map(f) == (match f(a) {
            Some(x) => s.filter_map(f).insert(s.take(k).filter_map(f).len() as int, x),
            None => s.filter_map(f),
        }),
        s.take(k).filter_map(f).len() <= s.filter_map(f).len(),
{
    let front = s.take(k);
    let back = s.skip(k);
    assert(s =~= front + back);
    assert(s.insert(k, a) =~= (front + seq![a]) + back);
    filter_map_add(front, back, f);
    filter_map_add(front + seq![a], back, f);
    filter_map_add(front, seq![a], f);
    filter_map_one(a, f);
    let ff = front.filter_map(f);
    let bf = back.filter_map(f);
    match f(a) {
        Some(x) => {
            assert((ff + seq![x]) + bf =~= (ff + bf).insert(ff.len() as int, x));
        },
        None => {
            assert(ff + Seq::<B>::empty() =~= ff);
        },
    }
}

/// Every item of a `filter_map` is the image of an item, and the image of
/// every item is in it.
pub proof fn filter_map_items<A, B>(s: Seq<A>, f: spec_fn(A) -> Option<B>)
    ensures
        forall|x: B| #[trigger]
            s.filter_map(f).contains(x) <==> exists|i: int|
                0 <= i < s.len() && f(#[trigger] s[i]) == Some(x),
    decreases s.len(),
{
    if s.len() == 0 {
    } else {
        let rest = s.drop_last();
        filter_map_items(rest, f);
        let out = s.filter_map(f);
        assert forall|x: B| #[trigger] out.contains(x) <==> exists|i: int|
            0 <= i < s.len() && f(#[trigger] s[i]) == Some(x) by {
            if out.contains(x) {
                let j = choose|j: int| 0 <= j < out.len() && out[j] == x;
                if j < rest.filter_map(f).len() {
                    assert(rest.filter_map(f)[j] == x);
                    assert(rest.filter_map(f).contains(x));
                    let i = choose|i: int| 0 <= i < rest.len() && f(#[trigger] rest[i]) == Some(x);
                    assert(s[i] == rest[i]);
                } else {
                    assert(f(s[s.len() - 1]) == Some(x));
                }
            }
            if exists|i: int| 0 <= i < s.len() && f(#[trigger] s[i]) == Some(x) {
                let i = choose|i: int| 0 <= i < s.len() && f(#[trigger] s[i]) == Some(x);
                if i < rest.len() {
                    assert(rest[i] == s[i]);
                    assert(rest.filter_map(f).contains(x));
                    let j = choose|j: int|
                        0 <= j < rest.filter_map(f).len() && rest.filter_map(f)[j] == x;
                    assert(out[j] == x);
                } else {
                    assert(out[out.len() - 1] == x);
                }
            }
        }
    }
}

/// A `filter_map` is empty exactly when no item has an image.
pub proof fn filter_map_empty<A, B>(s: Seq<A>, f: spec_fn(A) -> Option<B>)
    ensures
        s.filter_map(f).len() == 0 <==> forall|i: int|
            0 <= i < s.len() ==> f(#[trigger] s[i]) is None,
{
    filter_map_items(s, f);
    let out = s.filter_map(f);
    if out.len() > 0 {
        assert(out.contains(out[0]));
    }
    if exists|i: int| 0 <= i < s.len() && !(f(#[trigger] s[i]) is None) {
        let i = choose|i: int| 0 <= i < s.len() && !(f(#[trigger] s[i]) is None);
        assert(f(s[i]) == Some(f(s[i])->Some_0));
        assert(out.contains(f(s[i])->Some_0));
    }
}

/// Two `filter_map`s in a row are one.
pub proof fn filter_map_twice<A, B, C>(
    s: Seq<A>,
    f: spec_fn(A) -> Option<B>,
    g: spec_fn(B) -> Option<C>,
    h: spec_fn(A) -> Option<C>,
)
    requires
        forall|a: A|
            #[trigger] h(a) == (match f(a) {
                Some(b) => g(b),
                None => None,
            }),
    ensures
        s.filter_map(f).filter_map(g) == s.filter_map(h),
    decreases s.len(),
{
    if s.len() == 0 {
    } else {
        let rest = s.drop_last();
        filter_map_twice(rest, f, g, h);
        match f(s.last()) {
            Some(b) => {
                filter_map_add(rest.filter_map(f), seq![b], g);
                filter_map_one(b, g);
                match g(b) {
                    Some(c) => {},
                    None => {
                        assert(rest.filter_map(h) + Seq::<C>::empty() =~= rest.filter_map(h));
                    },
                }
            },
            None => {},
        }
    }
}

/// A `filter` is empty where no item meets the predicate.
pub proof fn filter_none<A>(s: Seq<A>, p: spec_fn(A) -> bool)
    requires
        forall|i: int| 0 <= i < s.len() ==> !p(#[trigger] s[i]),
    ensures
        s.filter(p) == Seq::<A>::empty(),
    decreases s.len(),
{
    reveal(Seq::filter);
    if s.len() > 0 {
        assert forall|i: int| 0 <= i < s.drop_last().len() implies !p(#[trigger] s.drop_last()[i]) by {
            assert(s.drop_last()[i] == s[i]);
        }
        filter_none(s.drop_last(), p);
        assert(s.last() == s[s.len() - 1]);
    }
}

/// A `filter` keeps exactly the items that meet the predicate.
pub proof fn filter_items<A>(s: Seq<A>, p: spec_fn(A) -> bool)
    ensures
        forall|x: A| #[trigger] s.filter(p).contains(x) <==> s.contains(x) && p(x),
{
    broadcast use vstd::seq_lib::group_filter_ensures;

    assert forall|x: A| #[trigger] s.filter(p).contains(x) implies s.contains(x) && p(x) by {
        s.lemma_filter_contains_rev(p, x);
        let j = choose|j: int| 0 <= j < s.filter(p).len() && s.filter(p)[j] == x;
        assert(p(s.filter(p)[j]));
    }
    assert forall|x: A| s.contains(x) && p(x) implies #[trigger] s.filter(p).contains(x) by {
        let i = choose|i: int| 0 <= i < s.len() && s[i] == x;
        assert(s.filter(p).contains(s[i]));
    }
}

/// `filter` after an insertion: the new item, where it meets the predicate,
/// goes in behind the kept items before it.
pub proof fn filter_insert<A>(s: Seq<A>, k: int, a: A, p: spec_fn(A) -> bool)
    requires
        0 <= k <= s.len(),
    ensures
        s.insert(k, a).filter(p) == (if p(a) {
            s.filter(p).insert(s.take(k).filter(p).len() as int, a)
        } else {
            s.filter(p)
        }),
        s.take(k).filter(p).len() <= s.filter(p).len(),
{
    let front = s.take(k);
    let back = s.skip(k);
    assert(s =~= front + back);
    assert(s.insert(k, a) =~= front.push(a) + back);
    Seq::filter_distributes_over_add(front, back, p);
    Seq::filter_distributes_over_add(front.push(a), back, p);
    front.lemma_filter_push(a, p);
    let ff = front.filter(p);
    let bf = back.filter(p);
    if p(a) {
        assert(ff.push(a) + bf =~= (ff + bf).insert(ff.len() as int, a));
    }
}

/// A `filter` of a sequence without duplicates has none.
pub proof fn filter_keeps_distinct<A>(s: Seq<A>, p: spec_fn(A) -> bool)
    requires
        s.no_duplicates(),
    ensures
        s.filter(p).no_duplicates(),
    decreases s.len(),
{
    reveal(Seq::filter);
    if s.len() > 0 {
        let rest = s.drop_last();
        assert(rest.no_duplicates());
        filter_keeps_distinct(rest, p);
        if p(s.last()) {
            filter_items(rest, p);
            if rest.filter(p).contains(s.last()) {
                let i = choose|i: int| 0 <= i < rest.len() && rest[i] == s.last();
                assert(s[i] == s[s.len() - 1]);
            }
            let out = rest.filter(p).push(s.last());
            assert forall|i: int, j: int| 0 <= i < out.len() && 0 <= j < out.len() && i != j implies out[i]
                != out[j] by {
                if i < rest.filter(p).len() && j < rest.filter(p).len() {
                } else if i < rest.filter(p).len() {
                    assert(rest.filter(p).contains(out[i]));
                } else {
                    assert(rest.filter(p).contains(out[j]));
                }
            }
        }
    }
}

/// A `filter` that every item passes changes nothing.
pub proof fn filter_every<A>(s: Seq<A>, p: spec_fn(A) -> bool)
    requires
        forall|i: int| 0 <= i < s.len() ==> p(#[trigger] s[i]),
    ensures
        s.filter(p) == s,
    decreases s.len(),
{
    reveal(Seq::filter);
    if s.len() > 0 {
        assert forall|i: int| 0 <= i < s.drop_last().len() implies p(#[trigger] s.drop_last()[i]) by {
            assert(s.drop_last()[i] == s[i]);
        }
        filter_every(s.drop_last(), p);
        assert(s.last() == s[s.len() - 1]);
        assert(s.drop_last().push(s.last()) =~= s);
    } else {
        assert(s.filter(p) =~= s);
    }
}

/// Two `filter`s in a row are one, by a predicate that holds where both do.
pub proof fn filter_twice<A>(
    s: Seq<A>,
    p: spec_fn(A) -> bool,
    q: spec_fn(A) -> bool,
    both: spec_fn(A) -> bool,
)
    requires
        forall|i: int| 0 <= i < s.len() ==> both(#[trigger] s[i]) == (p(s[i]) && q(s[i])),
    ensures
        s.filter(p).filter(q) == s.filter(both),
    decreases s.len(),
{
    reveal(Seq::filter);
    if s.len() > 0 {
        let rest = s.drop_last();
        assert forall|i: int| 0 <= i < rest.len() implies both(#[trigger] rest[i]) == (p(rest[i])
            && q(rest[i])) by {
            assert(rest[i] == s[i]);
        }
        filter_twice(rest, p, q, both);
        assert(s.last() == s[s.len() - 1]);
        if p(s.last()) {
            rest.filter(p).lemma_filter_push(s.last(), q);
        }
    }
}

/// Items with distinct keys have distinct keys after a `filter`.
pub proof fn filter_keeps_keys_distinct<A, K>(
    s: Seq<A>,
    p: spec_fn(A) -> bool,
    key: spec_fn(A) -> K,
)
    requires
        forall|i: int, j: int| 0 <= i < j < s.len() ==> key(#[trigger] s[i]) != key(#[trigger] s[j]),
    ensures
        forall|i: int, j: int|
            0 <= i < j < s.filter(p).len() ==> key(#[trigger] s.filter(p)[i]) != key(
                #[trigger] s.filter(p)[j],
            ),
    decreases s.len(),
{
    reveal(Seq::filter);
    if s.len() > 0 {
        let rest = s.drop_last();
        assert forall|i: int, j: int| 0 <= i < j < rest.len() implies key(#[trigger] rest[i])
            != key(#[trigger] rest[j]) by {
            assert(rest[i] == s[i] && rest[j] == s[j]);
        }
        filter_keeps_keys_distinct(rest, p, key);
        if p(s.last()) {
            filter_items(rest, p);
            let out = rest.filter(p).push(s.last());
            assert forall|i: int, j: int| 0 <= i < j < out.len() implies key(#[trigger] out[i])
                != key(#[trigger] out[j]) by {
                if j == out.len() - 1 {
                    assert(rest.filter(p).contains(out[i]));
                    let k = choose|k: int| 0 <= k < rest.len() && rest[k] == out[i];
                    assert(s[k] == out[i]);
                    assert(s[s.len() - 1] == out[j]);
                } else {
                    assert(rest.filter(p)[i] == out[i]);
                    assert(rest.filter(p)[j] == out[j]);
                }
            }
        }
    }
}

/// Two sequences without duplicates that hold the same items are equally
/// long.
pub proof fn same_items_same_length<A>(a: Seq<A>, b: Seq<A>)
    requires
        a.no_duplicates(),
        b.no_duplicates(),
        forall|x: A| a.contains(x) <==> b.contains(x),
    ensures
        a.len() == b.len(),
{
    a.unique_seq_to_set();
    b.unique_seq_to_set();
    assert(a.to_set() =~= b.to_set());
}

} // verus!
