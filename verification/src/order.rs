//! Stable ordering of a sequence by an integer key.

use vstd::prelude::*;

verus! {

/// The test "the key of an item is `k`".
pub open spec fn key_is<T>(key: spec_fn(T) -> u32, k: u32) -> spec_fn(T) -> bool {
    |x: T| key(x) == k
}

/// The items of `s` whose key is `k`, in their order in `s`.
pub open spec fn keyed_with<T>(s: Seq<T>, key: spec_fn(T) -> u32, k: u32) -> Seq<T> {
    s.filter(key_is(key, k))
}

/// The keys of `s` never decrease.
pub open spec fn sorted_by_key<T>(s: Seq<T>, key: spec_fn(T) -> u32) -> bool {
    forall|i: int, j: int| 0 <= i <= j < s.len() ==> key(#[trigger] s[i]) <= key(#[trigger] s[j])
}

/// `out` holds the items of `input` in key order, items of equal key in the
/// order they had in `input`: what a stable sort by that key gives.
pub open spec fn is_stable_sort_of<T>(out: Seq<T>, input: Seq<T>, key: spec_fn(T) -> u32) -> bool {
    &&& sorted_by_key(out, key)
    &&& forall|k: u32| #[trigger] keyed_with(out, key, k) == keyed_with(input, key, k)
}

/// No item of `s` has key `k`.
proof fn lemma_keyed_empty<T>(s: Seq<T>, key: spec_fn(T) -> u32, k: u32)
    requires
        forall|i: int| 0 <= i < s.len() ==> key(#[trigger] s[i]) != k,
    ensures
        keyed_with(s, key, k) == Seq::<T>::empty(),
    decreases s.len(),
{
    reveal(Seq::filter);
    if s.len() > 0 {
        assert forall|i: int| 0 <= i < s.drop_last().len() implies key(
            #[trigger] s.drop_last()[i],
        ) != k by {
            assert(s.drop_last()[i] == s[i]);
        }
        lemma_keyed_empty(s.drop_last(), key, k);
        assert(key(s[s.len() - 1]) != k);
    }
}

/// The items of a one-item sequence with key `k`.
proof fn lemma_keyed_single<T>(x: T, key: spec_fn(T) -> u32, k: u32)
    ensures
        keyed_with(seq![x], key, k) == (if key(x) == k {
            seq![x]
        } else {
            Seq::<T>::empty()
        }),
{
    reveal(Seq::filter);
    assert(seq![x].drop_last() =~= Seq::<T>::empty());
    assert(Seq::<T>::empty().filter(key_is(key, k)) =~= Seq::<T>::empty());
    assert(seq![x].last() == x);
}

/// Sorts `items` by key, stably; `keys` holds the key of each item.
pub(crate) fn stable_sort_by_key<T>(items: Vec<T>, keys: Vec<u32>, Ghost(key): Ghost<spec_fn(T) -> u32>) -> (out: Vec<T>)
    requires
        items@.len() == keys@.len(),
        forall|i: int| 0 <= i < items@.len() ==> keys@[i] == key(#[trigger] items@[i]),
    ensures
        is_stable_sort_of(out@, items@, key),
        sorted_by_key(items@, key) ==> out@ == items@,
{
    let ghost orig = items@;
    let mut items = items;
    let mut keys = keys;
    let mut out: Vec<T> = Vec::new();
    let mut out_keys: Vec<u32> = Vec::new();
    while items.len() > 0
        invariant
            items@.len() == keys@.len(),
            items@.len() <= orig.len(),
            items@ == orig.take(items@.len() as int),
            forall|i: int| 0 <= i < items@.len() ==> keys@[i] == key(#[trigger] items@[i]),
            out@.len() == out_keys@.len(),
            forall|i: int| 0 <= i < out@.len() ==> out_keys@[i] == key(#[trigger] out@[i]),
            sorted_by_key(out@, key),
            forall|k: u32| #[trigger]
                keyed_with(out@, key, k) == keyed_with(orig.skip(items@.len() as int), key, k),
            sorted_by_key(orig, key) ==> out@ == orig.skip(items@.len() as int),
        decreases items@.len(),
    {
        let ghost j = items@.len() as int;
        let ghost old_out = out@;
        let x = items.pop().unwrap();
        let kx = keys.pop().unwrap();
        assert(x == orig[j - 1]);
        assert(kx == key(x));
        let mut p: usize = 0;
        while p < out_keys.len() && out_keys[p] < kx
            invariant
                p <= out_keys@.len(),
                out@.len() == out_keys@.len(),
                forall|i: int| 0 <= i < p ==> out_keys@[i] < kx,
            decreases out_keys@.len() - p,
        {
            p = p + 1;
        }
        proof {
            assert forall|i: int| 0 <= i < p implies key(#[trigger] old_out[i]) < kx by {
                assert(out_keys@[i] == key(old_out[i]));
            }
            assert forall|i: int| p <= i < old_out.len() implies kx <= key(#[trigger] old_out[i]) by {
                assert(out_keys@[p as int] == key(old_out[p as int]));
                assert(key(old_out[p as int]) <= key(old_out[i]));
            }
        }
        out.insert(p, x);
        out_keys.insert(p, kx);
        proof {
            let a = old_out.take(p as int);
            let b = old_out.skip(p as int);
            assert(old_out =~= a + b);
            assert(out@ =~= a + seq![x] + b);
            assert(orig.skip(j - 1) =~= seq![x] + orig.skip(j));
            assert(orig.take(j - 1) =~= orig.take(j).drop_last());
            assert forall|i: int, l: int| 0 <= i <= l < out@.len() implies key(
                #[trigger] out@[i],
            ) <= key(#[trigger] out@[l]) by {
                if i < p && l < p {
                    assert(out@[i] == old_out[i] && out@[l] == old_out[l]);
                } else if i < p && l == p {
                    assert(out@[i] == old_out[i]);
                } else if i < p {
                    assert(out@[i] == old_out[i] && out@[l] == old_out[l - 1]);
                } else if i == p && l > p {
                    assert(out@[l] == old_out[l - 1]);
                } else if i > p {
                    assert(out@[i] == old_out[i - 1] && out@[l] == old_out[l - 1]);
                }
            }
            assert forall|i: int| 0 <= i < out@.len() implies out_keys@[i] == key(
                #[trigger] out@[i],
            ) by {
                if i < p {
                    assert(out@[i] == old_out[i]);
                } else if i > p {
                    assert(out@[i] == old_out[i - 1]);
                }
            }
            assert forall|k: u32| #[trigger]
                keyed_with(out@, key, k) == keyed_with(orig.skip(j - 1), key, k) by {
                let pred = key_is(key, k);
                Seq::filter_distributes_over_add(a + seq![x], b, pred);
                Seq::filter_distributes_over_add(a, seq![x], pred);
                Seq::filter_distributes_over_add(a, b, pred);
                Seq::filter_distributes_over_add(seq![x], orig.skip(j), pred);
                lemma_keyed_single(x, key, k);
                assert(keyed_with(old_out, key, k) == keyed_with(orig.skip(j), key, k));
                assert(keyed_with(old_out, key, k) == keyed_with(a, key, k) + keyed_with(b, key, k));
                assert(keyed_with(out@, key, k) == keyed_with(a, key, k) + keyed_with(seq![x], key, k)
                    + keyed_with(b, key, k));
                assert(keyed_with(orig.skip(j - 1), key, k) == keyed_with(seq![x], key, k)
                    + keyed_with(orig.skip(j), key, k));
                if key(x) == k {
                    assert forall|i: int| 0 <= i < a.len() implies key(#[trigger] a[i]) != k by {
                        assert(a[i] == old_out[i]);
                    }
                    lemma_keyed_empty(a, key, k);
                    assert(keyed_with(out@, key, k) =~= keyed_with(orig.skip(j - 1), key, k));
                } else {
                    assert(keyed_with(out@, key, k) =~= keyed_with(orig.skip(j - 1), key, k));
                }
            }
            if sorted_by_key(orig, key) {
                assert(p == 0) by {
                    if p > 0 {
                        assert(old_out[0] == orig.skip(j)[0]);
                        assert(orig.skip(j)[0] == orig[j]);
                        assert(key(orig[j - 1]) <= key(orig[j]));
                        assert(out_keys@[0] == key(old_out[0]));
                    }
                }
                assert(out@ =~= orig.skip(j - 1));
            }
        }
    }
    assert(orig.skip(0) =~= orig);
    out
}

} // verus!
