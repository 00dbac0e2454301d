//! Stable ordering of lists by a text key: entries come out by key, and
//! entries with the same key keep the order they came in.

use vstd::prelude::*;

use crate::skill::{chars_le, chars_le_exec, lemma_chars_le_total, lemma_chars_le_trans};

verus! {

/// The entries are in order of key.
pub open spec fn sorted_by<T>(s: Seq<T>, key: spec_fn(T) -> Seq<char>) -> bool {
    forall|i: int, j: int| 0 <= i < j < s.len() ==> chars_le(key(#[trigger] s[i]), key(#[trigger] s[j]))
}

/// `out` holds the entries of `orig`, the one at `k` coming from position
/// `pos[k]`, each position used once; of two entries with the same key, the
/// earlier in `out` came earlier in `orig`.
pub open spec fn stable_perm<T>(orig: Seq<T>, out: Seq<T>, key: spec_fn(T) -> Seq<char>, pos: Seq<int>) -> bool {
    &&& out.len() == orig.len()
    &&& pos.len() == out.len()
    &&& forall|k: int| 0 <= k < out.len() ==> 0 <= #[trigger] pos[k] < orig.len() && out[k] == orig[pos[k]]
    &&& forall|k: int, l: int| 0 <= k < l < out.len() ==> #[trigger] pos[k] != #[trigger] pos[l]
    &&& forall|k: int, l: int|
        0 <= k < l < out.len() && key(#[trigger] out[k]) == key(#[trigger] out[l]) ==> pos[k] < pos[l]
}

/// Orders `items` by key, repeatedly taking the first entry of least key;
/// `keys` holds each entry's key.
pub(crate) fn sort_by_key_stable<T>(items: Vec<T>, keys: Vec<Vec<char>>, Ghost(key): Ghost<spec_fn(T) -> Seq<char>>) -> (r: Vec<T>)
    requires
        keys.len() == items.len(),
        forall|k: int| 0 <= k < items.len() ==> (#[trigger] keys@[k])@ == key(items@[k]),
    ensures
        r@.to_multiset() == items@.to_multiset(),
        sorted_by(r@, key),
        exists|pos: Seq<int>| stable_perm(items@, r@, key, pos),
{
    broadcast use vstd::seq_lib::group_to_multiset_ensures;

    let ghost orig = items@;
    let ghost n = orig.len() as int;
    let mut rest = items;
    let mut keys = keys;
    let mut out: Vec<T> = Vec::new();
    let ghost mut pos_out: Seq<int> = Seq::empty();
    let ghost mut pos_rest: Seq<int> = Seq::new(n as nat, |i: int| i);
    while rest.len() > 0
        invariant
            out@.to_multiset().add(rest@.to_multiset()) == orig.to_multiset(),
            out.len() + rest.len() == n,
            n == orig.len(),
            keys.len() == rest.len(),
            forall|k: int| 0 <= k < rest.len() ==> (#[trigger] keys@[k])@ == key(rest@[k]),
            sorted_by(out@, key),
            forall|i: int, j: int|
                0 <= i < out.len() && 0 <= j < rest.len() ==> chars_le(key(#[trigger] out@[i]), key(#[trigger] rest@[j])),
            pos_out.len() == out.len(),
            pos_rest.len() == rest.len(),
            forall|k: int| 0 <= k < out.len() ==> 0 <= #[trigger] pos_out[k] < n && out@[k] == orig[pos_out[k]],
            forall|k: int| 0 <= k < rest.len() ==> 0 <= #[trigger] pos_rest[k] < n && rest@[k] == orig[pos_rest[k]],
            forall|k: int, l: int| 0 <= k < l < rest.len() ==> #[trigger] pos_rest[k] < #[trigger] pos_rest[l],
            forall|k: int, l: int| 0 <= k < l < out.len() ==> #[trigger] pos_out[k] != #[trigger] pos_out[l],
            forall|k: int, l: int| 0 <= k < out.len() && 0 <= l < rest.len() ==> #[trigger] pos_out[k] != #[trigger] pos_rest[l],
            forall|k: int, l: int|
                0 <= k < l < out.len() && key(#[trigger] out@[k]) == key(#[trigger] out@[l]) ==> pos_out[k] < pos_out[l],
            forall|k: int, l: int|
                0 <= k < out.len() && 0 <= l < rest.len() && key(#[trigger] out@[k]) == key(#[trigger] rest@[l])
                    ==> pos_out[k] < pos_rest[l],
        decreases rest.len(),
    {
        let mut m: usize = 0;
        proof {
            lemma_chars_le_total(key(rest@[0]), key(rest@[0]));
        }
        for j in 1..rest.len()
            invariant
                m < j <= rest.len(),
                keys.len() == rest.len(),
                forall|k: int| 0 <= k < rest.len() ==> (#[trigger] keys@[k])@ == key(rest@[k]),
                forall|k: int| 0 <= k < j ==> chars_le(key(rest@[m as int]), key(#[trigger] rest@[k])),
                forall|k: int| 0 <= k < m ==> key(#[trigger] rest@[k]) != key(rest@[m as int]),
        {
            if !chars_le_exec(&keys[m], &keys[j]) {
                proof {
                    lemma_chars_le_total(key(rest@[m as int]), key(rest@[j as int]));
                    assert forall|k: int| 0 <= k < j + 1 implies chars_le(key(rest@[j as int]), key(#[trigger] rest@[k])) by {
                        if k < j {
                            lemma_chars_le_trans(key(rest@[j as int]), key(rest@[m as int]), key(rest@[k]));
                        } else {
                            lemma_chars_le_total(key(rest@[j as int]), key(rest@[j as int]));
                        }
                    }
                    assert forall|k: int| 0 <= k < j implies key(#[trigger] rest@[k]) != key(rest@[j as int]) by {
                        if key(rest@[k]) == key(rest@[j as int]) {
                            assert(chars_le(key(rest@[m as int]), key(rest@[k])));
                        }
                    }
                }
                m = j;
            }
        }
        proof {
            lemma_chars_le_total(key(rest@[m as int]), key(rest@[m as int]));
        }
        let ghost before_rest = rest@;
        let ghost before_out = out@;
        let ghost before_pos_out = pos_out;
        let ghost before_pos_rest = pos_rest;
        let ghost p = pos_rest[m as int];
        let x = rest.remove(m);
        let _ = keys.remove(m);
        out.push(x);
        proof {
            pos_out = pos_out.push(p);
            pos_rest = pos_rest.remove(m as int);
            assert(rest@ == before_rest.remove(m as int));
            vstd::seq_lib::to_multiset_remove(before_rest, m as int);
            vstd::seq_lib::to_multiset_build(before_out, x);
            vstd::seq_lib::to_multiset_contains(before_rest, x);
            assert(before_rest[m as int] == x);
            assert(before_rest.contains(x));
            assert(out@.to_multiset().add(rest@.to_multiset()) =~= orig.to_multiset()) by {
                broadcast use vstd::multiset::group_multiset_axioms;
            }
            let last = out.len() - 1;
            assert(out@[last] == x);
            assert forall|i: int, j: int| 0 <= i < j < out.len() implies chars_le(key(#[trigger] out@[i]), key(#[trigger] out@[j])) by {
                if j == last {
                    assert(before_rest[m as int] == x);
                } else {
                    assert(out@[i] == before_out[i] && out@[j] == before_out[j]);
                }
            }
            assert forall|i: int, j: int|
                0 <= i < out.len() && 0 <= j < rest.len() implies chars_le(key(#[trigger] out@[i]), key(#[trigger] rest@[j])) by {
                let jj = if j < m { j } else { j + 1 };
                assert(rest@[j] == before_rest[jj]);
                if i < last {
                    assert(out@[i] == before_out[i]);
                }
            }
            assert forall|k: int| 0 <= k < rest.len() implies (#[trigger] keys@[k])@ == key(rest@[k]) by {
                let kk = if k < m { k } else { k + 1 };
                assert(rest@[k] == before_rest[kk]);
            }
            assert forall|k: int| 0 <= k < out.len() implies 0 <= #[trigger] pos_out[k] < n && out@[k] == orig[pos_out[k]] by {
                if k < last {
                    assert(out@[k] == before_out[k] && pos_out[k] == before_pos_out[k]);
                }
            }
            assert forall|k: int| 0 <= k < rest.len() implies 0 <= #[trigger] pos_rest[k] < n && rest@[k] == orig[pos_rest[k]] by {
                let kk = if k < m { k } else { k + 1 };
                assert(rest@[k] == before_rest[kk] && pos_rest[k] == before_pos_rest[kk]);
            }
            assert forall|k: int, l: int| 0 <= k < l < rest.len() implies #[trigger] pos_rest[k] < #[trigger] pos_rest[l] by {
                let kk = if k < m { k } else { k + 1 };
                let ll = if l < m { l } else { l + 1 };
                assert(pos_rest[k] == before_pos_rest[kk] && pos_rest[l] == before_pos_rest[ll]);
            }
            assert forall|k: int, l: int| 0 <= k < l < out.len() implies #[trigger] pos_out[k] != #[trigger] pos_out[l] by {
                if l == last {
                    assert(pos_out[k] == before_pos_out[k]);
                } else {
                    assert(pos_out[k] == before_pos_out[k] && pos_out[l] == before_pos_out[l]);
                }
            }
            assert forall|k: int, l: int| 0 <= k < out.len() && 0 <= l < rest.len() implies #[trigger] pos_out[k]
                != #[trigger] pos_rest[l] by {
                let ll = if l < m { l } else { l + 1 };
                assert(pos_rest[l] == before_pos_rest[ll]);
                if k < last {
                    assert(pos_out[k] == before_pos_out[k]);
                } else {
                    assert(ll != m);
                }
            }
            assert forall|k: int, l: int|
                0 <= k < l < out.len() && key(#[trigger] out@[k]) == key(#[trigger] out@[l]) implies pos_out[k] < pos_out[l] by {
                if l == last {
                    assert(out@[k] == before_out[k] && pos_out[k] == before_pos_out[k]);
                } else {
                    assert(out@[k] == before_out[k] && out@[l] == before_out[l]);
                }
            }
            assert forall|k: int, l: int|
                0 <= k < out.len() && 0 <= l < rest.len() && key(#[trigger] out@[k]) == key(#[trigger] rest@[l]) implies pos_out[k]
                < pos_rest[l] by {
                let ll = if l < m { l } else { l + 1 };
                assert(rest@[l] == before_rest[ll] && pos_rest[l] == before_pos_rest[ll]);
                if k < last {
                    assert(out@[k] == before_out[k] && pos_out[k] == before_pos_out[k]);
                } else {
                    assert(key(before_rest[m as int]) == key(before_rest[ll]));
                    if ll < m {
                        assert(key(before_rest[ll]) != key(before_rest[m as int]));
                    }
                }
            }
        }
    }
    proof {
        assert(rest@.to_multiset() =~= vstd::multiset::Multiset::<T>::empty());
        assert(out@.to_multiset().add(vstd::multiset::Multiset::<T>::empty()) =~= out@.to_multiset());
        assert(stable_perm(orig, out@, key, pos_out));
    }
    out
}

} // verus!
