//! Sequences of entries that carry a string id: first-match lookup and
//! removal of every entry with a given id.

use vstd::prelude::*;

use crate::text::str_eq;

verus! {

/// An entry identified by a string id.
pub trait Keyed {
    spec fn key(&self) -> Seq<char>;

    fn key_str(&self) -> (r: &str)
        ensures
            r@ == self.key(),
    ;
}

/// Index of the first entry of `s` with key `id`, or -1 when there is none.
pub open spec fn first_with_key<T: Keyed>(s: Seq<T>, id: Seq<char>) -> int {
    if exists|k: int| 0 <= k < s.len() && (#[trigger] s[k]).key() == id {
        choose|k: int|
            0 <= k < s.len() && (#[trigger] s[k]).key() == id && forall|j: int|
                0 <= j < k ==> (#[trigger] s[j]).key() != id
    } else {
        -1
    }
}

/// `s` with every entry whose key is `id` left out, order kept.
pub open spec fn without_key<T: Keyed>(s: Seq<T>, id: Seq<char>) -> Seq<T>
    decreases s.len(),
{
    if s.len() == 0 {
        s
    } else {
        let rest = without_key(s.drop_last(), id);
        if s.last().key() == id {
            rest
        } else {
            rest.push(s.last())
        }
    }
}

/// There is at most one first match, so the `choose` above picks it.
pub proof fn lemma_first_with_key<T: Keyed>(s: Seq<T>, id: Seq<char>, k: int)
    requires
        0 <= k < s.len(),
        s[k].key() == id,
        forall|j: int| 0 <= j < k ==> (#[trigger] s[j]).key() != id,
    ensures
        first_with_key(s, id) == k,
{
    assert(exists|k: int| 0 <= k < s.len() && (#[trigger] s[k]).key() == id);
    let c = choose|c: int|
        0 <= c < s.len() && (#[trigger] s[c]).key() == id && forall|j: int|
            0 <= j < c ==> (#[trigger] s[j]).key() != id;
    if c < k {
    } else if k < c {
        assert(s[k].key() != id);
    }
}

/// Index of the first entry of `v` whose key is `id`.
pub fn position_of_key<T: Keyed>(v: &Vec<T>, id: &str) -> (r: Option<usize>)
    ensures
        r matches Some(k) ==> k < v@.len() && first_with_key(v@, id@) == k,
        r is None ==> first_with_key(v@, id@) == -1,
        r is None ==> forall|j: int| 0 <= j < v@.len() ==> (#[trigger] v@[j]).key() != id@,
{
    let mut i: usize = 0;
    while i < v.len()
        invariant
            i <= v@.len(),
            forall|j: int| 0 <= j < i ==> (#[trigger] v@[j]).key() != id@,
        decreases v@.len() - i,
    {
        if str_eq(v[i].key_str(), id) {
            proof {
                lemma_first_with_key(v@, id@, i as int);
            }
            return Some(i);
        }
        i = i + 1;
    }
    None
}

/// Removes from `v` every entry whose key is `id`, keeping order.
pub fn remove_with_key<T: Keyed>(v: &mut Vec<T>, id: &str)
    ensures
        final(v)@ == without_key(old(v)@, id@),
{
    let ghost orig = v@;
    let mut k: usize = 0;
    let ghost mut j: int = 0;
    while k < v.len()
        invariant
            0 <= j <= orig.len(),
            v@ == without_key(orig.take(j), id@) + orig.skip(j),
            k == without_key(orig.take(j), id@).len(),
        decreases orig.len() - j,
    {
        proof {
            assert(orig.take(j + 1).drop_last() =~= orig.take(j));
            assert(orig.take(j + 1).last() == orig[j]);
            assert(v@[k as int] == orig[j]);
        }
        if str_eq(v[k].key_str(), id) {
            v.remove(k);
            proof {
                assert(v@ =~= without_key(orig.take(j + 1), id@) + orig.skip(j + 1));
                j = j + 1;
            }
        } else {
            proof {
                assert(without_key(orig.take(j + 1), id@) =~= without_key(orig.take(j), id@).push(orig[j]));
                assert(v@ =~= without_key(orig.take(j + 1), id@) + orig.skip(j + 1));
                j = j + 1;
            }
            k = k + 1;
        }
    }
    proof {
        if j < orig.len() {
            assert(v@.len() > k);
        }
        assert(orig.take(j) =~= orig);
    }
}

/// No entry with key `id` survives removal.
pub proof fn lemma_without_key_drops<T: Keyed>(s: Seq<T>, id: Seq<char>)
    ensures
        forall|i: int| 0 <= i < without_key(s, id).len() ==> (#[trigger] without_key(s, id)[i]).key() != id,
    decreases s.len(),
{
    if s.len() > 0 {
        lemma_without_key_drops(s.drop_last(), id);
        let rest = without_key(s.drop_last(), id);
        if s.last().key() != id {
            assert forall|i: int| 0 <= i < rest.push(s.last()).len() implies (#[trigger] rest.push(
                s.last(),
            )[i]).key() != id by {
                if i < rest.len() {
                    assert(rest.push(s.last())[i] == rest[i]);
                }
            }
        }
    }
}

} // verus!
