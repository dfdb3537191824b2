//! Association lists with string keys, read as finite maps.
//!
//! The audit report and the profile-package listing are maps keyed by package
//! identity; both are kept as vectors of pairs with pairwise-distinct keys,
//! and specified through the `Map` their entries denote.

use vstd::prelude::*;
use crate::text::str_eq_str;

verus! {

/// The mapping an association list denotes: later entries overwrite earlier
/// ones under the same key.
pub open spec fn assoc_map<V: View>(s: Seq<(String, V)>) -> Map<Seq<char>, V::V>
    decreases s.len(),
{
    if s.len() == 0 {
        Map::empty()
    } else {
        assoc_map(s.drop_last()).insert(s.last().0@, s.last().1@)
    }
}

/// No two entries share a key.
pub open spec fn assoc_keys_distinct<V>(s: Seq<(String, V)>) -> bool {
    forall|i: int, j: int| 0 <= i < j < s.len() ==> s[i].0@ != s[j].0@
}

/// With distinct keys, the denoted map holds exactly the listed keys, each at
/// its listed value.
pub proof fn lemma_assoc_map_index<V: View>(s: Seq<(String, V)>)
    requires
        assoc_keys_distinct(s),
    ensures
        forall|k: Seq<char>|
            #[trigger] assoc_map(s).contains_key(k) <==> exists|i: int|
                0 <= i < s.len() && s[i].0@ == k,
        forall|i: int|
            0 <= i < s.len() ==> assoc_map(s).contains_key(#[trigger] s[i].0@) && assoc_map(
                s,
            )[s[i].0@] == s[i].1@,
    decreases s.len(),
{
    if s.len() > 0 {
        let t = s.drop_last();
        assert(forall|i: int| 0 <= i < t.len() ==> t[i] == s[i]);
        lemma_assoc_map_index(t);
        assert forall|k: Seq<char>| #[trigger] assoc_map(s).contains_key(k) implies exists|i: int|
            0 <= i < s.len() && s[i].0@ == k by {
            if k == s.last().0@ {
                assert(s[s.len() - 1].0@ == k);
            } else {
                assert(assoc_map(t).contains_key(k));
                let i = choose|i: int| 0 <= i < t.len() && t[i].0@ == k;
                assert(t[i] == s[i]);
                assert(s[i].0@ == k);
            }
        }
        assert forall|k: Seq<char>| (exists|i: int| 0 <= i < s.len() && s[i].0@ == k) implies
            #[trigger] assoc_map(s).contains_key(k) by {
            let i = choose|i: int| 0 <= i < s.len() && s[i].0@ == k;
            if i < s.len() - 1 {
                assert(t[i].0@ == k);
            }
        }
        assert forall|i: int| 0 <= i < s.len() implies assoc_map(s).contains_key(
            #[trigger] s[i].0@,
        ) && assoc_map(s)[s[i].0@] == s[i].1@ by {
            if i < s.len() - 1 {
                assert(t[i] == s[i]);
                assert(s[i].0@ != s.last().0@);
            }
        }
    }
}

/// Appending an entry inserts its binding.
pub proof fn lemma_assoc_map_push<V: View>(s: Seq<(String, V)>, key: String, value: V)
    ensures
        assoc_map(s.push((key, value))) == assoc_map(s).insert(key@, value@),
{
    let t = s.push((key, value));
    assert(t.drop_last() =~= s);
    assert(t.last() == (key, value));
}

/// Overwriting the value at an existing key inserts the new binding.
pub proof fn lemma_assoc_map_update<V: View>(s: Seq<(String, V)>, i: int, key: String, value: V)
    requires
        assoc_keys_distinct(s),
        0 <= i < s.len(),
        s[i].0@ == key@,
    ensures
        assoc_map(s.update(i, (key, value))) == assoc_map(s).insert(key@, value@),
    decreases s.len(),
{
    let t = s.update(i, (key, value));
    if i == s.len() - 1 {
        assert(t.drop_last() =~= s.drop_last());
        assert(t.last() == (key, value));
        assert(assoc_map(t) =~= assoc_map(s).insert(key@, value@));
    } else {
        let u = s.drop_last();
        assert(forall|m: int| 0 <= m < u.len() ==> u[m] == s[m]);
        lemma_assoc_map_update(u, i, key, value);
        assert(t.drop_last() =~= u.update(i, (key, value)));
        assert(t.last() == s.last());
        assert(key@ != s.last().0@);
        assert(assoc_map(t) =~= assoc_map(s).insert(key@, value@));
    }
}

/// Look a key up in an association list with distinct keys.
pub fn assoc_get<'a, V: View>(s: &'a Vec<(String, V)>, key: &str) -> (r: Option<&'a V>)
    requires
        assoc_keys_distinct(s@),
    ensures
        match r {
            Option::Some(v) => assoc_map(s@).contains_key(key@) && assoc_map(s@)[key@] == v@,
            Option::None => !assoc_map(s@).contains_key(key@),
        },
{
    proof {
        lemma_assoc_map_index(s@);
    }
    let mut i: usize = 0;
    while i < s.len()
        invariant
            i <= s@.len(),
            assoc_keys_distinct(s@),
            forall|m: int| 0 <= m < i ==> s@[m].0@ != key@,
            forall|k: Seq<char>|
                #[trigger] assoc_map(s@).contains_key(k) <==> exists|n: int|
                    0 <= n < s@.len() && s@[n].0@ == k,
            forall|n: int|
                0 <= n < s@.len() ==> assoc_map(s@).contains_key(#[trigger] s@[n].0@) && assoc_map(
                    s@,
                )[s@[n].0@] == s@[n].1@,
        decreases s@.len() - i,
    {
        if str_eq_str(s[i].0.as_str(), key) {
            return Some(&s[i].1);
        }
        i = i + 1;
    }
    None
}

/// Bind `key` to `value`, overwriting any earlier binding of the same key.
pub fn assoc_upsert<V: View>(s: &mut Vec<(String, V)>, key: String, value: V)
    requires
        assoc_keys_distinct(old(s)@),
    ensures
        assoc_keys_distinct(final(s)@),
        assoc_map(final(s)@) == assoc_map(old(s)@).insert(key@, value@),
{
    let mut i: usize = 0;
    while i < s.len()
        invariant
            i <= s@.len(),
            s@ == old(s)@,
            assoc_keys_distinct(s@),
            forall|m: int| 0 <= m < i ==> s@[m].0@ != key@,
        decreases s@.len() - i,
    {
        if str_eq_str(s[i].0.as_str(), key.as_str()) {
            proof {
                lemma_assoc_map_update(s@, i as int, key, value);
            }
            let ghost pre = s@;
            s[i] = (key, value);
            proof {
                assert(forall|m: int|
                    0 <= m < s@.len() && m != i ==> s@[m].0@ == pre[m].0@);
                assert(assoc_keys_distinct(s@));
            }
            return ;
        }
        i = i + 1;
    }
    proof {
        lemma_assoc_map_push(s@, key, value);
    }
    let ghost pre = s@;
    s.push((key, value));
    proof {
        assert(forall|m: int| 0 <= m < pre.len() ==> s@[m] == pre[m]);
        assert(s@[pre.len() as int].0@ == key@);
        assert(assoc_keys_distinct(s@));
    }
}

} // verus!
