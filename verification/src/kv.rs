//! Shared model of a small key-value store kept as a vector of
//! entries keyed by strings: the map it describes, distinctness of
//! its keys, and how that map reacts to pushing or removing an entry.
use vstd::prelude::*;

use crate::strings::str_eq;

verus! {

/// The map described by a run of entries, later entries winning
/// (well-formed stores never hold a key twice).
pub(crate) open spec fn kv_map<T: View>(s: Seq<(String, T)>) -> Map<Seq<char>, <T as View>::V>
    decreases s.len(),
{
    if s.len() == 0 {
        Map::empty()
    } else {
        kv_map(s.drop_last()).insert(s.last().0@, s.last().1@)
    }
}

/// No key appears under two entries.
pub(crate) open spec fn distinct_keys<T>(s: Seq<(String, T)>) -> bool {
    forall|p: int, q: int| 0 <= p < q < s.len() ==> s[p].0@ != s[q].0@
}

/// What `kv_map` holds of a run with distinct keys: its domain is
/// exactly the keys of the run, entry by entry, and is as large as
/// the run.
pub(crate) proof fn lemma_kv_map<T: View>(s: Seq<(String, T)>)
    requires
        distinct_keys(s),
    ensures
        kv_map(s).dom().finite(),
        kv_map(s).dom().len() == s.len(),
        forall|k: Seq<char>|
            kv_map(s).contains_key(k) <==> (exists|i: int| 0 <= i < s.len() && s[i].0@ == k),
        forall|i: int|
            0 <= i < s.len() ==> kv_map(s).contains_key(#[trigger] s[i].0@) && kv_map(s)[s[i].0@]
                == s[i].1@,
    decreases s.len(),
{
    if s.len() > 0 {
        let pre = s.drop_last();
        lemma_kv_map(pre);
        assert forall|k: Seq<char>| kv_map(s).contains_key(k) implies (exists|i: int|
            0 <= i < s.len() && s[i].0@ == k) by {
            if k == s.last().0@ {
                assert(s[s.len() - 1].0@ == k);
            } else {
                let i = choose|i: int| 0 <= i < pre.len() && pre[i].0@ == k;
                assert(s[i].0@ == k);
            }
        }
        assert forall|i: int| 0 <= i < s.len() implies kv_map(s).contains_key(#[trigger] s[i].0@)
            && kv_map(s)[s[i].0@] == s[i].1@ by {
            if i < s.len() - 1 {
                assert(pre[i] == s[i]);
                assert(s[i].0@ != s.last().0@);
            }
        }
        assert(!kv_map(pre).contains_key(s.last().0@));
    }
}

/// Removing one entry of a run with distinct keys removes exactly
/// that key from the described map.
pub(crate) proof fn lemma_kv_map_remove<T: View>(s: Seq<(String, T)>, i: int)
    requires
        distinct_keys(s),
        0 <= i < s.len(),
    ensures
        distinct_keys(s.remove(i)),
        kv_map(s.remove(i)) == kv_map(s).remove(s[i].0@),
{
    let t = s.remove(i);
    s.remove_ensures(i);
    assert(distinct_keys(t)) by {
        assert forall|p: int, q: int| 0 <= p < q < t.len() implies t[p].0@ != t[q].0@ by {
            let sp = if p < i {
                p
            } else {
                p + 1
            };
            let sq = if q < i {
                q
            } else {
                q + 1
            };
            assert(t[p] == s[sp] && t[q] == s[sq]);
        }
    }
    lemma_kv_map(s);
    lemma_kv_map(t);
    assert forall|k: Seq<char>| #[trigger]
        kv_map(t).contains_key(k) == kv_map(s).remove(s[i].0@).contains_key(k) by {
        if k == s[i].0@ {
            if kv_map(t).contains_key(k) {
                let j = choose|j: int| 0 <= j < t.len() && t[j].0@ == k;
                let sj = if j < i {
                    j
                } else {
                    j + 1
                };
                assert(s[sj].0@ == k);
                assert(false);
            }
        } else {
            if kv_map(s).contains_key(k) {
                let j = choose|j: int| 0 <= j < s.len() && s[j].0@ == k;
                let tj = if j < i {
                    j
                } else {
                    j - 1
                };
                assert(t[tj].0@ == k);
            }
            if kv_map(t).contains_key(k) {
                let j = choose|j: int| 0 <= j < t.len() && t[j].0@ == k;
                let sj = if j < i {
                    j
                } else {
                    j + 1
                };
                assert(s[sj].0@ == k);
            }
        }
    }
    assert forall|k: Seq<char>| kv_map(t).contains_key(k) implies #[trigger] kv_map(t)[k] == kv_map(
        s,
    ).remove(s[i].0@)[k] by {
        let j = choose|j: int| 0 <= j < t.len() && t[j].0@ == k;
        let sj = if j < i {
            j
        } else {
            j + 1
        };
        assert(t[j] == s[sj]);
        assert(kv_map(t)[k] == t[j].1@);
        assert(kv_map(s)[k] == s[sj].1@);
    }
    assert(kv_map(t) =~= kv_map(s).remove(s[i].0@));
}

/// The position of a key among the entries, if any.
pub(crate) fn find_key<T>(entries: &Vec<(String, T)>, key: &str) -> (r: Option<usize>)
    ensures
        match r {
            Some(i) => i < entries@.len() && entries@[i as int].0@ == key@,
            None => forall|i: int| 0 <= i < entries@.len() ==> entries@[i].0@ != key@,
        },
{
    let n = entries.len();
    let mut i: usize = 0;
    while i < n
        invariant
            i <= n,
            n == entries@.len(),
            forall|j: int| 0 <= j < i ==> entries@[j].0@ != key@,
        decreases n - i,
    {
        if str_eq(entries[i].0.as_str(), key) {
            return Some(i);
        }
        i += 1;
    }
    None
}

} // verus!
