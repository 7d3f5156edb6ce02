//! The refresh lock registry: a process-wide map from a raw stale-credential
//! string to the slot holding the (possibly still empty) pair of freshly
//! minted replacement credentials.
//!
//! The registry deduplicates rotation: all concurrent requests presenting the
//! same stale credential share one slot, so at most one of them performs the
//! rotation while the rest reuse its result.  The registry is an explicitly
//! constructed value, not a process global, so several instances can coexist
//! and it can be exercised in isolation.

use vstd::prelude::*;
use vstd::map::*;

verus! {

/// Ghost model of one slot: how many holders have acquired it and not yet
/// released it, whether a completed rotation has cached its pair, the cached
/// replacement pair itself (empty strings until then), and the subject the
/// pair authenticates.
pub struct SlotModel {
    pub holders: nat,
    pub filled: bool,
    pub access: Seq<char>,
    pub refresh: Seq<char>,
    pub subject: u128,
}

impl SlotModel {
    /// A slot is filled once a completed rotation has cached its pair.
    pub open spec fn is_filled(self) -> bool {
        self.filled
    }
}

struct Entry {
    key: String,
    holders: usize,
    filled: bool,
    access: String,
    refresh: String,
    subject: u128,
}

/// The registry itself: a mapping from raw stale-credential strings to their
/// slots, viewed as `Map<Seq<char>, SlotModel>`.
pub struct Registry {
    entries: Vec<Entry>,
}

spec fn model_of(e: Entry) -> SlotModel {
    SlotModel {
        holders: e.holders as nat,
        filled: e.filled,
        access: e.access@,
        refresh: e.refresh@,
        subject: e.subject,
    }
}

spec fn keys_unique(s: Seq<Entry>) -> bool {
    forall|i: int, j: int| 0 <= i < j < s.len() ==> s[i].key@ != s[j].key@
}

spec fn map_of(s: Seq<Entry>) -> Map<Seq<char>, SlotModel> {
    Map::new(
        |k: Seq<char>| exists|i: int| 0 <= i < s.len() && s[i].key@ == k,
        |k: Seq<char>|
            model_of(s[choose|i: int| 0 <= i < s.len() && s[i].key@ == k]),
    )
}

proof fn lemma_at(s: Seq<Entry>, i: int)
    requires
        keys_unique(s),
        0 <= i < s.len(),
    ensures
        map_of(s).contains_key(s[i].key@),
        map_of(s)[s[i].key@] == model_of(s[i]),
{
    assert(exists|j: int| 0 <= j < s.len() && #[trigger] s[j].key@ == s[i].key@) by {
        assert(0 <= i < s.len() && s[i].key@ == s[i].key@);
    }
    let j = choose|j: int| 0 <= j < s.len() && #[trigger] s[j].key@ == s[i].key@;
    assert(j == i);
}

proof fn lemma_absent(s: Seq<Entry>, k: Seq<char>)
    requires
        forall|i: int| 0 <= i < s.len() ==> s[i].key@ != k,
    ensures
        !map_of(s).contains_key(k),
{
}

proof fn lemma_update_entry(pre: Seq<Entry>, post: Seq<Entry>, i: int)
    requires
        keys_unique(pre),
        0 <= i < pre.len(),
        post.len() == pre.len(),
        post[i].key@ == pre[i].key@,
        forall|j: int| 0 <= j < pre.len() && j != i ==> post[j] == pre[j],
    ensures
        keys_unique(post),
        map_of(post) == map_of(pre).insert(pre[i].key@, model_of(post[i])),
{
    assert(keys_unique(post));
    let k0 = pre[i].key@;
    assert forall|k: Seq<char>|
        map_of(post).contains_key(k) <==> map_of(pre).insert(
            k0,
            model_of(post[i]),
        ).contains_key(k) by {
        if k == k0 {
            assert(post[i].key@ == k);
        } else {
            assert forall|j: int| 0 <= j < post.len() && post[j].key@ == k implies pre[j].key@
                == k by {
                assert(j != i);
            }
            assert forall|j: int| 0 <= j < pre.len() && pre[j].key@ == k implies post[j].key@
                == k by {
                assert(j != i);
            }
        }
    }
    assert forall|k: Seq<char>| map_of(post).contains_key(k) implies map_of(post)[k] == map_of(
        pre,
    ).insert(k0, model_of(post[i]))[k] by {
        let w = choose|j: int| 0 <= j < post.len() && post[j].key@ == k;
        lemma_at(post, w);
        if k == k0 {
            assert(w == i);
        } else {
            assert(w != i);
            lemma_at(pre, w);
        }
    }
    assert(map_of(post) =~= map_of(pre).insert(k0, model_of(post[i])));
}

proof fn lemma_push_entry(pre: Seq<Entry>, e: Entry)
    requires
        keys_unique(pre),
        forall|j: int| 0 <= j < pre.len() ==> pre[j].key@ != e.key@,
    ensures
        keys_unique(pre.push(e)),
        map_of(pre.push(e)) == map_of(pre).insert(e.key@, model_of(e)),
{
    let post = pre.push(e);
    assert(keys_unique(post));
    assert forall|k: Seq<char>|
        map_of(post).contains_key(k) <==> map_of(pre).insert(e.key@, model_of(e)).contains_key(
            k,
        ) by {
        if k == e.key@ {
            assert(post[pre.len() as int].key@ == k);
        } else {
            assert forall|j: int| 0 <= j < post.len() && post[j].key@ == k implies 0 <= j
                < pre.len() && pre[j].key@ == k by {
                assert(j != pre.len() as int);
            }
            assert forall|j: int| 0 <= j < pre.len() && pre[j].key@ == k implies 0 <= j
                < post.len() && post[j].key@ == k by {
                assert(post[j] == pre[j]);
            }
        }
    }
    assert forall|k: Seq<char>| map_of(post).contains_key(k) implies map_of(post)[k] == map_of(
        pre,
    ).insert(e.key@, model_of(e))[k] by {
        let w = choose|j: int| 0 <= j < post.len() && post[j].key@ == k;
        lemma_at(post, w);
        if k == e.key@ {
            assert(w == pre.len() as int);
        } else {
            assert(w < pre.len());
            lemma_at(pre, w);
        }
    }
    assert(map_of(post) =~= map_of(pre).insert(e.key@, model_of(e)));
}

proof fn lemma_remove_entry(pre: Seq<Entry>, i: int)
    requires
        keys_unique(pre),
        0 <= i < pre.len(),
    ensures
        keys_unique(pre.remove(i)),
        map_of(pre.remove(i)) == map_of(pre).remove(pre[i].key@),
{
    let post = pre.remove(i);
    let k0 = pre[i].key@;
    assert forall|a: int, b: int| 0 <= a < b < post.len() implies post[a].key@ != post[b].key@ by {
        let pa = if a < i { a } else { a + 1 };
        let pb = if b < i { b } else { b + 1 };
        assert(post[a] == pre[pa] && post[b] == pre[pb]);
    }
    assert forall|k: Seq<char>|
        map_of(post).contains_key(k) <==> map_of(pre).remove(k0).contains_key(k) by {
        if k == k0 {
            assert forall|j: int| 0 <= j < post.len() implies post[j].key@ != k by {
                let pj = if j < i { j } else { j + 1 };
                assert(post[j] == pre[pj] && pj != i);
            }
        } else {
            if map_of(post).contains_key(k) {
                let j = choose|j: int| 0 <= j < post.len() && post[j].key@ == k;
                let pj = if j < i { j } else { j + 1 };
                assert(post[j] == pre[pj]);
                assert(0 <= pj < pre.len() && pre[pj].key@ == k);
            }
            if map_of(pre).contains_key(k) {
                let j = choose|j: int| 0 <= j < pre.len() && pre[j].key@ == k;
                assert(j != i);
                let qj = if j < i { j } else { j - 1 };
                assert(post[qj] == pre[j]);
                assert(0 <= qj < post.len() && post[qj].key@ == k);
            }
        }
    }
    assert forall|k: Seq<char>| map_of(post).contains_key(k) implies map_of(post)[k] == map_of(
        pre,
    ).remove(k0)[k] by {
        let w = choose|j: int| 0 <= j < post.len() && post[j].key@ == k;
        lemma_at(post, w);
        let pw = if w < i { w } else { w + 1 };
        assert(post[w] == pre[pw]);
        lemma_at(pre, pw);
    }
    assert(map_of(post) =~= map_of(pre).remove(k0));
}

proof fn lemma_count(s: Seq<Entry>)
    requires
        keys_unique(s),
    ensures
        map_of(s).dom().finite(),
        map_of(s).dom().len() == s.len(),
    decreases s.len(),
{
    if s.len() == 0 {
        assert(map_of(s) =~= Map::<Seq<char>, SlotModel>::empty());
    } else {
        let prefix = s.drop_last();
        let last = s.last();
        assert(forall|i: int, j: int|
            0 <= i < j < prefix.len() ==> prefix[i].key@ != prefix[j].key@);
        assert forall|j: int| 0 <= j < prefix.len() implies prefix[j].key@ != last.key@ by {
            assert(s[j] == prefix[j] && s[s.len() - 1] == last);
        }
        lemma_count(prefix);
        lemma_push_entry(prefix, last);
        assert(prefix.push(last) =~= s);
        lemma_absent(prefix, last.key@);
        assert(map_of(s).dom() =~= map_of(prefix).dom().insert(last.key@));
    }
}

impl View for Registry {
    type V = Map<Seq<char>, SlotModel>;

    closed spec fn view(&self) -> Map<Seq<char>, SlotModel> {
        map_of(self.entries@)
    }
}

impl Registry {
    /// Distinct positions hold distinct keys, so each raw credential maps to
    /// at most one slot.
    pub closed spec fn wf(&self) -> bool {
        keys_unique(self.entries@)
    }

    pub fn new() -> (r: Registry)
        ensures
            r.wf(),
            r@ == Map::<Seq<char>, SlotModel>::empty(),
    {
        let r = Registry { entries: Vec::new() };
        proof {
            assert(r@ =~= Map::<Seq<char>, SlotModel>::empty());
        }
        r
    }

    /// Find the position of `key`, if present.
    fn position_of(&self, key: &String) -> (r: Option<usize>)
        requires
            self.wf(),
        ensures
            match r {
                Some(i) => i < self.entries@.len() && self.entries@[i as int].key@ == key@
                    && self@.contains_key(key@) && self@[key@] == model_of(
                    self.entries@[i as int],
                ),
                None => !self@.contains_key(key@),
            },
    {
        let n = self.entries.len();
        let mut i: usize = 0;
        while i < n
            invariant
                self.wf(),
                n == self.entries@.len(),
                i <= n,
                forall|k: int| 0 <= k < i ==> self.entries@[k].key@ != key@,
            decreases n - i,
        {
            if self.entries[i].key == *key {
                proof {
                    lemma_at(self.entries@, i as int);
                }
                return Some(i);
            }
            i += 1;
        }
        proof {
            lemma_absent(self.entries@, key@);
        }
        None
    }

    /// Acquire the slot for `key`: register as one more holder of the
    /// existing slot, or create an empty slot with this request as its sole
    /// holder.
    pub fn declare_lock(&mut self, key: &String)
        requires
            old(self).wf(),
            old(self)@.contains_key(key@) ==> old(self)@[key@].holders < usize::MAX,
        ensures
            final(self).wf(),
            final(self)@ == if old(self)@.contains_key(key@) {
                old(self)@.insert(
                    key@,
                    SlotModel { holders: old(self)@[key@].holders + 1, ..old(self)@[key@] },
                )
            } else {
                old(self)@.insert(
                    key@,
                    SlotModel {
                        holders: 1,
                        filled: false,
                        access: Seq::<char>::empty(),
                        refresh: Seq::<char>::empty(),
                        subject: 0,
                    },
                )
            },
    {
        match self.position_of(key) {
            Some(i) => {
                let e = &self.entries[i];
                let updated = Entry {
                    key: e.key.clone(),
                    holders: e.holders + 1,
                    filled: e.filled,
                    access: e.access.clone(),
                    refresh: e.refresh.clone(),
                    subject: e.subject,
                };
                proof {
                    let ghost pre = self.entries@;
                    lemma_update_entry(pre, pre.update(i as int, updated), i as int);
                }
                self.entries.set(i, updated);
            },
            None => {
                let fresh = Entry {
                    key: key.clone(),
                    holders: 1,
                    filled: false,
                    access: String::new(),
                    refresh: String::new(),
                    subject: 0,
                };
                proof {
                    assert forall|j: int|
                        0 <= j < self.entries@.len() implies self.entries@[j].key@ != fresh.key@ by {
                        lemma_at(self.entries@, j);
                    }
                    lemma_push_entry(self.entries@, fresh);
                }
                self.entries.push(fresh);
            },
        }
    }

    /// Read the slot for `key`: whether a pair has been cached, the pair
    /// itself, and the subject it authenticates; `None` when no slot exists.
    pub fn cached_pair(&self, key: &String) -> (r: Option<(bool, String, String, u128)>)
        requires
            self.wf(),
        ensures
            match r {
                Some(p) => self@.contains_key(key@) && p.0 == self@[key@].filled && p.1@
                    == self@[key@].access && p.2@ == self@[key@].refresh && p.3
                    == self@[key@].subject,
                None => !self@.contains_key(key@),
            },
    {
        match self.position_of(key) {
            Some(i) => {
                let e = &self.entries[i];
                Some((e.filled, e.access.clone(), e.refresh.clone(), e.subject))
            },
            None => None,
        }
    }

    /// Cache a completed rotation's pair in the slot for `key`, for every
    /// concurrent holder of the same stale credential to reuse.
    pub fn store_pair(&mut self, key: &String, access: String, refresh: String, subject: u128)
        requires
            old(self).wf(),
            old(self)@.contains_key(key@),
        ensures
            final(self).wf(),
            final(self)@ == old(self)@.insert(
                key@,
                SlotModel {
                    holders: old(self)@[key@].holders,
                    filled: true,
                    access: access@,
                    refresh: refresh@,
                    subject,
                },
            ),
    {
        match self.position_of(key) {
            Some(i) => {
                let e = &self.entries[i];
                let updated = Entry {
                    key: e.key.clone(),
                    holders: e.holders,
                    filled: true,
                    access,
                    refresh,
                    subject,
                };
                proof {
                    let ghost pre = self.entries@;
                    lemma_update_entry(pre, pre.update(i as int, updated), i as int);
                }
                self.entries.set(i, updated);
            },
            None => {
                proof {
                    assert(false);
                }
            },
        }
    }

    /// Release one hold on the slot for `key`; evict the entry once no holder
    /// is left.  Every exit path of a request that acquired the slot must end
    /// here, or entries would accumulate.
    pub fn remove_lock_if_not_used(&mut self, key: &String)
        requires
            old(self).wf(),
            old(self)@.contains_key(key@) ==> old(self)@[key@].holders >= 1,
        ensures
            final(self).wf(),
            final(self)@ == if !old(self)@.contains_key(key@) {
                old(self)@
            } else if old(self)@[key@].holders == 1 {
                old(self)@.remove(key@)
            } else {
                old(self)@.insert(
                    key@,
                    SlotModel { holders: (old(self)@[key@].holders - 1) as nat, ..old(self)@[key@] },
                )
            },
    {
        match self.position_of(key) {
            Some(i) => {
                if self.entries[i].holders == 1 {
                    proof {
                        lemma_remove_entry(self.entries@, i as int);
                    }
                    self.entries.remove(i);
                } else {
                    let e = &self.entries[i];
                    let updated = Entry {
                        key: e.key.clone(),
                        holders: e.holders - 1,
                        filled: e.filled,
                        access: e.access.clone(),
                        refresh: e.refresh.clone(),
                        subject: e.subject,
                    };
                    proof {
                        let ghost pre = self.entries@;
                        lemma_update_entry(pre, pre.update(i as int, updated), i as int);
                    }
                    self.entries.set(i, updated);
                }
            },
            None => {},
        }
    }

    /// How many slots the registry currently holds: zero exactly when no
    /// stale credential is being coordinated.
    pub fn entry_count(&self) -> (r: usize)
        requires
            self.wf(),
        ensures
            r == self@.dom().len(),
            (r == 0) <==> (self@ == Map::<Seq<char>, SlotModel>::empty()),
    {
        let n = self.entries.len();
        proof {
            lemma_count(self.entries@);
            if n == 0 {
                assert(self@ =~= Map::<Seq<char>, SlotModel>::empty());
            } else {
                lemma_at(self.entries@, 0);
                assert(self@.contains_key(self.entries@[0].key@));
            }
        }
        n
    }
}

} // verus!
