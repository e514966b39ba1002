//! Small association maps with exact views.
//!
//! The store needs a handful of maps with different key shapes: the
//! canonical session string for the persisted adaptive maps, the structured
//! session key for live games and user language preferences, and the chat
//! id for chat-wide language preferences. Each is a vector of entries with
//! pairwise distinct keys, viewed as a `Map`.

use vstd::prelude::*;

verus! {

use crate::keys::SessionKey;

/// Map keyed by the canonical session string.
pub struct StrMap<V> {
    pub(crate) entries: Vec<(String, V)>,
}

/// The map described by a sequence of entries; a later entry for the same
/// key would win, but well-formed maps have distinct keys.
pub open spec fn str_map_of<V>(s: Seq<(String, V)>) -> Map<Seq<char>, V>
    decreases s.len(),
{
    if s.len() == 0 {
        Map::empty()
    } else {
        str_map_of(s.drop_last()).insert(s.last().0@, s.last().1)
    }
}

/// Entry keys are pairwise distinct.
pub open spec fn str_keys_unique<V>(s: Seq<(String, V)>) -> bool {
    forall|i: int, j: int| 0 <= i < j < s.len() ==> s[i].0@ != s[j].0@
}

proof fn lemma_str_map_contains<V>(s: Seq<(String, V)>, k: Seq<char>)
    ensures
        str_map_of(s).contains_key(k) <==> (exists|i: int| 0 <= i < s.len() && s[i].0@ == k),
    decreases s.len(),
{
    if s.len() > 0 {
        let prefix = s.drop_last();
        lemma_str_map_contains(prefix, k);
        if s.last().0@ == k {
            assert(s[s.len() - 1].0@ == k);
        } else {
            if exists|i: int| 0 <= i < s.len() && s[i].0@ == k {
                let i = choose|i: int| 0 <= i < s.len() && s[i].0@ == k;
                assert(prefix[i].0@ == k);
            }
            if exists|i: int| 0 <= i < prefix.len() && prefix[i].0@ == k {
                let i = choose|i: int| 0 <= i < prefix.len() && prefix[i].0@ == k;
                assert(s[i].0@ == k);
            }
        }
    }
}

proof fn lemma_str_map_index<V>(s: Seq<(String, V)>, i: int)
    requires
        str_keys_unique(s),
        0 <= i < s.len(),
    ensures
        str_map_of(s).contains_key(s[i].0@),
        str_map_of(s)[s[i].0@] == s[i].1,
    decreases s.len(),
{
    if i < s.len() - 1 {
        let prefix = s.drop_last();
        assert(str_keys_unique(prefix)) by {
            assert(forall|a: int, b: int|
                0 <= a < b < prefix.len() ==> s[a].0@ != s[b].0@);
        }
        lemma_str_map_index(prefix, i);
        assert(s[s.len() - 1].0@ != s[i].0@);
    }
}

proof fn lemma_str_map_remove<V>(s: Seq<(String, V)>, j: int)
    requires
        str_keys_unique(s),
        0 <= j < s.len(),
    ensures
        str_map_of(s.remove(j)) =~= str_map_of(s).remove(s[j].0@),
    decreases s.len(),
{
    let prefix = s.drop_last();
    assert(str_keys_unique(prefix)) by {
        assert(forall|a: int, b: int| 0 <= a < b < prefix.len() ==> s[a].0@ != s[b].0@);
    }
    if j == s.len() - 1 {
        assert(s.remove(j) =~= prefix);
        lemma_str_map_contains(prefix, s[j].0@);
        assert(forall|i: int| 0 <= i < prefix.len() ==> s[i].0@ != s[j].0@);
        assert(!str_map_of(prefix).contains_key(s[j].0@));
        assert(str_map_of(s) == str_map_of(prefix).insert(s[j].0@, s[j].1));
        assert(str_map_of(s.remove(j)) =~= str_map_of(s).remove(s[j].0@));
    } else {
        lemma_str_map_remove(prefix, j);
        assert(s.remove(j).drop_last() =~= prefix.remove(j));
        assert(s.remove(j).last() == s.last());
        assert(s.remove(j).len() == s.len() - 1);
        assert(str_map_of(s.remove(j)) == str_map_of(prefix.remove(j)).insert(
            s.last().0@,
            s.last().1,
        ));
        assert(s.last().0@ != s[j].0@);
        assert(str_map_of(prefix.remove(j)).insert(s.last().0@, s.last().1) =~= str_map_of(
            prefix,
        ).remove(s[j].0@).insert(s.last().0@, s.last().1));
        assert(str_map_of(prefix).remove(s[j].0@).insert(s.last().0@, s.last().1) =~= str_map_of(
            prefix,
        ).insert(s.last().0@, s.last().1).remove(s[j].0@));
    }
}

impl<V: Copy> StrMap<V> {
    /// Entry keys are pairwise distinct, so lookups are unambiguous.
    pub closed spec fn wf(&self) -> bool {
        str_keys_unique(self.entries@)
    }

    /// The map these entries describe.
    pub closed spec fn view(&self) -> Map<Seq<char>, V> {
        str_map_of(self.entries@)
    }

    /// An empty map.
    pub fn new() -> (m: StrMap<V>)
        ensures
            m.wf(),
            m@ == Map::<Seq<char>, V>::empty(),
    {
        StrMap { entries: Vec::new() }
    }

    /// The value stored under `k`, if any.
    pub fn get(&self, k: &String) -> (r: Option<V>)
        requires
            self.wf(),
        ensures
            r == if self@.contains_key(k@) {
                Some(self@[k@])
            } else {
                None::<V>
            },
    {
        let n = self.entries.len();
        let mut i: usize = 0;
        while i < n
            invariant
                n == self.entries.len(),
                i <= n,
                self.wf(),
                forall|t: int| 0 <= t < i ==> self.entries@[t].0@ != k@,
            decreases n - i,
        {
            if self.entries[i].0 == *k {
                proof {
                    lemma_str_map_index(self.entries@, i as int);
                }
                return Some(self.entries[i].1);
            }
            i += 1;
        }
        proof {
            lemma_str_map_contains(self.entries@, k@);
        }
        None
    }

    /// Store `v` under `k`, replacing any earlier value.
    pub fn insert(&mut self, k: String, v: V)
        requires
            old(self).wf(),
        ensures
            final(self).wf(),
            final(self)@ == old(self)@.insert(k@, v),
    {
        let n = self.entries.len();
        let mut i: usize = 0;
        while i < n
            invariant
                n == self.entries.len(),
                i <= n,
                self.wf(),
                self.entries@ == old(self).entries@,
                forall|t: int| 0 <= t < i ==> self.entries@[t].0@ != k@,
            decreases n - i,
        {
            if self.entries[i].0 == k {
                proof {
                    lemma_str_map_remove(self.entries@, i as int);
                    lemma_str_map_contains(self.entries@.remove(i as int), k@);
                }
                let ghost removed = self.entries@.remove(i as int);
                self.entries.remove(i);
                proof {
                    assert(forall|t: int|
                        0 <= t < removed.len() ==> removed[t].0@ != k@);
                    assert(str_keys_unique(removed)) by {
                        assert(forall|a: int, b: int|
                            0 <= a < b < removed.len() ==> removed[a].0@ != removed[b].0@);
                    }
                }
                self.entries.push((k, v));
                proof {
                    let s = self.entries@;
                    assert(s.drop_last() =~= removed);
                    assert(forall|a: int, b: int|
                        0 <= a < b < s.len() ==> s[a].0@ != s[b].0@);
                    assert(self@ =~= old(self)@.insert(s.last().0@, v));
                }
                return ;
            }
            i += 1;
        }
        proof {
            lemma_str_map_contains(self.entries@, k@);
        }
        self.entries.push((k, v));
        proof {
            let s = self.entries@;
            assert(s.drop_last() =~= old(self).entries@);
            assert(forall|a: int, b: int|
                0 <= a < b < s.len() ==> s[a].0@ != s[b].0@);
            assert(self@ =~= old(self)@.insert(s.last().0@, v));
        }
    }

    /// Drop every entry.
    pub fn clear(&mut self)
        ensures
            final(self).wf(),
            final(self)@ == Map::<Seq<char>, V>::empty(),
    {
        self.entries.clear();
    }
}

/// Map keyed by the structured session key.
pub struct PairMap<V> {
    pub(crate) entries: Vec<(SessionKey, V)>,
}

/// The map described by a sequence of session-keyed entries.
pub open spec fn pair_map_of<V>(s: Seq<(SessionKey, V)>) -> Map<SessionKey, V>
    decreases s.len(),
{
    if s.len() == 0 {
        Map::empty()
    } else {
        pair_map_of(s.drop_last()).insert(s.last().0, s.last().1)
    }
}

/// Entry keys are pairwise distinct.
pub open spec fn pair_keys_unique<V>(s: Seq<(SessionKey, V)>) -> bool {
    forall|i: int, j: int| 0 <= i < j < s.len() ==> s[i].0 != s[j].0
}

proof fn lemma_pair_map_contains<V>(s: Seq<(SessionKey, V)>, k: SessionKey)
    ensures
        pair_map_of(s).contains_key(k) <==> (exists|i: int| 0 <= i < s.len() && s[i].0 == k),
    decreases s.len(),
{
    if s.len() > 0 {
        let prefix = s.drop_last();
        lemma_pair_map_contains(prefix, k);
        if s.last().0 == k {
            assert(s[s.len() - 1].0 == k);
        } else {
            if exists|i: int| 0 <= i < s.len() && s[i].0 == k {
                let i = choose|i: int| 0 <= i < s.len() && s[i].0 == k;
                assert(prefix[i].0 == k);
            }
            if exists|i: int| 0 <= i < prefix.len() && prefix[i].0 == k {
                let i = choose|i: int| 0 <= i < prefix.len() && prefix[i].0 == k;
                assert(s[i].0 == k);
            }
        }
    }
}

proof fn lemma_pair_map_index<V>(s: Seq<(SessionKey, V)>, i: int)
    requires
        pair_keys_unique(s),
        0 <= i < s.len(),
    ensures
        pair_map_of(s).contains_key(s[i].0),
        pair_map_of(s)[s[i].0] == s[i].1,
    decreases s.len(),
{
    if i < s.len() - 1 {
        let prefix = s.drop_last();
        assert(pair_keys_unique(prefix)) by {
            assert(forall|a: int, b: int| 0 <= a < b < prefix.len() ==> s[a].0 != s[b].0);
        }
        lemma_pair_map_index(prefix, i);
        assert(s[s.len() - 1].0 != s[i].0);
    }
}

proof fn lemma_pair_map_remove<V>(s: Seq<(SessionKey, V)>, j: int)
    requires
        pair_keys_unique(s),
        0 <= j < s.len(),
    ensures
        pair_map_of(s.remove(j)) =~= pair_map_of(s).remove(s[j].0),
    decreases s.len(),
{
    let prefix = s.drop_last();
    assert(pair_keys_unique(prefix)) by {
        assert(forall|a: int, b: int| 0 <= a < b < prefix.len() ==> s[a].0 != s[b].0);
    }
    if j == s.len() - 1 {
        assert(s.remove(j) =~= prefix);
        lemma_pair_map_contains(prefix, s[j].0);
        assert(forall|i: int| 0 <= i < prefix.len() ==> s[i].0 != s[j].0);
        assert(!pair_map_of(prefix).contains_key(s[j].0));
        assert(pair_map_of(s.remove(j)) =~= pair_map_of(s).remove(s[j].0));
    } else {
        lemma_pair_map_remove(prefix, j);
        assert(s.remove(j).drop_last() =~= prefix.remove(j));
        assert(s.remove(j).last() == s.last());
        assert(pair_map_of(s.remove(j)) == pair_map_of(prefix.remove(j)).insert(
            s.last().0,
            s.last().1,
        ));
        assert(s.last().0 != s[j].0);
        assert(pair_map_of(prefix.remove(j)).insert(s.last().0, s.last().1) =~= pair_map_of(
            prefix,
        ).remove(s[j].0).insert(s.last().0, s.last().1));
        assert(pair_map_of(prefix).remove(s[j].0).insert(s.last().0, s.last().1) =~= pair_map_of(
            prefix,
        ).insert(s.last().0, s.last().1).remove(s[j].0));
    }
}

impl<V: Copy> PairMap<V> {
    /// Entry keys are pairwise distinct, so lookups are unambiguous.
    pub closed spec fn wf(&self) -> bool {
        pair_keys_unique(self.entries@)
    }

    /// The map these entries describe.
    pub closed spec fn view(&self) -> Map<SessionKey, V> {
        pair_map_of(self.entries@)
    }

    /// An empty map.
    pub fn new() -> (m: PairMap<V>)
        ensures
            m.wf(),
            m@ == Map::<SessionKey, V>::empty(),
    {
        PairMap { entries: Vec::new() }
    }

    /// The value stored under `k`, if any.
    pub fn get(&self, k: SessionKey) -> (r: Option<V>)
        requires
            self.wf(),
        ensures
            r == if self@.contains_key(k) {
                Some(self@[k])
            } else {
                None::<V>
            },
    {
        let n = self.entries.len();
        let mut i: usize = 0;
        while i < n
            invariant
                n == self.entries.len(),
                i <= n,
                self.wf(),
                forall|t: int| 0 <= t < i ==> self.entries@[t].0 != k,
            decreases n - i,
        {
            if self.entries[i].0 == k {
                proof {
                    lemma_pair_map_index(self.entries@, i as int);
                }
                return Some(self.entries[i].1);
            }
            i += 1;
        }
        proof {
            lemma_pair_map_contains(self.entries@, k);
        }
        None
    }

    /// Store `v` under `k`, replacing any earlier value.
    pub fn insert(&mut self, k: SessionKey, v: V)
        requires
            old(self).wf(),
        ensures
            final(self).wf(),
            final(self)@ == old(self)@.insert(k, v),
    {
        let n = self.entries.len();
        let mut i: usize = 0;
        while i < n
            invariant
                n == self.entries.len(),
                i <= n,
                self.wf(),
                self.entries@ == old(self).entries@,
                forall|t: int| 0 <= t < i ==> self.entries@[t].0 != k,
            decreases n - i,
        {
            if self.entries[i].0 == k {
                proof {
                    lemma_pair_map_remove(self.entries@, i as int);
                    lemma_pair_map_contains(self.entries@.remove(i as int), k);
                }
                let ghost removed = self.entries@.remove(i as int);
                self.entries.remove(i);
                proof {
                    assert(forall|t: int| 0 <= t < removed.len() ==> removed[t].0 != k);
                    assert(pair_keys_unique(removed)) by {
                        assert(forall|a: int, b: int|
                            0 <= a < b < removed.len() ==> removed[a].0 != removed[b].0);
                    }
                }
                self.entries.push((k, v));
                proof {
                    let s = self.entries@;
                    assert(s.drop_last() =~= removed);
                    assert(forall|a: int, b: int| 0 <= a < b < s.len() ==> s[a].0 != s[b].0);
                    assert(self@ =~= old(self)@.insert(s.last().0, v));
                }
                return ;
            }
            i += 1;
        }
        proof {
            lemma_pair_map_contains(self.entries@, k);
        }
        self.entries.push((k, v));
        proof {
            let s = self.entries@;
            assert(s.drop_last() =~= old(self).entries@);
            assert(forall|a: int, b: int| 0 <= a < b < s.len() ==> s[a].0 != s[b].0);
            assert(self@ =~= old(self)@.insert(s.last().0, v));
        }
    }
}

/// Map keyed by a chat id alone.
pub struct ChatMap<V> {
    pub(crate) entries: Vec<(i64, V)>,
}

/// The map described by a sequence of chat-keyed entries.
pub open spec fn chat_map_of<V>(s: Seq<(i64, V)>) -> Map<i64, V>
    decreases s.len(),
{
    if s.len() == 0 {
        Map::empty()
    } else {
        chat_map_of(s.drop_last()).insert(s.last().0, s.last().1)
    }
}

/// Entry keys are pairwise distinct.
pub open spec fn chat_keys_unique<V>(s: Seq<(i64, V)>) -> bool {
    forall|i: int, j: int| 0 <= i < j < s.len() ==> s[i].0 != s[j].0
}

proof fn lemma_chat_map_contains<V>(s: Seq<(i64, V)>, k: i64)
    ensures
        chat_map_of(s).contains_key(k) <==> (exists|i: int| 0 <= i < s.len() && s[i].0 == k),
    decreases s.len(),
{
    if s.len() > 0 {
        let prefix = s.drop_last();
        lemma_chat_map_contains(prefix, k);
        if s.last().0 == k {
            assert(s[s.len() - 1].0 == k);
        } else {
            if exists|i: int| 0 <= i < s.len() && s[i].0 == k {
                let i = choose|i: int| 0 <= i < s.len() && s[i].0 == k;
                assert(prefix[i].0 == k);
            }
            if exists|i: int| 0 <= i < prefix.len() && prefix[i].0 == k {
                let i = choose|i: int| 0 <= i < prefix.len() && prefix[i].0 == k;
                assert(s[i].0 == k);
            }
        }
    }
}

proof fn lemma_chat_map_index<V>(s: Seq<(i64, V)>, i: int)
    requires
        chat_keys_unique(s),
        0 <= i < s.len(),
    ensures
        chat_map_of(s).contains_key(s[i].0),
        chat_map_of(s)[s[i].0] == s[i].1,
    decreases s.len(),
{
    if i < s.len() - 1 {
        let prefix = s.drop_last();
        assert(chat_keys_unique(prefix)) by {
            assert(forall|a: int, b: int| 0 <= a < b < prefix.len() ==> s[a].0 != s[b].0);
        }
        lemma_chat_map_index(prefix, i);
        assert(s[s.len() - 1].0 != s[i].0);
    }
}

proof fn lemma_chat_map_remove<V>(s: Seq<(i64, V)>, j: int)
    requires
        chat_keys_unique(s),
        0 <= j < s.len(),
    ensures
        chat_map_of(s.remove(j)) =~= chat_map_of(s).remove(s[j].0),
    decreases s.len(),
{
    let prefix = s.drop_last();
    assert(chat_keys_unique(prefix)) by {
        assert(forall|a: int, b: int| 0 <= a < b < prefix.len() ==> s[a].0 != s[b].0);
    }
    if j == s.len() - 1 {
        assert(s.remove(j) =~= prefix);
        lemma_chat_map_contains(prefix, s[j].0);
        assert(forall|i: int| 0 <= i < prefix.len() ==> s[i].0 != s[j].0);
        assert(!chat_map_of(prefix).contains_key(s[j].0));
        assert(chat_map_of(s.remove(j)) =~= chat_map_of(s).remove(s[j].0));
    } else {
        lemma_chat_map_remove(prefix, j);
        assert(s.remove(j).drop_last() =~= prefix.remove(j));
        assert(s.remove(j).last() == s.last());
        assert(chat_map_of(s.remove(j)) == chat_map_of(prefix.remove(j)).insert(
            s.last().0,
            s.last().1,
        ));
        assert(s.last().0 != s[j].0);
        assert(chat_map_of(prefix.remove(j)).insert(s.last().0, s.last().1) =~= chat_map_of(
            prefix,
        ).remove(s[j].0).insert(s.last().0, s.last().1));
        assert(chat_map_of(prefix).remove(s[j].0).insert(s.last().0, s.last().1) =~= chat_map_of(
            prefix,
        ).insert(s.last().0, s.last().1).remove(s[j].0));
    }
}

impl<V: Copy> ChatMap<V> {
    /// Entry keys are pairwise distinct, so lookups are unambiguous.
    pub closed spec fn wf(&self) -> bool {
        chat_keys_unique(self.entries@)
    }

    /// The map these entries describe.
    pub closed spec fn view(&self) -> Map<i64, V> {
        chat_map_of(self.entries@)
    }

    /// An empty map.
    pub fn new() -> (m: ChatMap<V>)
        ensures
            m.wf(),
            m@ == Map::<i64, V>::empty(),
    {
        ChatMap { entries: Vec::new() }
    }

    /// The value stored under `k`, if any.
    pub fn get(&self, k: i64) -> (r: Option<V>)
        requires
            self.wf(),
        ensures
            r == if self@.contains_key(k) {
                Some(self@[k])
            } else {
                None::<V>
            },
    {
        let n = self.entries.len();
        let mut i: usize = 0;
        while i < n
            invariant
                n == self.entries.len(),
                i <= n,
                self.wf(),
                forall|t: int| 0 <= t < i ==> self.entries@[t].0 != k,
            decreases n - i,
        {
            if self.entries[i].0 == k {
                proof {
                    lemma_chat_map_index(self.entries@, i as int);
                }
                return Some(self.entries[i].1);
            }
            i += 1;
        }
        proof {
            lemma_chat_map_contains(self.entries@, k);
        }
        None
    }

    /// Store `v` under `k`, replacing any earlier value.
    pub fn insert(&mut self, k: i64, v: V)
        requires
            old(self).wf(),
        ensures
            final(self).wf(),
            final(self)@ == old(self)@.insert(k, v),
    {
        let n = self.entries.len();
        let mut i: usize = 0;
        while i < n
            invariant
                n == self.entries.len(),
                i <= n,
                self.wf(),
                self.entries@ == old(self).entries@,
                forall|t: int| 0 <= t < i ==> self.entries@[t].0 != k,
            decreases n - i,
        {
            if self.entries[i].0 == k {
                proof {
                    lemma_chat_map_remove(self.entries@, i as int);
                    lemma_chat_map_contains(self.entries@.remove(i as int), k);
                }
                let ghost removed = self.entries@.remove(i as int);
                self.entries.remove(i);
                proof {
                    assert(forall|t: int| 0 <= t < removed.len() ==> removed[t].0 != k);
                    assert(chat_keys_unique(removed)) by {
                        assert(forall|a: int, b: int|
                            0 <= a < b < removed.len() ==> removed[a].0 != removed[b].0);
                    }
                }
                self.entries.push((k, v));
                proof {
                    let s = self.entries@;
                    assert(s.drop_last() =~= removed);
                    assert(forall|a: int, b: int| 0 <= a < b < s.len() ==> s[a].0 != s[b].0);
                    assert(self@ =~= old(self)@.insert(s.last().0, v));
                }
                return ;
            }
            i += 1;
        }
        proof {
            lemma_chat_map_contains(self.entries@, k);
        }
        self.entries.push((k, v));
        proof {
            let s = self.entries@;
            assert(s.drop_last() =~= old(self).entries@);
            assert(forall|a: int, b: int| 0 <= a < b < s.len() ==> s[a].0 != s[b].0);
            assert(self@ =~= old(self)@.insert(s.last().0, v));
        }
    }
}

} // verus!
