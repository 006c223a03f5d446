//! Collections keyed by account: a set of accounts that remembers the order in
//! which they came, and a map from accounts to records.

use vstd::prelude::*;

verus! {

/// A set of accounts. Each account is held once; the accounts are listed in
/// the order in which they were first inserted.
pub struct AccountSet {
    items: Vec<String>,
}

impl View for AccountSet {
    type V = Seq<Seq<char>>;

    closed spec fn view(&self) -> Seq<Seq<char>> {
        self.items.deep_view()
    }
}

impl AccountSet {
    #[verifier::type_invariant]
    spec fn distinct(self) -> bool {
        self.items.deep_view().no_duplicates()
    }

    /// The empty set.
    pub fn new() -> (set: Self)
        ensures
            set@ == Seq::<Seq<char>>::empty(),
    {
        let set = AccountSet { items: Vec::new() };
        assert(set.items.deep_view() =~= Seq::<Seq<char>>::empty());
        set
    }

    /// The number of accounts in the set.
    pub fn len(&self) -> (n: usize)
        ensures
            n == self@.len(),
    {
        self.items.len()
    }

    /// Whether `account` is in the set.
    pub fn contains(&self, account: &String) -> (found: bool)
        ensures
            found == self@.contains(account@),
            self@.no_duplicates(),
    {
        proof {
            use_type_invariant(self);
        }
        let mut i: usize = 0;
        while i < self.items.len()
            invariant
                i <= self.items.len(),
                self.items.deep_view().no_duplicates(),
                forall|j: int| 0 <= j < i ==> self.items.deep_view()[j] != account@,
            decreases self.items.len() - i,
        {
            if self.items[i] == *account {
                assert(self.items.deep_view()[i as int] == account@);
                return true;
            }
            i += 1;
        }
        false
    }

    /// Adds `account` unless the set holds it already, and says whether it was
    /// added.
    pub fn insert(&mut self, account: String) -> (added: bool)
        ensures
            added == !old(self)@.contains(account@),
            final(self)@ == if added {
                old(self)@.push(account@)
            } else {
                old(self)@
            },
            final(self)@.no_duplicates(),
    {
        proof {
            use_type_invariant(&*self);
        }
        if self.contains(&account) {
            false
        } else {
            let ghost before = self.items.deep_view();
            let mut items: Vec<String> = Vec::new();
            assert(items.deep_view() =~= Seq::<Seq<char>>::empty());
            core::mem::swap(&mut self.items, &mut items);
            items.push(account);
            assert(items.deep_view() =~= before.push(account@));
            core::mem::swap(&mut self.items, &mut items);
            true
        }
    }

    /// The accounts in the order in which they were inserted.
    pub fn to_vec(&self) -> (accounts: Vec<String>)
        ensures
            accounts.deep_view() == self@,
    {
        let mut accounts: Vec<String> = Vec::new();
        let mut i: usize = 0;
        while i < self.items.len()
            invariant
                i <= self.items.len(),
                accounts.deep_view() == self.items.deep_view().take(i as int),
            decreases self.items.len() - i,
        {
            let ghost before = accounts.deep_view();
            accounts.push(self.items[i].clone());
            assert(accounts.deep_view() =~= before.push(self.items[i as int]@));
            assert(self.items.deep_view().take(i + 1) =~= self.items.deep_view().take(i as int).push(
                self.items[i as int]@,
            ));
            i += 1;
        }
        assert(self.items.deep_view().take(i as int) =~= self.items.deep_view());
        accounts
    }
}

/// The keys of a list of entries, in order.
spec fn keys_of<V>(entries: Seq<(String, V)>) -> Seq<Seq<char>> {
    Seq::new(entries.len(), |i: int| entries[i].0@)
}

/// The map that a list of entries with distinct keys stands for.
spec fn map_of<V>(entries: Seq<(String, V)>) -> Map<Seq<char>, V> {
    Map::new(
        |k: Seq<char>| keys_of(entries).contains(k),
        |k: Seq<char>| entries[keys_of(entries).index_of(k)].1,
    )
}

proof fn lemma_map_of_at<V>(entries: Seq<(String, V)>, i: int)
    requires
        keys_of(entries).no_duplicates(),
        0 <= i < entries.len(),
    ensures
        map_of(entries).contains_key(entries[i].0@),
        map_of(entries)[entries[i].0@] == entries[i].1,
{
    let keys = keys_of(entries);
    assert(keys[i] == entries[i].0@);
    assert(keys.contains(entries[i].0@));
    let j = keys.index_of(entries[i].0@);
    assert(0 <= j < keys.len() && keys[j] == keys[i]);
}

proof fn lemma_map_of_push<V>(entries: Seq<(String, V)>, e: (String, V))
    requires
        keys_of(entries).no_duplicates(),
        !keys_of(entries).contains(e.0@),
    ensures
        keys_of(entries.push(e)).no_duplicates(),
        map_of(entries.push(e)) == map_of(entries).insert(e.0@, e.1),
{
    let after = entries.push(e);
    assert(keys_of(after) =~= keys_of(entries).push(e.0@));
    assert(keys_of(after).no_duplicates()) by {
        assert forall|i: int, j: int|
            0 <= i < keys_of(after).len() && 0 <= j < keys_of(after).len() && i != j implies keys_of(
            after,
        )[i] != keys_of(after)[j] by {
            if i < entries.len() {
                assert(keys_of(entries)[i] == keys_of(after)[i]);
            }
            if j < entries.len() {
                assert(keys_of(entries)[j] == keys_of(after)[j]);
            }
        }
    }
    assert forall|k: Seq<char>| #[trigger]
        map_of(after).contains_key(k) <==> map_of(entries).insert(e.0@, e.1).contains_key(k) by {
        if keys_of(after).contains(k) {
            let i = keys_of(after).index_of(k);
            if i < entries.len() {
                assert(keys_of(entries)[i] == k);
            }
        }
        if keys_of(entries).contains(k) {
            let i = keys_of(entries).index_of(k);
            assert(keys_of(after)[i] == k);
        }
        if k == e.0@ {
            assert(keys_of(after)[entries.len() as int] == k);
        }
    }
    assert forall|k: Seq<char>| #[trigger] map_of(after).contains_key(k) implies map_of(after)[k]
        == map_of(entries).insert(e.0@, e.1)[k] by {
        let i = keys_of(after).index_of(k);
        lemma_map_of_at(after, i);
        if i < entries.len() {
            assert(keys_of(entries)[i] == k);
            lemma_map_of_at(entries, i);
        }
    }
    assert(map_of(after) =~= map_of(entries).insert(e.0@, e.1));
}

proof fn lemma_map_of_update<V>(entries: Seq<(String, V)>, i: int, e: (String, V))
    requires
        keys_of(entries).no_duplicates(),
        0 <= i < entries.len(),
        entries[i].0@ == e.0@,
    ensures
        keys_of(entries.update(i, e)) == keys_of(entries),
        map_of(entries.update(i, e)) == map_of(entries).insert(e.0@, e.1),
{
    let after = entries.update(i, e);
    assert(keys_of(after) =~= keys_of(entries));
    lemma_map_of_at(entries, i);
    assert forall|k: Seq<char>| #[trigger] map_of(after).contains_key(k) implies map_of(after)[k]
        == map_of(entries).insert(e.0@, e.1)[k] by {
        let j = keys_of(after).index_of(k);
        assert(keys_of(entries)[j] == k);
        assert(keys_of(entries)[i] == e.0@);
        lemma_map_of_at(after, j);
        lemma_map_of_at(entries, j);
    }
    assert(map_of(after) =~= map_of(entries).insert(e.0@, e.1));
}

proof fn lemma_map_of_swap_remove<V>(entries: Seq<(String, V)>, i: int)
    requires
        keys_of(entries).no_duplicates(),
        0 <= i < entries.len(),
    ensures
        keys_of(entries.update(i, entries.last()).drop_last()).no_duplicates(),
        map_of(entries.update(i, entries.last()).drop_last()) == map_of(entries).remove(
            entries[i].0@,
        ),
{
    let after = entries.update(i, entries.last()).drop_last();
    let last = entries.len() - 1;
    // Where each entry of `after` stood before.
    let origin = |j: int| if j == i { last } else { j };
    assert forall|j: int| 0 <= j < after.len() implies #[trigger] keys_of(after)[j] == keys_of(
        entries,
    )[origin(j)] by {}
    assert(keys_of(after).no_duplicates()) by {
        assert forall|a: int, b: int|
            0 <= a < keys_of(after).len() && 0 <= b < keys_of(after).len() && a != b implies keys_of(
            after,
        )[a] != keys_of(after)[b] by {
            assert(keys_of(after)[a] == keys_of(entries)[origin(a)]);
            assert(keys_of(after)[b] == keys_of(entries)[origin(b)]);
        }
    }
    let removed = entries[i].0@;
    assert forall|k: Seq<char>| #[trigger]
        map_of(after).contains_key(k) <==> map_of(entries).remove(removed).contains_key(k) by {
        if keys_of(after).contains(k) {
            let j = keys_of(after).index_of(k);
            assert(keys_of(entries)[origin(j)] == k);
            assert(keys_of(entries)[i] == removed);
        }
        if keys_of(entries).contains(k) && k != removed {
            let j = keys_of(entries).index_of(k);
            assert(keys_of(entries)[i] == removed);
            if j == last {
                assert(keys_of(after)[i] == k);
            } else {
                assert(keys_of(after)[j] == k);
            }
        }
    }
    assert forall|k: Seq<char>| #[trigger] map_of(after).contains_key(k) implies map_of(after)[k]
        == map_of(entries).remove(removed)[k] by {
        let j = keys_of(after).index_of(k);
        lemma_map_of_at(after, j);
        assert(keys_of(after)[j] == keys_of(entries)[origin(j)]);
        lemma_map_of_at(entries, origin(j));
    }
    assert(map_of(after) =~= map_of(entries).remove(removed));
}

/// A map from accounts to records.
pub struct AccountMap<V> {
    entries: Vec<(String, V)>,
}

impl<V> View for AccountMap<V> {
    type V = Map<Seq<char>, V>;

    closed spec fn view(&self) -> Map<Seq<char>, V> {
        map_of(self.entries@)
    }
}

impl<V> AccountMap<V> {
    #[verifier::type_invariant]
    spec fn distinct_keys(self) -> bool {
        keys_of(self.entries@).no_duplicates()
    }

    /// The empty map.
    pub fn new() -> (map: Self)
        ensures
            map@ == Map::<Seq<char>, V>::empty(),
    {
        let map = AccountMap { entries: Vec::new() };
        assert(map_of(map.entries@) =~= Map::<Seq<char>, V>::empty());
        map
    }

    fn position(&self, account: &String) -> (at: Option<usize>)
        ensures
            keys_of(self.entries@).no_duplicates(),
            match at {
                Some(i) => i < self.entries@.len() && self.entries@[i as int].0@ == account@,
                None => !keys_of(self.entries@).contains(account@),
            },
    {
        proof {
            use_type_invariant(self);
        }
        let mut i: usize = 0;
        while i < self.entries.len()
            invariant
                i <= self.entries.len(),
                keys_of(self.entries@).no_duplicates(),
                forall|j: int| 0 <= j < i ==> keys_of(self.entries@)[j] != account@,
            decreases self.entries.len() - i,
        {
            if self.entries[i].0 == *account {
                return Some(i);
            }
            i += 1;
        }
        None
    }

    /// Whether the map has a record for `account`.
    pub fn contains_key(&self, account: &String) -> (found: bool)
        ensures
            found == self@.contains_key(account@),
    {
        match self.position(account) {
            Some(i) => {
                proof {
                    lemma_map_of_at(self.entries@, i as int);
                }
                true
            },
            None => false,
        }
    }

    /// The record of `account`, if there is one.
    pub fn get(&self, account: &String) -> (record: Option<&V>)
        ensures
            match record {
                Some(r) => self@.contains_key(account@) && *r == self@[account@],
                None => !self@.contains_key(account@),
            },
    {
        match self.position(account) {
            Some(i) => {
                proof {
                    lemma_map_of_at(self.entries@, i as int);
                }
                Some(&self.entries[i].1)
            },
            None => None,
        }
    }

    /// Sets the record of `account`, and hands back the record that it
    /// replaces, if there was one.
    pub fn insert(&mut self, account: String, record: V) -> (replaced: Option<V>)
        ensures
            final(self)@ == old(self)@.insert(account@, record),
            replaced == if old(self)@.contains_key(account@) {
                Some(old(self)@[account@])
            } else {
                None::<V>
            },
    {
        let at = self.position(&account);
        let ghost before = self.entries@;
        let mut entries: Vec<(String, V)> = Vec::new();
        assert(keys_of(entries@) =~= Seq::<Seq<char>>::empty());
        core::mem::swap(&mut self.entries, &mut entries);
        let replaced = match at {
            Some(i) => {
                proof {
                    lemma_map_of_at(before, i as int);
                    lemma_map_of_update(before, i as int, (account, record));
                }
                entries.push((account, record));
                let previous = entries.swap_remove(i);
                assert(entries@ =~= before.update(i as int, (account, record)));
                Some(previous.1)
            },
            None => {
                proof {
                    lemma_map_of_push(before, (account, record));
                }
                entries.push((account, record));
                None
            },
        };
        core::mem::swap(&mut self.entries, &mut entries);
        replaced
    }

    /// Takes the record of `account` out of the map, if there is one.
    pub fn remove(&mut self, account: &String) -> (removed: Option<V>)
        ensures
            final(self)@ == old(self)@.remove(account@),
            removed == if old(self)@.contains_key(account@) {
                Some(old(self)@[account@])
            } else {
                None::<V>
            },
    {
        match self.position(account) {
            Some(i) => {
                let ghost before = self.entries@;
                proof {
                    lemma_map_of_at(before, i as int);
                    lemma_map_of_swap_remove(before, i as int);
                }
                let mut entries: Vec<(String, V)> = Vec::new();
                assert(keys_of(entries@) =~= Seq::<Seq<char>>::empty());
                core::mem::swap(&mut self.entries, &mut entries);
                let taken = entries.swap_remove(i);
                core::mem::swap(&mut self.entries, &mut entries);
                Some(taken.1)
            },
            None => {
                assert(self@.remove(account@) =~= self@);
                None
            },
        }
    }
}

} // verus!
