//! The descriptor set: the networks a session can select, each under a name
//! that no other entry has.
//!
//! The set keeps its entries in the order in which their names first came,
//! so that a search by chain id has one answer for a given set.

use vstd::prelude::*;
use crate::network::{Network, NetworkView};

verus! {

/// Whether no two entries of `s` have the same name.
pub open spec fn names_distinct(s: Seq<NetworkView>) -> bool {
    forall|i: int, j: int| 0 <= i < j < s.len() ==> s[i].name != s[j].name
}

/// The first position of `s` whose entry is called `name`.
pub open spec fn position_of_name(s: Seq<NetworkView>, name: Seq<char>) -> Option<int>
    decreases s.len(),
{
    if s.len() == 0 {
        None
    } else if position_of_name(s.drop_last(), name) is Some {
        position_of_name(s.drop_last(), name)
    } else if s.last().name == name {
        Some(s.len() - 1)
    } else {
        None
    }
}

/// The first position of `s` whose entry has chain id `chain_id`.
pub open spec fn position_of_chain(s: Seq<NetworkView>, chain_id: u32) -> Option<int>
    decreases s.len(),
{
    if s.len() == 0 {
        None
    } else if position_of_chain(s.drop_last(), chain_id) is Some {
        position_of_chain(s.drop_last(), chain_id)
    } else if s.last().chain_id == chain_id {
        Some(s.len() - 1)
    } else {
        None
    }
}

/// The entry of `s` called `name`, if there is one.
pub open spec fn lookup(s: Seq<NetworkView>, name: Seq<char>) -> Option<NetworkView> {
    match position_of_name(s, name) {
        Some(i) => Some(s[i]),
        None => None,
    }
}

/// The first entry of `s` with chain id `chain_id`, if there is one.
pub open spec fn lookup_chain(s: Seq<NetworkView>, chain_id: u32) -> Option<NetworkView> {
    match position_of_chain(s, chain_id) {
        Some(i) => Some(s[i]),
        None => None,
    }
}

/// `s` with `n` put under its name: in the place of the entry that had the
/// name, or at the end where none had it.
pub open spec fn upsert(s: Seq<NetworkView>, n: NetworkView) -> Seq<NetworkView> {
    match position_of_name(s, n.name) {
        Some(i) => s.update(i, n),
        None => s.push(n),
    }
}

/// The set built from `list`, entry by entry from the front: of two entries
/// with one name the later one stays.
pub open spec fn collect(list: Seq<NetworkView>) -> Seq<NetworkView>
    decreases list.len(),
{
    if list.len() == 0 {
        Seq::empty()
    } else {
        upsert(collect(list.drop_last()), list.last())
    }
}

/// The descriptors of `s` by name.
pub open spec fn by_name(s: Seq<NetworkView>) -> Map<Seq<char>, NetworkView> {
    Map::new(|name: Seq<char>| position_of_name(s, name) is Some, |name: Seq<char>| lookup(s, name)->0)
}

/// What `position_of_name` finds: a position in range that holds the name,
/// before which no entry holds it; and nothing only where no entry holds it.
pub proof fn lemma_position_of_name(s: Seq<NetworkView>, name: Seq<char>)
    ensures
        match position_of_name(s, name) {
            Some(i) => 0 <= i < s.len() && s[i].name == name && forall|j: int|
                0 <= j < i ==> s[j].name != name,
            None => forall|j: int| 0 <= j < s.len() ==> s[j].name != name,
        },
    decreases s.len(),
{
    if s.len() > 0 {
        let front = s.drop_last();
        lemma_position_of_name(front, name);
        match position_of_name(front, name) {
            Some(i) => {
                assert(front[i] == s[i]);
                assert forall|j: int| 0 <= j < i implies s[j].name != name by {
                    assert(front[j] == s[j]);
                }
            },
            None => {
                assert forall|j: int| 0 <= j < s.len() - 1 implies s[j].name != name by {
                    assert(front[j] == s[j]);
                }
            },
        }
    }
}

/// What `position_of_chain` finds: a position in range that holds the chain
/// id, before which no entry holds it; and nothing only where no entry holds
/// it.
pub proof fn lemma_position_of_chain(s: Seq<NetworkView>, chain_id: u32)
    ensures
        match position_of_chain(s, chain_id) {
            Some(i) => 0 <= i < s.len() && s[i].chain_id == chain_id && forall|j: int|
                0 <= j < i ==> s[j].chain_id != chain_id,
            None => forall|j: int| 0 <= j < s.len() ==> s[j].chain_id != chain_id,
        },
    decreases s.len(),
{
    if s.len() > 0 {
        let front = s.drop_last();
        lemma_position_of_chain(front, chain_id);
        match position_of_chain(front, chain_id) {
            Some(i) => {
                assert(front[i] == s[i]);
                assert forall|j: int| 0 <= j < i implies s[j].chain_id != chain_id by {
                    assert(front[j] == s[j]);
                }
            },
            None => {
                assert forall|j: int| 0 <= j < s.len() - 1 implies s[j].chain_id != chain_id by {
                    assert(front[j] == s[j]);
                }
            },
        }
    }
}

/// The map that inserting the entries of `list` one after the other, each
/// under its name, builds.
pub open spec fn map_of(list: Seq<NetworkView>) -> Map<Seq<char>, NetworkView>
    decreases list.len(),
{
    if list.len() == 0 {
        Map::empty()
    } else {
        map_of(list.drop_last()).insert(list.last().name, list.last())
    }
}

/// The first position that holds a name is the one that `position_of_name`
/// finds.
pub proof fn lemma_position_is(s: Seq<NetworkView>, name: Seq<char>, i: int)
    requires
        0 <= i < s.len(),
        s[i].name == name,
        forall|j: int| 0 <= j < i ==> s[j].name != name,
    ensures
        position_of_name(s, name) == Some(i),
{
    lemma_position_of_name(s, name);
    match position_of_name(s, name) {
        Some(k) => {
            if k < i {
                assert(s[k].name != name);
            } else if k > i {
                assert(s[i].name == name);
            }
        },
        None => {
            assert(s[i].name == name);
        },
    }
}

/// Where the names are distinct, the position that holds a name is the one
/// that `position_of_name` finds.
pub proof fn lemma_position_distinct(s: Seq<NetworkView>, i: int)
    requires
        names_distinct(s),
        0 <= i < s.len(),
    ensures
        position_of_name(s, s[i].name) == Some(i),
        lookup(s, s[i].name) == Some(s[i]),
{
    lemma_position_is(s, s[i].name, i);
}

/// Putting an entry under its name keeps the names distinct, makes the entry
/// the one found under its name, and leaves every other name as it was.
pub proof fn lemma_upsert(s: Seq<NetworkView>, n: NetworkView)
    requires
        names_distinct(s),
    ensures
        names_distinct(upsert(s, n)),
        lookup(upsert(s, n), n.name) == Some(n),
        forall|name: Seq<char>|
            name != n.name ==> #[trigger] lookup(upsert(s, n), name) == lookup(s, name),
        by_name(upsert(s, n)) == by_name(s).insert(n.name, n),
{
    let t = upsert(s, n);
    lemma_position_of_name(s, n.name);
    match position_of_name(s, n.name) {
        Some(i) => {
            assert(t == s.update(i, n));
            assert forall|a: int, b: int| 0 <= a < b < t.len() implies t[a].name != t[b].name by {
                assert(t[a].name == s[a].name);
                assert(t[b].name == s[b].name);
            }
            assert forall|j: int| 0 <= j < i implies t[j].name != n.name by {
                assert(t[j] == s[j]);
            }
            lemma_position_is(t, n.name, i);
            assert forall|name: Seq<char>| name != n.name implies #[trigger] lookup(t, name)
                == lookup(s, name) by {
                lemma_position_of_name(s, name);
                match position_of_name(s, name) {
                    Some(k) => {
                        assert(t[k] == s[k]);
                        assert forall|j: int| 0 <= j < k implies t[j].name != name by {
                            assert(t[j].name == s[j].name);
                        }
                        lemma_position_is(t, name, k);
                    },
                    None => {
                        lemma_position_of_name(t, name);
                        if position_of_name(t, name) is Some {
                            let k = position_of_name(t, name)->0;
                            assert(t[k].name == s[k].name);
                        }
                    },
                }
            }
        },
        None => {
            assert(t == s.push(n));
            assert(t.drop_last() =~= s);
            assert(t.last() == n);
            assert forall|a: int, b: int| 0 <= a < b < t.len() implies t[a].name != t[b].name by {
                assert(t[a] == s[a]);
                if b < s.len() {
                    assert(t[b] == s[b]);
                }
            }
            assert forall|name: Seq<char>| name != n.name implies #[trigger] lookup(t, name)
                == lookup(s, name) by {
                lemma_position_of_name(s, name);
                if position_of_name(s, name) is Some {
                    assert(t[position_of_name(s, name)->0] == s[position_of_name(s, name)->0]);
                }
            }
        },
    }
    assert(by_name(t) =~= by_name(s).insert(n.name, n)) by {
        assert forall|name: Seq<char>| #[trigger]
            by_name(t).dom().contains(name) <==> by_name(s).insert(n.name, n).dom().contains(
                name,
            ) by {
            if name != n.name {
                assert(lookup(t, name) == lookup(s, name));
            }
        }
        assert forall|name: Seq<char>| #[trigger] by_name(t).dom().contains(name) implies by_name(
            t,
        )[name] == by_name(s).insert(n.name, n)[name] by {
            if name != n.name {
                assert(lookup(t, name) == lookup(s, name));
            }
        }
    }
}

/// A set built from a list has distinct names, and holds by name what
/// inserting the entries of the list into a map, one after the other, gives:
/// under each name the last entry of the list with that name.
pub proof fn lemma_collect(list: Seq<NetworkView>)
    ensures
        names_distinct(collect(list)),
        by_name(collect(list)) == map_of(list),
    decreases list.len(),
{
    if list.len() > 0 {
        lemma_collect(list.drop_last());
        lemma_upsert(collect(list.drop_last()), list.last());
    } else {
        assert(by_name(collect(list)) =~= map_of(list));
    }
}

/// A list with distinct names is the set that is built from it.
pub proof fn lemma_collect_distinct(list: Seq<NetworkView>)
    requires
        names_distinct(list),
    ensures
        collect(list) == list,
    decreases list.len(),
{
    if list.len() > 0 {
        let front = list.drop_last();
        assert forall|i: int, j: int| 0 <= i < j < front.len() implies front[i].name
            != front[j].name by {
            assert(front[i] == list[i] && front[j] == list[j]);
        }
        lemma_collect_distinct(front);
        lemma_position_of_name(front, list.last().name);
        if position_of_name(front, list.last().name) is Some {
            let i = position_of_name(front, list.last().name)->0;
            assert(front[i] == list[i]);
            assert(list[i].name != list[list.len() - 1].name);
        }
        assert(front.push(list.last()) =~= list);
    } else {
        assert(collect(list) =~= list);
    }
}

/// The networks that can be selected, each under its own name.
pub struct NetworkSet {
    entries: Vec<Network>,
}

impl View for NetworkSet {
    type V = Seq<NetworkView>;

    closed spec fn view(&self) -> Seq<NetworkView> {
        Seq::new(self.entries@.len(), |i: int| self.entries@[i]@)
    }
}

impl NetworkSet {
    /// The invariant of the set: no two entries have the same name.
    pub open spec fn wf(&self) -> bool {
        names_distinct(self@)
    }

    /// The set without entries.
    pub fn new() -> (set: Self)
        ensures
            set@ == Seq::<NetworkView>::empty(),
            set.wf(),
    {
        let set = NetworkSet { entries: Vec::new() };
        assert(set@ =~= Seq::<NetworkView>::empty());
        set
    }

    /// The number of entries.
    pub fn len(&self) -> (n: usize)
        ensures
            n == self@.len(),
    {
        self.entries.len()
    }

    /// The position of the entry called `name`.
    fn find_name(&self, name: &String) -> (found: Option<usize>)
        ensures
            match found {
                Some(i) => position_of_name(self@, name@) == Some(i as int) && i < self@.len(),
                None => position_of_name(self@, name@) is None,
            },
    {
        let mut i: usize = 0;
        while i < self.entries.len()
            invariant
                i <= self.entries.len(),
                self@.len() == self.entries@.len(),
                position_of_name(self@.take(i as int), name@) is None,
            decreases self.entries.len() - i,
        {
            proof {
                assert(self@.take(i + 1).drop_last() =~= self@.take(i as int));
                assert(self@.take(i + 1).last() == self.entries@[i as int]@);
            }
            if self.entries[i].name == *name {
                proof {
                    lemma_position_in_prefix(self@, name@, i + 1);
                }
                return Some(i);
            }
            i += 1;
        }
        assert(self@.take(i as int) =~= self@);
        None
    }

    /// The entry called `name`, if there is one.
    pub fn get(&self, name: &String) -> (found: Option<&Network>)
        ensures
            match found {
                Some(n) => lookup(self@, name@) == Some(n@),
                None => lookup(self@, name@) is None,
            },
    {
        match self.find_name(name) {
            Some(i) => Some(&self.entries[i]),
            None => None,
        }
    }

    /// Whether an entry is called `name`.
    pub fn contains(&self, name: &String) -> (found: bool)
        ensures
            found == (lookup(self@, name@) is Some),
    {
        self.find_name(name).is_some()
    }

    /// The first entry with chain id `chain_id`, if there is one.
    pub fn find_by_chain_id(&self, chain_id: u32) -> (found: Option<&Network>)
        ensures
            match found {
                Some(n) => lookup_chain(self@, chain_id) == Some(n@),
                None => lookup_chain(self@, chain_id) is None,
            },
    {
        let mut i: usize = 0;
        while i < self.entries.len()
            invariant
                i <= self.entries.len(),
                self@.len() == self.entries@.len(),
                position_of_chain(self@.take(i as int), chain_id) is None,
            decreases self.entries.len() - i,
        {
            proof {
                assert(self@.take(i + 1).drop_last() =~= self@.take(i as int));
                assert(self@.take(i + 1).last() == self.entries@[i as int]@);
            }
            if self.entries[i].chain_id == chain_id {
                proof {
                    lemma_chain_in_prefix(self@, chain_id, i + 1);
                }
                return Some(&self.entries[i]);
            }
            i += 1;
        }
        assert(self@.take(i as int) =~= self@);
        None
    }

    /// Puts `n` under its name: in the place of the entry that had the name,
    /// or at the end where none had it.
    pub fn insert(&mut self, n: Network)
        requires
            old(self).wf(),
        ensures
            final(self).wf(),
            final(self)@ == upsert(old(self)@, n@),
    {
        proof {
            lemma_upsert(self@, n@);
        }
        match self.find_name(&n.name) {
            Some(i) => {
                self.entries.set(i, n);
            },
            None => {
                self.entries.push(n);
            },
        }
        assert(self@ =~= upsert(old(self)@, n@));
    }

    /// The set built from `list`, entry by entry from the front: of two
    /// entries with one name the later one stays, in the place of the first.
    pub fn from_list(list: &Vec<Network>) -> (set: Self)
        ensures
            set.wf(),
            set@ == collect(views(list@)),
    {
        let mut set = NetworkSet::new();
        let mut i: usize = 0;
        while i < list.len()
            invariant
                i <= list.len(),
                set.wf(),
                set@ == collect(views(list@).take(i as int)),
            decreases list.len() - i,
        {
            proof {
                assert(views(list@).take(i + 1).drop_last() =~= views(list@).take(i as int));
            }
            set.insert(list[i].clone());
            i += 1;
        }
        assert(views(list@).take(i as int) =~= views(list@));
        set
    }

    /// The entries, in the order of the set.
    pub fn to_vec(&self) -> (list: Vec<Network>)
        ensures
            views(list@) == self@,
    {
        let mut list: Vec<Network> = Vec::new();
        let mut i: usize = 0;
        while i < self.entries.len()
            invariant
                i <= self.entries.len(),
                self@.len() == self.entries@.len(),
                list@.len() == i,
                views(list@) == self@.take(i as int),
            decreases self.entries.len() - i,
        {
            let ghost before = list@;
            list.push(self.entries[i].clone());
            assert forall|j: int| 0 <= j < i + 1 implies views(list@)[j] == self@.take(i + 1)[j] by {
                if j < i {
                    assert(list@[j] == before[j]);
                    assert(views(before)[j] == self@.take(i as int)[j]);
                }
            }
            assert(views(list@) =~= self@.take(i + 1));
            i += 1;
        }
        assert(self@.take(i as int) =~= self@);
        list
    }
}

/// The views of the entries of a list.
pub open spec fn views(list: Seq<Network>) -> Seq<NetworkView> {
    Seq::new(list.len(), |i: int| list[i]@)
}

/// A name found in a prefix is found at the same place in the whole.
proof fn lemma_position_in_prefix(s: Seq<NetworkView>, name: Seq<char>, k: int)
    requires
        0 <= k <= s.len(),
        position_of_name(s.take(k), name) is Some,
    ensures
        position_of_name(s, name) == position_of_name(s.take(k), name),
    decreases s.len() - k,
{
    if k < s.len() {
        assert(s.take(k + 1).drop_last() =~= s.take(k));
        lemma_position_in_prefix(s, name, k + 1);
    } else {
        assert(s.take(k) =~= s);
    }
}

/// A chain id found in a prefix is found at the same place in the whole.
proof fn lemma_chain_in_prefix(s: Seq<NetworkView>, chain_id: u32, k: int)
    requires
        0 <= k <= s.len(),
        position_of_chain(s.take(k), chain_id) is Some,
    ensures
        position_of_chain(s, chain_id) == position_of_chain(s.take(k), chain_id),
    decreases s.len() - k,
{
    if k < s.len() {
        assert(s.take(k + 1).drop_last() =~= s.take(k));
        lemma_chain_in_prefix(s, chain_id, k + 1);
    } else {
        assert(s.take(k) =~= s);
    }
}

} // verus!
