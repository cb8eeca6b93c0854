use vstd::prelude::*;

verus! {

/// The abstract value of an [`InventoryEntry`]: its four texts.
pub struct EntryModel {
    pub effective_file_url: Seq<char>,
    pub effective_file_date: Seq<char>,
    pub preliminary_file_url: Seq<char>,
    pub preliminary_file_date: Seq<char>,
}

/// Where the current data file of one administrative unit lives, and its date.
#[derive(Debug)]
pub struct InventoryEntry {
    pub effective_file_url: String,
    pub effective_file_date: String,
    pub preliminary_file_url: String,
    pub preliminary_file_date: String,
}

impl View for InventoryEntry {
    type V = EntryModel;

    open spec fn view(&self) -> EntryModel {
        EntryModel {
            effective_file_url: self.effective_file_url@,
            effective_file_date: self.effective_file_date@,
            preliminary_file_url: self.preliminary_file_url@,
            preliminary_file_date: self.preliminary_file_date@,
        }
    }
}

/// The model of an entry that records only an effective file.
pub open spec fn effective_only(url: Seq<char>, date: Seq<char>) -> EntryModel {
    EntryModel {
        effective_file_url: url,
        effective_file_date: date,
        preliminary_file_url: Seq::empty(),
        preliminary_file_date: Seq::empty(),
    }
}

impl InventoryEntry {
    /// An entry with an effective file and no preliminary one.
    pub fn effective(url: String, date: String) -> (r: InventoryEntry)
        ensures
            r@ == effective_only(url@, date@),
    {
        InventoryEntry {
            effective_file_url: url,
            effective_file_date: date,
            preliminary_file_url: String::new(),
            preliminary_file_date: String::new(),
        }
    }
}


/// The map that a sequence of key and entry pairs stands for, later pairs
/// overriding earlier ones.
pub open spec fn map_of(s: Seq<(String, InventoryEntry)>) -> Map<Seq<char>, EntryModel>
    decreases s.len(),
{
    if s.len() == 0 {
        Map::empty()
    } else {
        map_of(s.drop_last()).insert(s.last().0@, s.last().1@)
    }
}

/// No two pairs of the sequence carry the same key.
pub open spec fn keys_distinct(s: Seq<(String, InventoryEntry)>) -> bool {
    forall|i: int, j: int| 0 <= i < j < s.len() ==> s[i].0@ != s[j].0@
}

proof fn lemma_map_of_dom(s: Seq<(String, InventoryEntry)>, k: Seq<char>)
    ensures
        map_of(s).contains_key(k) <==> exists|i: int| 0 <= i < s.len() && s[i].0@ == k,
    decreases s.len(),
{
    if s.len() > 0 {
        lemma_map_of_dom(s.drop_last(), k);
        if map_of(s.drop_last()).contains_key(k) {
            let i = choose|i: int| 0 <= i < s.len() - 1 && s.drop_last()[i].0@ == k;
            assert(s[i].0@ == k);
        }
        if exists|i: int| 0 <= i < s.len() && s[i].0@ == k {
            let i = choose|i: int| 0 <= i < s.len() && s[i].0@ == k;
            if i < s.len() - 1 {
                assert(s.drop_last()[i].0@ == k);
            }
        }
    }
}

proof fn lemma_map_of_value(s: Seq<(String, InventoryEntry)>, i: int)
    requires
        keys_distinct(s),
        0 <= i < s.len(),
    ensures
        map_of(s).contains_key(s[i].0@),
        map_of(s)[s[i].0@] == s[i].1@,
    decreases s.len(),
{
    if i < s.len() - 1 {
        let t = s.drop_last();
        assert(keys_distinct(t));
        assert(t[i] == s[i]);
        lemma_map_of_value(t, i);
    }
}

proof fn lemma_map_of_update(s: Seq<(String, InventoryEntry)>, i: int, p: (String, InventoryEntry))
    requires
        keys_distinct(s),
        0 <= i < s.len(),
        s[i].0@ == p.0@,
    ensures
        keys_distinct(s.update(i, p)),
        map_of(s.update(i, p)) == map_of(s).insert(p.0@, p.1@),
{
    let t = s.update(i, p);
    assert(keys_distinct(t));
    assert forall|k: Seq<char>| #[trigger] map_of(t).contains_key(k) <==> map_of(s).insert(p.0@, p.1@).contains_key(k) by {
        lemma_map_of_dom(s, k);
        lemma_map_of_dom(t, k);
        if exists|j: int| 0 <= j < s.len() && s[j].0@ == k {
            let j = choose|j: int| 0 <= j < s.len() && s[j].0@ == k;
            assert(t[j].0@ == k);
        }
        if exists|j: int| 0 <= j < t.len() && t[j].0@ == k {
            let j = choose|j: int| 0 <= j < t.len() && t[j].0@ == k;
            assert(s[j].0@ == k);
        }
    }
    assert forall|k: Seq<char>| #[trigger] map_of(t).contains_key(k) implies map_of(t)[k] == map_of(s).insert(p.0@, p.1@)[k] by {
        lemma_map_of_dom(t, k);
        let j = choose|j: int| 0 <= j < t.len() && t[j].0@ == k;
        lemma_map_of_value(t, j);
        if j != i {
            lemma_map_of_value(s, j);
        }
    }
    assert(map_of(t) =~= map_of(s).insert(p.0@, p.1@));
}

/// A keyed inventory: for each administrative unit, its entry.
///
/// Pairs are kept in the order their keys were first inserted, and no key
/// occurs twice.
pub struct Inventory {
    entries: Vec<(String, InventoryEntry)>,
}

impl View for Inventory {
    type V = Map<Seq<char>, EntryModel>;

    closed spec fn view(&self) -> Map<Seq<char>, EntryModel> {
        map_of(self.entries@)
    }
}

impl Inventory {
    /// The inventory's pairs are well formed: no key twice.
    pub closed spec fn wf(&self) -> bool {
        keys_distinct(self.entries@)
    }

    /// An inventory with no entry.
    pub fn new() -> (r: Inventory)
        ensures
            r.wf(),
            r@ == Map::<Seq<char>, EntryModel>::empty(),
    {
        Inventory { entries: Vec::new() }
    }

    /// Maps `key` to `entry`, replacing what `key` mapped to before.
    pub fn insert(&mut self, key: String, entry: InventoryEntry)
        requires
            old(self).wf(),
        ensures
            final(self).wf(),
            final(self)@ == old(self)@.insert(key@, entry@),
    {
        let mut i: usize = 0;
        while i < self.entries.len()
            invariant
                self.entries@ == old(self).entries@,
                keys_distinct(self.entries@),
                i <= self.entries.len(),
                forall|j: int| 0 <= j < i ==> self.entries@[j].0@ != key@,
            decreases self.entries.len() - i,
        {
            if self.entries[i].0 == key {
                proof {
                    lemma_map_of_update(self.entries@, i as int, (key, entry));
                }
                self.entries.set(i, (key, entry));
                return;
            }
            i = i + 1;
        }
        let ghost before = self.entries@;
        self.entries.push((key, entry));
        proof {
            assert(self.entries@.drop_last() =~= before);
            assert(keys_distinct(self.entries@));
        }
    }

    /// The entry that `key` maps to, if any.
    pub fn get(&self, key: &String) -> (r: Option<&InventoryEntry>)
        requires
            self.wf(),
        ensures
            r is Some <==> self@.contains_key(key@),
            r matches Some(e) ==> e@ == self@[key@],
    {
        let mut i: usize = 0;
        while i < self.entries.len()
            invariant
                self.wf(),
                i <= self.entries.len(),
                forall|j: int| 0 <= j < i ==> self.entries@[j].0@ != key@,
            decreases self.entries.len() - i,
        {
            if self.entries[i].0 == *key {
                proof {
                    lemma_map_of_value(self.entries@, i as int);
                }
                return Some(&self.entries[i].1);
            }
            i = i + 1;
        }
        proof {
            lemma_map_of_dom(self.entries@, key@);
        }
        None
    }

    /// The number of keys.
    pub fn len(&self) -> (r: usize)
        requires
            self.wf(),
        ensures
            r == self@.len(),
    {
        proof {
            lemma_map_of_len(self.entries@);
        }
        self.entries.len()
    }

    /// The key and entry pairs, in the order their keys were first inserted.
    pub fn into_entries(self) -> (r: Vec<(String, InventoryEntry)>)
        requires
            self.wf(),
        ensures
            keys_distinct(r@),
            map_of(r@) == self@,
    {
        self.entries
    }
}

proof fn lemma_map_of_len(s: Seq<(String, InventoryEntry)>)
    requires
        keys_distinct(s),
    ensures
        map_of(s).len() == s.len(),
        map_of(s).dom().finite(),
    decreases s.len(),
{
    if s.len() > 0 {
        let t = s.drop_last();
        assert(keys_distinct(t));
        lemma_map_of_len(t);
        lemma_map_of_dom(t, s.last().0@);
        if map_of(t).contains_key(s.last().0@) {
            let i = choose|i: int| 0 <= i < t.len() && t[i].0@ == s.last().0@;
            assert(s[i].0@ == s[s.len() - 1].0@);
        }
    }
}

} // verus!
