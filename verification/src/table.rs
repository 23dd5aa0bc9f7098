//! Small lookup tables keyed by text, as the parsers fill them: entries are
//! kept in the order they were read, and a later entry for a key replaces an
//! earlier one.

use vstd::prelude::*;

verus! {

/// The mapping that a list of entries stands for: each entry is inserted in
/// turn, so the last entry for a key is the one that counts.
pub open spec fn table<V>(entries: Seq<(Seq<char>, V)>) -> Map<Seq<char>, V>
    decreases entries.len(),
{
    if entries.len() == 0 {
        Map::empty()
    } else {
        table(entries.drop_last()).insert(entries.last().0, entries.last().1)
    }
}

/// The last entry for a key decides what the table holds for it.
pub proof fn lemma_table_last<V>(entries: Seq<(Seq<char>, V)>, key: Seq<char>, i: int)
    requires
        0 <= i < entries.len(),
        entries[i].0 == key,
        forall|j: int| i < j < entries.len() ==> entries[j].0 != key,
    ensures
        table(entries).contains_key(key),
        table(entries)[key] == entries[i].1,
    decreases entries.len(),
{
    if i < entries.len() - 1 {
        lemma_table_last(entries.drop_last(), key, i);
    }
}

/// A key that no entry has is not in the table.
pub proof fn lemma_table_absent<V>(entries: Seq<(Seq<char>, V)>, key: Seq<char>)
    requires
        forall|j: int| 0 <= j < entries.len() ==> entries[j].0 != key,
    ensures
        !table(entries).contains_key(key),
    decreases entries.len(),
{
    if entries.len() > 0 {
        lemma_table_absent(entries.drop_last(), key);
    }
}

/// The entries of a text table by their character sequences.
pub open spec fn pairs(entries: Seq<(String, String)>) -> Seq<(Seq<char>, Seq<char>)> {
    entries.map_values(|e: (String, String)| (e.0@, e.1@))
}

/// A table from text keys to text values.
pub struct Fields {
    entries: Vec<(String, String)>,
}

impl View for Fields {
    type V = Map<Seq<char>, Seq<char>>;

    closed spec fn view(&self) -> Map<Seq<char>, Seq<char>> {
        table(pairs(self.entries@))
    }
}

impl Fields {
    /// A table without entries.
    pub fn new() -> (r: Self)
        ensures
            r@ == Map::<Seq<char>, Seq<char>>::empty(),
    {
        Fields { entries: Vec::new() }
    }

    /// Sets the value for `key`, replacing the one it had.
    pub fn insert(&mut self, key: String, value: String)
        ensures
            final(self)@ == old(self)@.insert(key@, value@),
    {
        let ghost before = pairs(self.entries@);
        self.entries.push((key, value));
        assert(pairs(self.entries@).drop_last() == before);
    }

    /// The value for `key`, if the table has one.
    pub fn get(&self, key: &str) -> (r: Option<&str>)
        ensures
            r is Some <==> self@.contains_key(key@),
            r matches Some(v) ==> v@ == self@[key@],
    {
        let mut i: usize = self.entries.len();
        while i > 0
            invariant
                i <= self.entries.len(),
                forall|j: int| i <= j < self.entries.len() ==> pairs(self.entries@)[j].0 != key@,
            decreases i,
        {
            i -= 1;
            if self.entries[i].0.as_str().eq(key) {
                proof {
                    lemma_table_last(pairs(self.entries@), key@, i as int);
                }
                return Some(self.entries[i].1.as_str());
            }
        }
        proof {
            lemma_table_absent(pairs(self.entries@), key@);
        }
        None
    }
}

} // verus!
