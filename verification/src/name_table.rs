//! A table from names to texts.
use vstd::prelude::*;

verus! {

/// A table from names to texts, in the order in which the names came. No name
/// occurs twice.
#[derive(Debug)]
pub struct NameTable {
    entries: Vec<(String, String)>,
}

impl View for NameTable {
    type V = Map<Seq<char>, Seq<char>>;

    closed spec fn view(&self) -> Map<Seq<char>, Seq<char>> {
        table_of(entry_texts(self.entries@))
    }
}

/// Names and texts as plain values.
pub open spec fn entry_texts(entries: Seq<(String, String)>) -> Seq<(Seq<char>, Seq<char>)> {
    Seq::new(entries.len(), |i: int| (entries[i].0@, entries[i].1@))
}

/// The table that a list of names and texts makes: a later text replaces an
/// earlier one under the same name.
pub open spec fn table_of(entries: Seq<(Seq<char>, Seq<char>)>) -> Map<Seq<char>, Seq<char>>
    decreases entries.len(),
{
    if entries.len() == 0 {
        Map::empty()
    } else {
        table_of(entries.drop_last()).insert(entries.last().0, entries.last().1)
    }
}

/// Whether no name occurs twice in a list.
pub open spec fn names_different(entries: Seq<(Seq<char>, Seq<char>)>) -> bool {
    forall|i: int, j: int|
        0 <= i < j < entries.len() ==> #[trigger] entries[i].0 != #[trigger] entries[j].0
}

/// A name that occurs once in a list has its text in the table.
proof fn lemma_table_at(entries: Seq<(Seq<char>, Seq<char>)>, i: int)
    requires
        0 <= i < entries.len(),
        names_different(entries),
    ensures
        table_of(entries).contains_key(entries[i].0),
        table_of(entries)[entries[i].0] == entries[i].1,
    decreases entries.len(),
{
    if i < entries.len() - 1 {
        lemma_table_at(entries.drop_last(), i);
        assert(entries[i].0 != entries[entries.len() - 1].0);
    }
}

/// A name in the table occurs in the list.
proof fn lemma_table_keys(entries: Seq<(Seq<char>, Seq<char>)>, name: Seq<char>)
    requires
        table_of(entries).contains_key(name),
    ensures
        exists|i: int| 0 <= i < entries.len() && #[trigger] entries[i].0 == name,
    decreases entries.len(),
{
    let last = entries.len() - 1;
    if entries.last().0 == name {
        assert(entries[last].0 == name);
    } else {
        lemma_table_keys(entries.drop_last(), name);
        let i = choose|i: int|
            0 <= i < entries.drop_last().len() && #[trigger] entries.drop_last()[i].0 == name;
        assert(entries[i].0 == name);
    }
}

/// Replacing the text at a place of a list replaces the text under its name.
proof fn lemma_table_update(entries: Seq<(Seq<char>, Seq<char>)>, i: int, text: Seq<char>)
    requires
        0 <= i < entries.len(),
        names_different(entries),
    ensures
        names_different(entries.update(i, (entries[i].0, text))),
        table_of(entries.update(i, (entries[i].0, text))) == table_of(entries).insert(
            entries[i].0,
            text,
        ),
{
    let name = entries[i].0;
    let after = entries.update(i, (name, text));
    let expected = table_of(entries).insert(name, text);
    assert forall|a: int, b: int| 0 <= a < b < after.len() implies #[trigger] after[a].0
        != #[trigger] after[b].0 by {
        assert(entries[a].0 != entries[b].0);
    }
    assert forall|k: Seq<char>| #[trigger] expected.contains_key(k) implies table_of(
        after,
    ).contains_key(k) && table_of(after)[k] == expected[k] by {
        if k == name {
            lemma_table_at(after, i);
        } else {
            lemma_table_keys(entries, k);
            let j = choose|j: int| 0 <= j < entries.len() && #[trigger] entries[j].0 == k;
            lemma_table_at(entries, j);
            lemma_table_at(after, j);
        }
    }
    assert forall|k: Seq<char>| #[trigger] table_of(after).contains_key(k) implies expected.contains_key(
        k,
    ) by {
        lemma_table_keys(after, k);
        let j = choose|j: int| 0 <= j < after.len() && #[trigger] after[j].0 == k;
        lemma_table_at(entries, j);
    }
    assert(table_of(after) =~= expected);
}

/// The place of a name in a list.
fn find(entries: &Vec<(String, String)>, name: &str) -> (r: Option<usize>)
    requires
        names_different(entry_texts(entries@)),
    ensures
        match r {
            Some(i) => {
                &&& i < entries@.len()
                &&& entries@[i as int].0@ == name@
                &&& table_of(entry_texts(entries@)).contains_key(name@)
                &&& table_of(entry_texts(entries@))[name@] == entries@[i as int].1@
            },
            None => {
                &&& !table_of(entry_texts(entries@)).contains_key(name@)
                &&& forall|i: int| 0 <= i < entries@.len() ==> #[trigger] entries@[i].0@ != name@
            },
        },
{
    let wanted: String = name.to_owned();
    let ghost all = entry_texts(entries@);
    let mut i: usize = 0;
    while i < entries.len()
        invariant
            wanted@ == name@,
            all == entry_texts(entries@),
            names_different(all),
            i <= entries@.len(),
            forall|j: int| 0 <= j < i ==> #[trigger] entries@[j].0@ != name@,
        decreases entries@.len() - i,
    {
        if entries[i].0 == wanted {
            proof {
                lemma_table_at(all, i as int);
            }
            return Some(i);
        }
        i = i + 1;
    }
    proof {
        if table_of(all).contains_key(name@) {
            lemma_table_keys(all, name@);
            let j = choose|j: int| 0 <= j < all.len() && #[trigger] all[j].0 == name@;
            assert(entries@[j].0@ == name@);
        }
    }
    None
}

impl NameTable {
    /// No name occurs twice.
    #[verifier::type_invariant]
    spec fn names_once(self) -> bool {
        names_different(entry_texts(self.entries@))
    }

    /// An empty table.
    pub fn new() -> (r: NameTable)
        ensures
            r@ == Map::<Seq<char>, Seq<char>>::empty(),
    {
        NameTable { entries: Vec::new() }
    }

    /// Whether there is a text under a name.
    pub fn contains(&self, name: &str) -> (r: bool)
        ensures
            r == self@.contains_key(name@),
    {
        proof {
            use_type_invariant(&*self);
        }
        find(&self.entries, name).is_some()
    }

    /// The text under a name.
    pub fn get(&self, name: &str) -> (r: Option<String>)
        ensures
            match r {
                Some(text) => self@.contains_key(name@) && text@ == self@[name@],
                None => !self@.contains_key(name@),
            },
    {
        proof {
            use_type_invariant(&*self);
        }
        match find(&self.entries, name) {
            Some(i) => Some(self.entries[i].1.clone()),
            None => None,
        }
    }

    /// Puts a text under a name.
    pub fn insert(&mut self, name: String, text: String)
        ensures
            final(self)@ == old(self)@.insert(name@, text@),
    {
        proof {
            use_type_invariant(&*self);
        }
        let mut entries: Vec<(String, String)> = Vec::new();
        std::mem::swap(&mut entries, &mut self.entries);
        let ghost before = entry_texts(entries@);
        match find(&entries, name.as_str()) {
            Some(i) => {
                entries.set(i, (name, text));
                proof {
                    lemma_table_update(before, i as int, text@);
                    assert(entry_texts(entries@) =~= before.update(i as int, (name@, text@)));
                }
            },
            None => {
                entries.push((name, text));
                proof {
                    let after = entry_texts(entries@);
                    assert(after.drop_last() =~= before);
                    assert forall|i: int, j: int|
                        0 <= i < j < after.len() implies #[trigger] after[i].0
                        != #[trigger] after[j].0 by {
                        assert(after[i] == before[i]);
                        if j < before.len() {
                            assert(after[j] == before[j]);
                        }
                    }
                }
            },
        }
        self.entries = entries;
    }

    /// The table that a list of names and texts makes.
    pub fn from_entries(entries: Vec<(String, String)>) -> (r: NameTable)
        ensures
            r@ == table_of(entry_texts(entries@)),
    {
        let mut table: NameTable = NameTable::new();
        let ghost all = entry_texts(entries@);
        for entry in iter: entries
            invariant
                iter.seq() == entries@,
                all == entry_texts(entries@),
                table@ == table_of(all.take(iter.index())),
        {
            proof {
                assert(all.take(iter.index() + 1).drop_last() =~= all.take(iter.index()));
            }
            table.insert(entry.0, entry.1);
        }
        proof {
            assert(all.take(all.len() as int) =~= all);
        }
        table
    }

    /// The names and texts, each name once.
    pub fn entries(&self) -> (r: Vec<(String, String)>)
        ensures
            table_of(entry_texts(r@)) == self@,
            names_different(entry_texts(r@)),
    {
        proof {
            use_type_invariant(&*self);
        }
        let mut entries: Vec<(String, String)> = Vec::new();
        let mut i: usize = 0;
        while i < self.entries.len()
            invariant
                i <= self.entries@.len(),
                entry_texts(entries@) == entry_texts(self.entries@).take(i as int),
            decreases self.entries@.len() - i,
        {
            let entry: &(String, String) = &self.entries[i];
            let ghost before = entry_texts(entries@);
            entries.push((entry.0.clone(), entry.1.clone()));
            proof {
                assert(entry_texts(entries@) =~= before.push((entry.0@, entry.1@)));
                assert(entry_texts(entries@) =~= entry_texts(self.entries@).take(i + 1));
            }
            i = i + 1;
        }
        proof {
            assert(entry_texts(entries@) =~= entry_texts(self.entries@));
        }
        entries
    }
}

/// A table holds what was put under each name last, and nothing else.
pub proof fn law_table_of(
    entries: Seq<(Seq<char>, Seq<char>)>,
    name: Seq<char>,
    text: Seq<char>,
    other: Seq<char>,
)
    ensures
        !table_of(Seq::empty()).contains_key(other),
        ({
            let after = table_of(entries.push((name, text)));
            &&& after.contains_key(name) && after[name] == text
            &&& other != name ==> {
                &&& after.contains_key(other) <==> table_of(entries).contains_key(other)
                &&& table_of(entries).contains_key(other) ==> after[other] == table_of(
                    entries,
                )[other]
            }
        }),
{
    assert(entries.push((name, text)).drop_last() =~= entries);
}

/// Entries are taken one by one, by their names and texts.
pub proof fn law_entry_texts(entries: Seq<(String, String)>, i: int)
    ensures
        entry_texts(entries).len() == entries.len(),
        0 <= i < entries.len() ==> entry_texts(entries)[i].0 == entries[i].0@ && entry_texts(
            entries,
        )[i].1 == entries[i].1@,
{
}

/// In a list without a name that occurs twice, each name stands at one place.
pub proof fn law_names_stand_once(entries: Seq<(Seq<char>, Seq<char>)>, i: int, j: int)
    requires
        names_different(entries),
        0 <= i < entries.len(),
        0 <= j < entries.len(),
        entries[i].0 == entries[j].0,
    ensures
        i == j,
{
}

} // verus!
