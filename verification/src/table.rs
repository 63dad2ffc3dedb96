//! Maps and sets whose keys are texts.
use crate::text;
use crate::text::same;
use vstd::prelude::*;

verus! {

/// A map from names to values that remembers the order in which its names came.
///
/// No name occurs twice. What a table holds is `table@`, a map; the order in which
/// it is walked is that of `table.rows()`.
#[derive(Debug)]
pub struct Table<V> {
    entries: Vec<(String, V)>,
}

/// Where the rows have `name`.
pub open spec fn row_of<V>(rows: Seq<(Seq<char>, V)>, name: Seq<char>) -> int {
    choose|i: int| 0 <= i < rows.len() && rows[i].0 == name
}

/// Whether some row has `name`.
pub open spec fn has_row<V>(rows: Seq<(Seq<char>, V)>, name: Seq<char>) -> bool {
    exists|i: int| 0 <= i < rows.len() && (#[trigger] rows[i]).0 == name
}

/// No name occurs twice.
pub open spec fn distinct_names<V>(rows: Seq<(Seq<char>, V)>) -> bool {
    forall|i: int, j: int|
        0 <= i < rows.len() && 0 <= j < rows.len() && (#[trigger] rows[i]).0 == (
        #[trigger] rows[j]).0 ==> i == j
}

/// The map that rows stand for.
pub open spec fn map_of<V>(rows: Seq<(Seq<char>, V)>) -> Map<Seq<char>, V> {
    Map::new(|name: Seq<char>| has_row(rows, name), |name: Seq<char>| rows[row_of(rows, name)].1)
}

/// The row at `i` is found by its name.
pub proof fn lemma_row_found<V>(rows: Seq<(Seq<char>, V)>, i: int)
    requires
        distinct_names(rows),
        0 <= i < rows.len(),
    ensures
        has_row(rows, rows[i].0),
        row_of(rows, rows[i].0) == i,
        map_of(rows).contains_key(rows[i].0),
        map_of(rows)[rows[i].0] == rows[i].1,
{
}

/// A row more is a name more.
pub proof fn lemma_has_row_push<V>(
    rows: Seq<(Seq<char>, V)>,
    row: (Seq<char>, V),
    name: Seq<char>,
)
    ensures
        has_row(rows.push(row), name) == (has_row(rows, name) || name == row.0),
{
    if has_row(rows, name) {
        assert(rows.push(row)[row_of(rows, name)].0 == name);
    }
    if name == row.0 {
        assert(rows.push(row)[rows.len() as int].0 == name);
    }
    if has_row(rows.push(row), name) && name != row.0 {
        assert(rows[row_of(rows.push(row), name)].0 == name);
    }
}

impl<V> View for Table<V> {
    type V = Map<Seq<char>, V>;

    open spec fn view(&self) -> Map<Seq<char>, V> {
        map_of(self.rows())
    }
}

impl<V> Table<V> {
    /// The rows in the order in which they are walked.
    pub closed spec fn rows(&self) -> Seq<(Seq<char>, V)> {
        self.entries@.map_values(|entry: (String, V)| (entry.0@, entry.1))
    }

    /// No name occurs twice.
    pub open spec fn well_formed(&self) -> bool {
        distinct_names(self.rows())
    }

    #[verifier::type_invariant]
    spec fn names_stay_distinct(&self) -> bool {
        self.well_formed()
    }

    /// A table without rows.
    pub fn new() -> (table: Self)
        ensures
            table.rows() == Seq::<(Seq<char>, V)>::empty(),
            table@ == Map::<Seq<char>, V>::empty(),
            table.well_formed(),
    {
        let table = Table { entries: Vec::new() };
        assert(table.rows() =~= Seq::<(Seq<char>, V)>::empty());
        assert(table@ =~= Map::<Seq<char>, V>::empty());
        table
    }

    /// The number of rows.
    pub fn len(&self) -> (count: usize)
        ensures
            count == self.rows().len(),
            self.well_formed(),
    {
        proof {
            use_type_invariant(self);
        }
        self.entries.len()
    }

    /// The name in row `i`.
    pub fn name_at(&self, i: usize) -> (name: &str)
        requires
            i < self.rows().len(),
        ensures
            name@ == self.rows()[i as int].0,
    {
        self.entries[i].0.as_str()
    }

    /// The value in row `i`.
    pub fn value_at(&self, i: usize) -> (value: &V)
        requires
            i < self.rows().len(),
        ensures
            *value == self.rows()[i as int].1,
    {
        &self.entries[i].1
    }

    fn position(&self, name: &str) -> (at: Option<usize>)
        ensures
            self.well_formed(),
            match at {
                Some(i) => i < self.rows().len() && self.rows()[i as int].0 == name@,
                None => !has_row(self.rows(), name@),
            },
    {
        proof {
            use_type_invariant(self);
        }
        for i in 0..self.entries.len()
            invariant
                self.well_formed(),
                forall|j: int| 0 <= j < i ==> (#[trigger] self.rows()[j]).0 != name@,
        {
            if same(self.entries[i].0.as_str(), name) {
                return Some(i);
            }
        }
        None
    }

    /// The value of a name.
    pub fn get(&self, name: &str) -> (value: Option<&V>)
        ensures
            match value {
                Some(v) => self@.contains_key(name@) && *v == self@[name@],
                None => !self@.contains_key(name@),
            },
    {
        match self.position(name) {
            Some(i) => {
                proof {
                    lemma_row_found(self.rows(), i as int);
                }
                Some(&self.entries[i].1)
            },
            None => None,
        }
    }

    /// Whether a name has a value.
    pub fn contains_key(&self, name: &str) -> (found: bool)
        ensures
            found == self@.contains_key(name@),
    {
        self.get(name).is_some()
    }

    /// Gives a name a value, in place of the one that it had. A new name comes last; a name
    /// that was there keeps its place.
    pub fn insert(&mut self, name: String, value: V)
        ensures
            final(self).well_formed(),
            final(self)@ == old(self)@.insert(name@, value),
            old(self)@.contains_key(name@) ==> final(self).rows() == old(self).rows().update(
                row_of(old(self).rows(), name@),
                (name@, value),
            ),
            !old(self)@.contains_key(name@) ==> final(self).rows() == old(self).rows().push(
                (name@, value),
            ),
    {
        proof {
            use_type_invariant(&*self);
        }
        let ghost before = self.rows();
        let found = self.position(name.as_str());
        let mut entries: Vec<(String, V)> = Vec::new();
        let ghost key = name@;
        assert(Table { entries }.rows() =~= Seq::<(Seq<char>, V)>::empty());
        std::mem::swap(&mut entries, &mut self.entries);
        match found {
            Some(i) => {
                entries.set(i, (name, value));
                let ghost after = Table { entries }.rows();
                proof {
                    lemma_row_found(before, i as int);
                    assert(after =~= before.update(i as int, (key, value)));
                    assert(map_of(after) =~= map_of(before).insert(key, value)) by {
                        lemma_update_row(before, i as int, key, value);
                    }
                }
            },
            None => {
                entries.push((name, value));
                let ghost after = Table { entries }.rows();
                proof {
                    assert(after =~= before.push((key, value)));
                    lemma_push_row(before, key, value);
                }
            },
        }
        self.entries = entries;
    }
}

proof fn lemma_update_row<V>(rows: Seq<(Seq<char>, V)>, at: int, name: Seq<char>, value: V)
    requires
        distinct_names(rows),
        0 <= at < rows.len(),
        rows[at].0 == name,
    ensures
        distinct_names(rows.update(at, (name, value))),
        map_of(rows.update(at, (name, value))) == map_of(rows).insert(name, value),
{
    let after = rows.update(at, (name, value));
    assert forall|other: Seq<char>| has_row(after, other) == has_row(rows, other) by {
        if has_row(after, other) {
            let i = row_of(after, other);
            assert(rows[i].0 == other);
        }
        if has_row(rows, other) {
            let i = row_of(rows, other);
            assert(after[i].0 == other);
        }
    }
    assert forall|i: int| 0 <= i < after.len() implies row_of(after, (#[trigger] after[i]).0)
        == i by {
        lemma_row_found(after, i);
    }
    assert forall|i: int| 0 <= i < rows.len() implies row_of(rows, (#[trigger] rows[i]).0) == i by {
        lemma_row_found(rows, i);
    }
    lemma_row_found(rows, at);
    lemma_row_found(after, at);
    assert(map_of(after).dom() =~= map_of(rows).insert(name, value).dom());
    assert forall|other: Seq<char>| map_of(after).contains_key(other) implies #[trigger] map_of(
        after,
    )[other] == map_of(rows).insert(name, value)[other] by {
        let i = row_of(after, other);
        assert(after[i].0 == other);
        assert(rows[i].0 == other);
    }
    assert(map_of(after) =~= map_of(rows).insert(name, value));
}

/// A row with a new name adds that name to the map.
pub proof fn lemma_push_row<V>(rows: Seq<(Seq<char>, V)>, name: Seq<char>, value: V)
    requires
        distinct_names(rows),
        !has_row(rows, name),
    ensures
        distinct_names(rows.push((name, value))),
        map_of(rows.push((name, value))) == map_of(rows).insert(name, value),
{
    let after = rows.push((name, value));
    assert(distinct_names(after));
    lemma_row_found(after, rows.len() as int);
    assert forall|other: Seq<char>| has_row(after, other) == (has_row(rows, other) || other
        == name) by {
        if has_row(after, other) {
            let i = row_of(after, other);
            if i < rows.len() {
                assert(rows[i].0 == other);
            }
        }
        if has_row(rows, other) {
            let i = row_of(rows, other);
            assert(after[i].0 == other);
        }
    }
    assert forall|other: Seq<char>| map_of(after).contains_key(other) implies #[trigger] map_of(
        after,
    )[other] == map_of(rows).insert(name, value)[other] by {
        let i = row_of(after, other);
        assert(after[i].0 == other);
        if i < rows.len() {
            assert(rows[i].0 == other);
            lemma_row_found(rows, i);
        }
    }
    assert(map_of(after) =~= map_of(rows).insert(name, value));
}

/// A set of names.
#[derive(Debug)]
pub struct NameSet {
    names: Vec<String>,
}

impl View for NameSet {
    type V = Set<Seq<char>>;

    closed spec fn view(&self) -> Set<Seq<char>> {
        Set::new(|name: Seq<char>| text::texts(self.names@).contains(name))
    }
}

impl NameSet {
    /// The empty set.
    pub fn new() -> (set: Self)
        ensures
            set@ == Set::<Seq<char>>::empty(),
    {
        let set = NameSet { names: Vec::new() };
        assert(set@ =~= Set::<Seq<char>>::empty());
        set
    }

    /// Whether the set holds `name`.
    pub fn contains(&self, name: &str) -> (found: bool)
        ensures
            found == self@.contains(name@),
    {
        text::has_name(self.names.as_slice(), name)
    }

    /// Adds `name`.
    pub fn insert(&mut self, name: &str)
        ensures
            final(self)@ == old(self)@.insert(name@),
    {
        let ghost before = text::texts(self.names@);
        self.names.push(name.to_string());
        proof {
            let after = text::texts(self.names@);
            assert(after =~= before.push(name@));
            text::lemma_push_contains(before, name@);
            assert(self@ =~= old(self)@.insert(name@));
        }
    }

    /// Takes `name` out.
    pub fn remove(&mut self, name: &str)
        ensures
            final(self)@ == old(self)@.remove(name@),
    {
        let ghost before = text::texts(self.names@);
        let mut kept: Vec<String> = Vec::new();
        let length: usize = self.names.len();
        for i in 0..length
            invariant
                length == self.names@.len(),
                text::texts(self.names@) == before,
                forall|other: Seq<char>| #[trigger]
                    text::texts(kept@).contains(other) <==> before.take(i as int).contains(other) && other
                        != name@,
        {
            let ghost kept_before = text::texts(kept@);
            let ghost item = self.names@[i as int]@;
            if !same(self.names[i].as_str(), name) {
                kept.push(self.names[i].clone());
                assert(text::texts(kept@) =~= kept_before.push(item));
            }
            proof {
                let now = before.take(i + 1);
                assert(now =~= before.take(i as int).push(item));
                assert forall|other: Seq<char>| #[trigger]
                    text::texts(kept@).contains(other) <==> now.contains(other) && other != name@ by {
                    text::lemma_push_contains(before.take(i as int), item);
                    text::lemma_push_contains(kept_before, item);
                    assert(kept_before.contains(other) <==> before.take(i as int).contains(other)
                        && other != name@);
                }
            }
        }
        assert(before.take(length as int) =~= before);
        self.names = kept;
        assert(self@ =~= old(self)@.remove(name@));
    }
}

} // verus!
