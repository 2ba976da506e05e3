//! Tables from names to values: no name occurs twice, and what was added first stays first.

use crate::text;
use vstd::prelude::*;

verus! {

/// The names of a table, in their order.
pub open spec fn names<T>(rows: Seq<(Seq<char>, T)>) -> Seq<Seq<char>> {
    Seq::new(rows.len(), |i: int| rows[i].0)
}

/// The value that a table holds under a name.
pub open spec fn lookup<T>(rows: Seq<(Seq<char>, T)>, name: Seq<char>) -> Option<T> {
    if names(rows).contains(name) {
        Some(rows[names(rows).index_of(name)].1)
    } else {
        None
    }
}

/// A table after a value was put under a name: in the place of the old one, or at the end.
pub open spec fn inserted<T>(rows: Seq<(Seq<char>, T)>, name: Seq<char>, value: T) -> Seq<(Seq<char>, T)> {
    if names(rows).contains(name) {
        rows.update(names(rows).index_of(name), (name, value))
    } else {
        rows.push((name, value))
    }
}

/// Putting a value under a name lets every other name keep its value.
pub proof fn lemma_inserted<T>(rows: Seq<(Seq<char>, T)>, name: Seq<char>, value: T)
    requires
        names(rows).no_duplicates(),
    ensures
        names(inserted(rows, name, value)).no_duplicates(),
        lookup(inserted(rows, name, value), name) == Some(value),
        forall|other: Seq<char>|
            other != name ==> #[trigger] lookup(inserted(rows, name, value), other) == lookup(rows, other),
{
    let after = inserted(rows, name, value);
    let before_names = names(rows);
    let after_names = names(after);
    if before_names.contains(name) {
        let at = before_names.index_of(name);
        assert(0 <= at < rows.len() && before_names[at] == name);
        assert(after_names =~= before_names);
        assert forall|other: Seq<char>| other != name implies #[trigger] lookup(after, other) == lookup(rows, other) by {
            if before_names.contains(other) {
                let i = before_names.index_of(other);
                assert(before_names[i] == other);
            }
        }
    } else {
        assert(after_names =~= before_names.push(name));
        assert(after_names[rows.len() as int] == name);
        assert(after_names.contains(name));
        let at = after_names.index_of(name);
        assert(after_names[at] == name);
        assert(at == rows.len()) by {
            if at < rows.len() {
                assert(before_names[at] == name);
            }
        }
        assert forall|other: Seq<char>| other != name implies #[trigger] lookup(after, other) == lookup(rows, other) by {
            if before_names.contains(other) {
                let i = before_names.index_of(other);
                assert(before_names[i] == other);
                assert(after_names[i] == other);
                let j = after_names.index_of(other);
                assert(after_names[j] == other);
                assert(j != rows.len());
                assert(before_names[j] == other);
                assert(i == j);
            } else if after_names.contains(other) {
                let j = after_names.index_of(other);
                assert(after_names[j] == other);
                assert(before_names[j] == other);
            }
        }
    }
}

/// The value in a row is the one that the table holds under the row's name.
pub proof fn lemma_lookup_row<T>(rows: Seq<(Seq<char>, T)>, i: int)
    requires
        names(rows).no_duplicates(),
        0 <= i < rows.len(),
    ensures
        lookup(rows, rows[i].0) == Some(rows[i].1),
{
    assert(names(rows)[i] == rows[i].0);
    assert(names(rows).contains(rows[i].0));
    let j = names(rows).index_of(rows[i].0);
    assert(names(rows)[j] == rows[i].0);
}

/// A table from names to values.
pub struct Table<V> {
    rows: Vec<(String, V)>,
}

impl<V: View> View for Table<V> {
    type V = Seq<(Seq<char>, V::V)>;

    closed spec fn view(&self) -> Seq<(Seq<char>, V::V)> {
        Seq::new(self.rows@.len(), |i: int| (self.rows@[i].0@, self.rows@[i].1@))
    }
}

impl<V: View> Table<V> {
    /// No name occurs twice.
    pub open spec fn well_formed(&self) -> bool {
        names(self@).no_duplicates()
    }

    /// The number of rows is a machine number.
    pub proof fn lemma_len(&self)
        ensures
            self@.len() <= usize::MAX,
    {
        assert(self.rows.len() == self@.len());
    }

    /// A table without rows.
    pub fn new() -> (r: Self)
        ensures
            r.well_formed(),
            r@.len() == 0,
    {
        Table { rows: Vec::new() }
    }

    /// The number of rows.
    pub fn len(&self) -> (r: usize)
        ensures
            r == self@.len(),
    {
        self.rows.len()
    }

    /// The name in a row.
    pub fn name_at(&self, i: usize) -> (r: &String)
        requires
            i < self@.len(),
        ensures
            r@ == self@[i as int].0,
    {
        &self.rows[i].0
    }

    /// The value in a row.
    pub fn value_at(&self, i: usize) -> (r: &V)
        requires
            i < self@.len(),
        ensures
            r@ == self@[i as int].1,
    {
        &self.rows[i].1
    }

    /// The row of a name, or the number of rows.
    fn position(&self, name: &str) -> (r: usize)
        ensures
            r <= self@.len(),
            r < self@.len() ==> self@[r as int].0 == name@,
            r == self@.len() ==> !names(self@).contains(name@),
    {
        let wanted = name.to_owned();
        let mut i: usize = 0;
        while i < self.rows.len()
            invariant
                i <= self.rows.len(),
                wanted@ == name@,
                forall|j: int| 0 <= j < i ==> (#[trigger] self@[j]).0 != name@,
            decreases self.rows.len() - i,
        {
            assert(self@[i as int].0 == self.rows@[i as int].0@);
            if self.rows[i].0 == wanted {
                return i;
            }
            i = i + 1;
        }
        i
    }

    /// The value under a name.
    pub fn get(&self, name: &str) -> (r: Option<&V>)
        requires
            self.well_formed(),
        ensures
            match r {
                Some(value) => lookup(self@, name@) == Some(value@),
                None => lookup(self@, name@) is None,
            },
    {
        let i = self.position(name);
        if i < self.rows.len() {
            proof {
                lemma_lookup_row(self@, i as int);
            }
            Some(&self.rows[i].1)
        } else {
            None
        }
    }

    /// Puts a value under a name.
    pub fn insert(&mut self, name: String, value: V)
        requires
            old(self).well_formed(),
        ensures
            final(self).well_formed(),
            final(self)@ == inserted(old(self)@, name@, value@),
    {
        let i = self.position(name.as_str());
        proof {
            lemma_inserted(self@, name@, value@);
        }
        if i < self.rows.len() {
            proof {
                assert(names(self@)[i as int] == name@);
                assert(names(self@).contains(name@));
                let j = names(self@).index_of(name@);
                assert(names(self@)[j] == name@);
                assert(j == i);
            }
            self.rows.set(i, (name, value));
        } else {
            self.rows.push((name, value));
        }
        assert(self@ =~= inserted(old(self)@, name@, value@));
    }

    /// Takes the first row out.
    pub fn remove_first(&mut self) -> (r: (String, V))
        requires
            old(self).well_formed(),
            old(self)@.len() > 0,
        ensures
            final(self).well_formed(),
            final(self)@ == old(self)@.drop_first(),
            r.0@ == old(self)@[0].0,
            r.1@ == old(self)@[0].1,
    {
        let ghost before = self@;
        let r = self.rows.remove(0);
        proof {
            assert(self@ =~= before.drop_first());
            assert(names(self@) =~= names(before).drop_first());
        }
        r
    }

    /// The names in the order of texts.
    pub fn sorted_names(&self) -> (r: Vec<String>)
        ensures
            text::texts(r@) == text::sorted_texts(names(self@)),
    {
        let mut all: Vec<String> = Vec::new();
        let mut i: usize = 0;
        while i < self.rows.len()
            invariant
                i <= self.rows.len(),
                text::texts(all@) == names(self@).take(i as int),
            decreases self.rows.len() - i,
        {
            let ghost before = all@;
            all.push(self.rows[i].0.clone());
            proof {
                let name = self.rows@[i as int].0@;
                assert(text::texts(all@) =~= text::texts(before).push(name));
                assert(names(self@).take(i + 1) =~= names(self@).take(i as int).push(name));
            }
            i = i + 1;
        }
        assert(names(self@).take(i as int) =~= names(self@));
        text::sort_texts(&all)
    }
}

/// A table has the names of its rows, in their order.
pub proof fn tables_have_the_names_of_their_rows<T>(rows: Seq<(Seq<char>, T)>)
    ensures
        names(rows).len() == rows.len(),
        forall|i: int| 0 <= i < rows.len() ==> #[trigger] names(rows)[i] == rows[i].0,
{
}

/// A table holds a value under a name exactly where one of its rows does.
pub proof fn values_are_found_in_rows<T>(rows: Seq<(Seq<char>, T)>, name: Seq<char>, value: T)
    requires
        forall|i: int, j: int| 0 <= i < j < rows.len() ==> #[trigger] rows[i].0 != #[trigger] rows[j].0,
    ensures
        lookup(rows, name) == Some(value) <==> exists|i: int|
            0 <= i < rows.len() && #[trigger] rows[i] == (name, value),
        lookup(rows, name) is None <==> forall|i: int| 0 <= i < rows.len() ==> (#[trigger] rows[i]).0 != name,
{
    assert forall|i: int, j: int| 0 <= i < names(rows).len() && 0 <= j < names(rows).len() && i
        != j implies names(rows)[i] != names(rows)[j] by {
        assert(rows[i].0 != rows[j].0);
    }
    if lookup(rows, name) is Some {
        let i = names(rows).index_of(name);
        assert(names(rows)[i] == name);
        assert(rows[i] == (name, lookup(rows, name)->0));
    }
    assert forall|i: int| 0 <= i < rows.len() && (#[trigger] rows[i]).0 == name implies lookup(rows, name) == Some(
        rows[i].1,
    ) by {
        lemma_lookup_row(rows, i);
    }
}

/// Putting a value under a name changes no other row, and adds a row at the end only where the name
/// was not there.
pub proof fn inserting_keeps_the_other_rows<T>(rows: Seq<(Seq<char>, T)>, name: Seq<char>, value: T)
    ensures
        (forall|i: int| 0 <= i < rows.len() ==> (#[trigger] rows[i]).0 != name) ==> inserted(rows, name, value)
            == rows.push((name, value)),
        (exists|i: int| 0 <= i < rows.len() && (#[trigger] rows[i]).0 == name) ==> inserted(rows, name, value).len()
            == rows.len(),
        forall|i: int| 0 <= i < rows.len() ==> #[trigger] inserted(rows, name, value)[i].0 == rows[i].0,
        forall|i: int|
            0 <= i < rows.len() && rows[i].0 != name ==> #[trigger] inserted(rows, name, value)[i] == rows[i],
{
    if names(rows).contains(name) {
        let at = names(rows).index_of(name);
        assert(names(rows)[at] == name);
        assert(rows[at].0 == name);
    } else {
        assert forall|i: int| 0 <= i < rows.len() implies (#[trigger] rows[i]).0 != name by {
            assert(names(rows)[i] == rows[i].0);
        }
    }
}

} // verus!
