//! Queries and their results: the column layout of a compiled query, and a
//! single-pass cursor over result rows whose current row can only be read
//! until the cursor moves on.
use vstd::prelude::*;
use crate::fleece::{
    copy_node,
    dict_wf,
    items_wf,
    tree_wf,
    entries_of,
    lemma_entries_of,
    lemma_trees_of,
    tree_of,
    trees_of,
    Array,
    Dict,
    Entry,
    Node,
    Tree,
    Value,
};

verus! {

broadcast use vstd::std_specs::vec::axiom_vec_index_decreases;

/// The languages in which a query can be written.
#[derive(Clone, Copy, Debug, PartialEq, Eq, Structural)]
pub enum QueryLanguage {
    /// The JSON query schema.
    JSON,
    /// The N1QL textual syntax.
    N1QL,
}

/// The texts of a sequence of names.
pub open spec fn names_of(s: Seq<String>) -> Seq<Seq<char>> {
    s.map_values(|n: String| n@)
}

/// A compiled query's language and column names.
#[derive(Debug)]
pub struct Query {
    language: QueryLanguage,
    columns: Vec<String>,
}

impl Query {
    /// The names of the columns, in order.
    pub closed spec fn spec_columns(&self) -> Seq<Seq<char>> {
        names_of(self.columns@)
    }

    /// The language the query was written in.
    pub closed spec fn spec_language(&self) -> QueryLanguage {
        self.language
    }

    /// A compiled query with the given column names.
    pub fn compiled(language: QueryLanguage, columns: Vec<String>) -> (r: Query)
        ensures
            r.spec_columns() == names_of(columns@),
            r.spec_language() == language,
    {
        Query { language, columns }
    }

    /// The language the query was written in.
    pub fn language(&self) -> (r: QueryLanguage)
        ensures
            r == self.spec_language(),
    {
        self.language
    }

    /// The number of columns of each result row.
    pub fn column_count(&self) -> (r: usize)
        ensures
            r == self.spec_columns().len(),
    {
        self.columns.len()
    }

    /// The name of a column; `None` out of range.
    pub fn column_name(&self, col: usize) -> (r: Option<&str>)
        ensures
            r is Some <==> col < self.spec_columns().len(),
            r matches Some(s) ==> s@ == self.spec_columns()[col as int],
    {
        if col < self.columns.len() {
            Some(self.columns[col].as_str())
        } else {
            None
        }
    }

    /// The names of all the columns, in order.
    pub fn column_names(&self) -> (r: Vec<&str>)
        ensures
            r@.len() == self.spec_columns().len(),
            forall|i: int| 0 <= i < r@.len() ==> (#[trigger] r@[i])@ == self.spec_columns()[i],
    {
        let mut r: Vec<&str> = Vec::new();
        let mut i: usize = 0;
        while i < self.columns.len()
            invariant
                i <= self.columns@.len(),
                r@.len() == i,
                forall|j: int| 0 <= j < i ==> (#[trigger] r@[j])@ == self.columns@[j]@,
            decreases self.columns@.len() - i,
        {
            r.push(self.columns[i].as_str());
            i = i + 1;
        }
        r
    }
}

/// The cursor's state after one call to `next`: once exhausted it stays so
/// with no row; otherwise a row from the engine becomes the current row, and
/// no row exhausts it.
pub open spec fn next_state(exhausted: bool, fetched: Option<Seq<Tree>>) -> (bool, Option<Seq<Tree>>) {
    if exhausted {
        (true, None)
    } else {
        match fetched {
            None => (true, None),
            Some(row) => (false, Some(row)),
        }
    }
}

/// The cursor's state after a run of calls to `next`, one for each report
/// from the engine.
pub open spec fn after_calls(
    state: (bool, Option<Seq<Tree>>),
    fetches: Seq<Option<Seq<Tree>>>,
) -> (bool, Option<Seq<Tree>>)
    decreases fetches.len(),
{
    if fetches.len() == 0 {
        state
    } else {
        after_calls(next_state(state.0, fetches[0]), fetches.drop_first())
    }
}

/// Once a result set has given no row, every later call gives no row, whatever
/// the engine reports.
pub proof fn lemma_exhaustion_is_final(fetches: Seq<Option<Seq<Tree>>>)
    ensures
        after_calls((true, None), fetches) == (true, None::<Seq<Tree>>),
    decreases fetches.len(),
{
    if fetches.len() > 0 {
        lemma_exhaustion_is_final(fetches.drop_first());
    }
}

/// A row whose column names are distinct and whose values are well formed
/// is a well-formed dictionary.
pub proof fn lemma_row_entries_wf(names: Seq<Seq<char>>, row: Seq<Tree>)
    requires
        names.no_duplicates(),
        names.len() == row.len(),
        items_wf(row),
    ensures
        dict_wf(row_entries(names, row)),
{
    let e = row_entries(names, row);
    assert forall|a: int, b: int| 0 <= a < e.len() && 0 <= b < e.len() && a != b implies e[a].0
        != e[b].0 by {
        assert(e[a].0 == names[a]);
        assert(e[b].0 == names[b]);
    }
    assert forall|i: int| 0 <= i < e.len() implies tree_wf(#[trigger] e[i].1) by {
        assert(e[i].1 == row[i]);
    }
}

/// Whether column names are distinct, as the columns of a compiled query are.
pub fn names_unique(names: &Vec<String>) -> (r: bool)
    ensures
        r == names_of(names@).no_duplicates(),
{
    let ghost ns = names_of(names@);
    let mut i: usize = 0;
    while i < names.len()
        invariant
            ns == names_of(names@),
            ns.len() == names@.len(),
            i <= names@.len(),
            forall|a: int, b: int| 0 <= a < i && 0 <= b < names@.len() && a != b ==> ns[a] != ns[b],
        decreases names@.len() - i,
    {
        let mut j: usize = 0;
        while j < names.len()
            invariant
                ns == names_of(names@),
                ns.len() == names@.len(),
                i < names@.len(),
                j <= names@.len(),
                forall|a: int, b: int| 0 <= a < i && 0 <= b < names@.len() && a != b ==> ns[a] != ns[b],
                forall|b: int| 0 <= b < j && b != i ==> ns[i as int] != ns[b],
            decreases names@.len() - j,
        {
            if j != i && names[i] == names[j] {
                assert(ns[i as int] == ns[j as int]);
                return false;
            }
            j = j + 1;
        }
        i = i + 1;
    }
    true
}

/// The rows of a query's execution, read one at a time.
#[derive(Debug)]
pub struct ResultSet {
    columns: Vec<String>,
    values: Vec<Node>,
    entries: Vec<Entry>,
    has_row: bool,
    exhausted: bool,
}

/// A row's columns as dictionary entries: each column name with its value.
pub open spec fn row_entries(names: Seq<Seq<char>>, row: Seq<Tree>) -> Seq<(Seq<char>, Tree)> {
    Seq::new(row.len(), |i: int| (names[i], row[i]))
}

impl ResultSet {
    /// The names of the columns.
    pub closed spec fn spec_columns(&self) -> Seq<Seq<char>> {
        names_of(self.columns@)
    }

    /// Whether the rows have run out.
    pub closed spec fn spec_exhausted(&self) -> bool {
        self.exhausted
    }

    /// The current row's values, if there is a current row.
    pub closed spec fn spec_row(&self) -> Option<Seq<Tree>> {
        if self.has_row {
            Some(trees_of(self.values@))
        } else {
            None
        }
    }

    /// The state is consistent: a current row has one value per column.
    pub closed spec fn wf(&self) -> bool {
        &&& names_of(self.columns@).no_duplicates()
        &&& self.has_row ==> {
            &&& self.values@.len() == self.columns@.len()
            &&& items_wf(trees_of(self.values@))
            &&& entries_of(self.entries@) == row_entries(
                names_of(self.columns@),
                trees_of(self.values@),
            )
        }
        &&& self.exhausted ==> !self.has_row
    }

    /// A result set for a query with the given columns, before its first row.
    pub fn new(columns: Vec<String>) -> (r: ResultSet)
        requires
            names_of(columns@).no_duplicates(),
        ensures
            r.wf(),
            r.spec_columns() == names_of(columns@),
            !r.spec_exhausted(),
            r.spec_row() is None,
    {
        ResultSet {
            columns,
            values: Vec::new(),
            entries: Vec::new(),
            has_row: false,
            exhausted: false,
        }
    }

    /// The number of columns of each row.
    pub fn column_count(&self) -> (r: usize)
        ensures
            r == self.spec_columns().len(),
    {
        self.columns.len()
    }

    /// Moves to the row that the engine reports (`None` when it has no more)
    /// and gives it, or `None` once the rows have run out. The row borrows the
    /// result set, so it cannot be read after the next move.
    pub fn next(&mut self, fetched: Option<Vec<Node>>) -> (r: Option<Row<'_>>)
        requires
            old(self).wf(),
            fetched matches Some(v) ==> v@.len() == old(self).spec_columns().len() && items_wf(
                trees_of(v@),
            ),
        ensures
            final(self).wf(),
            final(self).spec_columns() == old(self).spec_columns(),
            (final(self).spec_exhausted(), final(self).spec_row()) == next_state(
                old(self).spec_exhausted(),
                match fetched {
                    Some(v) => Some(trees_of(v@)),
                    None => None,
                },
            ),
            r is Some <==> final(self).spec_row() is Some,
            r matches Some(row) ==> {
                &&& row.wf()
                &&& row.spec_columns() == final(self).spec_columns()
                &&& final(self).spec_row() == Some(row.spec_values())
            },
    {
        if self.exhausted {
            return None;
        }
        match fetched {
            None => {
                self.exhausted = true;
                self.has_row = false;
                None
            },
            Some(values) => {
                let entries = self.make_entries(&values);
                self.values = values;
                self.entries = entries;
                self.has_row = true;
                Some(Row { results: self })
            },
        }
    }

    fn make_entries(&self, values: &Vec<Node>) -> (r: Vec<Entry>)
        requires
            values@.len() == self.columns@.len(),
        ensures
            entries_of(r@) == row_entries(names_of(self.columns@), trees_of(values@)),
    {
        let mut r: Vec<Entry> = Vec::new();
        let mut i: usize = 0;
        while i < values.len()
            invariant
                values@.len() == self.columns@.len(),
                i <= values@.len(),
                r@.len() == i,
                forall|j: int|
                    0 <= j < i ==> (#[trigger] r@[j]).key@ == self.columns@[j]@ && tree_of(
                        r@[j].value,
                    ) == tree_of(values@[j]),
            decreases values@.len() - i,
        {
            let value = copy_node(&values[i]);
            r.push(Entry { key: self.columns[i].clone(), value });
            i = i + 1;
        }
        proof {
            lemma_entries_of(r@);
            lemma_trees_of(values@);
            assert(entries_of(r@) =~= row_entries(names_of(self.columns@), trees_of(values@)));
        }
        r
    }
}

/// The current row of a result set, valid until the result set moves on.
pub struct Row<'r> {
    results: &'r ResultSet,
}

impl<'r> Row<'r> {
    /// The result set's column names.
    pub closed spec fn spec_columns(&self) -> Seq<Seq<char>> {
        self.results.spec_columns()
    }

    /// The row's values, in column order.
    pub closed spec fn spec_values(&self) -> Seq<Tree> {
        trees_of(self.results.values@)
    }

    /// The row is the current row of a consistent result set.
    pub closed spec fn wf(&self) -> bool {
        self.results.wf() && self.results.has_row
    }

    /// The value of a column, by index; no value out of range.
    pub fn get(&self, index: isize) -> (r: Value<'r>)
        requires
            self.wf(),
        ensures
            r@ == (if 0 <= index < self.spec_values().len() {
                Some(self.spec_values()[index as int])
            } else {
                None
            }),
    {
        proof { lemma_trees_of(self.results.values@); }
        if index >= 0 && (index as usize) < self.results.values.len() {
            proof { assert(tree_wf(trees_of(self.results.values@)[index as int])); }
            Value::wrap(&self.results.values[index as usize])
        } else {
            Value::undefined()
        }
    }

    /// The value of a column, by name; no value for an unknown name.
    pub fn get_key(&self, key: &str) -> (r: Value<'r>)
        requires
            self.wf(),
        ensures
            r@ == crate::fleece::lookup(row_entries(self.spec_columns(), self.spec_values()), key@),
    {
        proof {
            lemma_trees_of(self.results.values@);
            lemma_row_entries_wf(names_of(self.results.columns@), trees_of(self.results.values@));
        }
        Dict::wrap(&self.results.entries).get(key)
    }

    /// The number of columns.
    pub fn column_count(&self) -> (r: isize)
        requires
            self.wf(),
            self.spec_columns().len() <= isize::MAX,
        ensures
            r == self.spec_columns().len(),
    {
        self.results.columns.len() as isize
    }

    /// The name of a column; `None` out of range.
    pub fn column_name(&self, col: isize) -> (r: Option<&'r str>)
        requires
            self.wf(),
        ensures
            r is Some <==> 0 <= col < self.spec_columns().len(),
            r matches Some(s) ==> s@ == self.spec_columns()[col as int],
    {
        if col >= 0 && (col as usize) < self.results.columns.len() {
            Some(self.results.columns[col as usize].as_str())
        } else {
            None
        }
    }

    /// All the columns, as an array.
    pub fn as_array(&self) -> (r: Array<'r>)
        requires
            self.wf(),
        ensures
            r@ == Some(self.spec_values()),
    {
        Array::wrap(&self.results.values)
    }

    /// All the columns, as a dictionary from column name to value.
    pub fn as_dict(&self) -> (r: Dict<'r>)
        requires
            self.wf(),
        ensures
            r@ == Some(row_entries(self.spec_columns(), self.spec_values())),
    {
        proof {
            lemma_trees_of(self.results.values@);
            lemma_row_entries_wf(names_of(self.results.columns@), trees_of(self.results.values@));
        }
        Dict::wrap(&self.results.entries)
    }
}

} // verus!
