//! Schemas: which columns of an entity type a caller asked for.

use vstd::prelude::*;

verus! {

/// The entity types that can be extracted.
#[derive(Clone, Copy, Debug, PartialEq, Eq, Hash, Structural)]
pub enum Datatype {
    Blocks,
    Logs,
    Transactions,
    Traces,
}

/// The semantic type of an output column.
#[derive(Clone, Copy, Debug, PartialEq, Eq, Hash, Structural)]
pub enum ColumnType {
    UInt32,
    UInt64,
    Binary,
}

/// The schema of one entity type: the names of the requested columns and,
/// where event data is to be decoded, the decoder.
pub struct Table<D> {
    columns: Vec<String>,
    log_decoder: Option<D>,
}

/// The schemas of a query, by entity type. A later entry for an entity type
/// replaces an earlier one.
pub struct Schemas<D> {
    tables: Vec<(Datatype, Table<D>)>,
}

/// The set of the names in a list of column names.
pub open spec fn column_names(columns: Seq<String>) -> Set<Seq<char>> {
    Set::new(|name: Seq<char>| exists|i: int| 0 <= i < columns.len() && columns[i]@ == name)
}

/// The map that a list of entries stands for, later entries replacing earlier ones.
pub open spec fn bindings<D>(entries: Seq<(Datatype, Table<D>)>) -> Map<Datatype, Table<D>>
    decreases entries.len(),
{
    if entries.len() == 0 {
        Map::empty()
    } else {
        bindings(entries.drop_last()).insert(entries.last().0, entries.last().1)
    }
}

/// Entries that do not name an entity type do not affect what is bound to it.
proof fn lemma_bindings_skip<D>(entries: Seq<(Datatype, Table<D>)>, datatype: Datatype, from: int)
    requires
        0 <= from <= entries.len(),
        forall|j: int| from <= j < entries.len() ==> entries[j].0 != datatype,
    ensures
        bindings(entries).contains_key(datatype) == bindings(entries.take(from)).contains_key(
            datatype,
        ),
        bindings(entries).contains_key(datatype) ==> bindings(entries)[datatype] == bindings(
            entries.take(from),
        )[datatype],
    decreases entries.len(),
{
    if from == entries.len() {
        assert(entries.take(from) == entries);
    } else {
        lemma_bindings_skip(entries.drop_last(), datatype, from);
        assert(entries.drop_last().take(from) == entries.take(from));
    }
}

impl<D> View for Table<D> {
    type V = Set<Seq<char>>;

    /// The set of requested column names.
    closed spec fn view(&self) -> Set<Seq<char>> {
        column_names(self.columns@)
    }
}

impl<D> Table<D> {
    /// The event decoder of the schema, if it has one.
    pub closed spec fn log_decoder(&self) -> Option<D> {
        self.log_decoder
    }

    /// Makes a schema of the given column names and decoder.
    pub fn new(columns: Vec<String>, log_decoder: Option<D>) -> (table: Table<D>)
        ensures
            table@ == column_names(columns@),
            table.log_decoder() == log_decoder,
    {
        Table { columns, log_decoder }
    }

    /// Whether a column was requested.
    pub fn has_column(&self, column: &str) -> (requested: bool)
        ensures
            requested == self@.contains(column@),
    {
        let name = column.to_owned();
        let mut i: usize = 0;
        while i < self.columns.len()
            invariant
                i <= self.columns.len(),
                name@ == column@,
                forall|j: int| 0 <= j < i ==> self.columns[j]@ != column@,
            decreases self.columns.len() - i,
        {
            if self.columns[i] == name {
                return true;
            }
            i += 1;
        }
        false
    }

    /// The decoder of the schema, if it has one.
    pub fn decoder(&self) -> (decoder: Option<&D>)
        ensures
            match decoder {
                Some(d) => self.log_decoder() == Some(*d),
                None => self.log_decoder() is None,
            },
    {
        self.log_decoder.as_ref()
    }
}

impl<D> View for Schemas<D> {
    type V = Map<Datatype, Table<D>>;

    closed spec fn view(&self) -> Map<Datatype, Table<D>> {
        bindings(self.tables@)
    }
}

impl<D> Schemas<D> {
    /// Makes an empty set of schemas.
    pub fn new() -> (schemas: Schemas<D>)
        ensures
            schemas@ == Map::<Datatype, Table<D>>::empty(),
    {
        Schemas { tables: Vec::new() }
    }

    /// Sets the schema of an entity type.
    pub fn insert(&mut self, datatype: Datatype, table: Table<D>)
        ensures
            final(self)@ == old(self)@.insert(datatype, table),
    {
        self.tables.push((datatype, table));
        assert(self.tables@.drop_last() == old(self).tables@);
    }

    /// The schema of an entity type, if one was set.
    pub fn get(&self, datatype: Datatype) -> (table: Option<&Table<D>>)
        ensures
            match table {
                Some(t) => self@.contains_key(datatype) && self@[datatype] == *t,
                None => !self@.contains_key(datatype),
            },
    {
        let mut i: usize = self.tables.len();
        while i > 0
            invariant
                i <= self.tables.len(),
                forall|j: int| i <= j < self.tables.len() ==> self.tables[j].0 != datatype,
            decreases i,
        {
            i -= 1;
            if self.tables[i].0 == datatype {
                proof {
                    lemma_bindings_skip(self.tables@, datatype, i + 1);
                    assert(self.tables@.take(i + 1).drop_last() == self.tables@.take(i as int));
                }
                return Some(&self.tables[i].1);
            }
        }
        proof {
            lemma_bindings_skip(self.tables@, datatype, 0);
        }
        None
    }
}

} // verus!
