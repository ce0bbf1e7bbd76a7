//! Event logs: the columns of the log table and how a batch of raw logs fills them.

use crate::datasets::event_columns::{event_view, merge_events, merged};
use crate::types::raw_log::{
    bytes_to_vec, copy_bytes, narrow_u64, optional_bytes, LogRow, RawLog, TOPIC_SLOTS, U256,
};
use crate::types::schemas::{ColumnType, Datatype, Schemas, Table};
use ethers_core::abi::Token;
use vstd::prelude::*;
use vstd::string::StringExecFns;

verus! {

/// The entity type of event logs.
#[derive(Clone, Copy, Debug)]
pub struct Logs;

/// The columns of the log table, filled batch by batch.
///
/// A fixed column grows only while the schema in use asks for it. The dynamic
/// columns hold decoded event fields, one column for each field name.
pub struct LogColumns {
    n_rows: u64,
    block_number: Vec<u32>,
    transaction_index: Vec<u32>,
    log_index: Vec<u32>,
    transaction_hash: Vec<Vec<u8>>,
    address: Vec<Vec<u8>>,
    topic0: Vec<Option<Vec<u8>>>,
    topic1: Vec<Option<Vec<u8>>>,
    topic2: Vec<Option<Vec<u8>>>,
    topic3: Vec<Option<Vec<u8>>>,
    data: Vec<Vec<u8>>,
    event_cols: Vec<(String, Vec<Token>)>,
}

/// What the columns hold, as mathematical sequences.
#[verifier::ext_equal]
pub struct LogColumnsView {
    pub n_rows: nat,
    pub block_number: Seq<u32>,
    pub transaction_index: Seq<u32>,
    pub log_index: Seq<u32>,
    pub transaction_hash: Seq<Seq<u8>>,
    pub address: Seq<Seq<u8>>,
    pub topic0: Seq<Option<Seq<u8>>>,
    pub topic1: Seq<Option<Seq<u8>>>,
    pub topic2: Seq<Option<Seq<u8>>>,
    pub topic3: Seq<Option<Seq<u8>>>,
    pub data: Seq<Seq<u8>>,
    pub event_cols: Seq<(Seq<char>, Seq<Token>)>,
}

/// The rows that a batch contributes: one for each identified log, in the order
/// of the batch.
pub open spec fn stored_rows(logs: Seq<RawLog>) -> Seq<LogRow> {
    logs.filter_map(|log: RawLog| log.row())
}

/// The logs of a batch that carry all four identifying fields, in the order of
/// the batch.
pub open spec fn identified_logs(logs: Seq<RawLog>) -> Seq<RawLog> {
    logs.filter(|log: RawLog| log.is_identified())
}

/// A column after values have arrived for it: it takes them only if it was requested.
pub open spec fn grown<T>(requested: bool, column: Seq<T>, values: Seq<T>) -> Seq<T> {
    if requested {
        column + values
    } else {
        column
    }
}

/// What a column of byte strings holds.
pub open spec fn binary_column(column: Seq<Vec<u8>>) -> Seq<Seq<u8>> {
    column.map_values(|bytes: Vec<u8>| bytes@)
}

/// What a column of optional byte strings holds.
pub open spec fn optional_binary_column(column: Seq<Option<Vec<u8>>>) -> Seq<Option<Seq<u8>>> {
    column.map_values(|bytes: Option<Vec<u8>>| optional_bytes(bytes))
}

impl LogColumnsView {
    /// The columns before anything was stored.
    pub open spec fn empty() -> LogColumnsView {
        LogColumnsView {
            n_rows: 0,
            block_number: Seq::empty(),
            transaction_index: Seq::empty(),
            log_index: Seq::empty(),
            transaction_hash: Seq::empty(),
            address: Seq::empty(),
            topic0: Seq::empty(),
            topic1: Seq::empty(),
            topic2: Seq::empty(),
            topic3: Seq::empty(),
            data: Seq::empty(),
            event_cols: Seq::empty(),
        }
    }

    /// The columns after rows were stored under a schema: every row counts, and
    /// each requested fixed column takes its value of every row.
    pub open spec fn with_rows(self, rows: Seq<LogRow>, schema: Set<Seq<char>>) -> LogColumnsView {
        LogColumnsView {
            n_rows: self.n_rows + rows.len(),
            block_number: grown(
                schema.contains("block_number"@),
                self.block_number,
                rows.map_values(|row: LogRow| row.block_number),
            ),
            transaction_index: grown(
                schema.contains("transaction_index"@),
                self.transaction_index,
                rows.map_values(|row: LogRow| row.transaction_index),
            ),
            log_index: grown(
                schema.contains("log_index"@),
                self.log_index,
                rows.map_values(|row: LogRow| row.log_index),
            ),
            transaction_hash: grown(
                schema.contains("transaction_hash"@),
                self.transaction_hash,
                rows.map_values(|row: LogRow| row.transaction_hash),
            ),
            address: grown(
                schema.contains("address"@),
                self.address,
                rows.map_values(|row: LogRow| row.address),
            ),
            topic0: grown(
                schema.contains("topic0"@),
                self.topic0,
                rows.map_values(|row: LogRow| row.topic0),
            ),
            topic1: grown(
                schema.contains("topic1"@),
                self.topic1,
                rows.map_values(|row: LogRow| row.topic1),
            ),
            topic2: grown(
                schema.contains("topic2"@),
                self.topic2,
                rows.map_values(|row: LogRow| row.topic2),
            ),
            topic3: grown(
                schema.contains("topic3"@),
                self.topic3,
                rows.map_values(|row: LogRow| row.topic3),
            ),
            data: grown(
                schema.contains("data"@),
                self.data,
                rows.map_values(|row: LogRow| row.data),
            ),
            event_cols: self.event_cols,
        }
    }

    /// The columns after a batch of raw logs was stored under a schema.
    pub open spec fn with_logs(self, logs: Seq<RawLog>, schema: Set<Seq<char>>) -> LogColumnsView {
        self.with_rows(stored_rows(logs), schema)
    }

    /// The columns after a batch of decoded event fields was merged in.
    pub open spec fn with_events(self, batch: Seq<(Seq<char>, Seq<Token>)>) -> LogColumnsView {
        LogColumnsView { event_cols: merged(self.event_cols, batch), ..self }
    }

    /// Whether every fixed column that the schema asks for has one entry for each row.
    pub open spec fn is_aligned(self, schema: Set<Seq<char>>) -> bool {
        &&& schema.contains("block_number"@) ==> self.block_number.len() == self.n_rows
        &&& schema.contains("transaction_index"@) ==> self.transaction_index.len() == self.n_rows
        &&& schema.contains("log_index"@) ==> self.log_index.len() == self.n_rows
        &&& schema.contains("transaction_hash"@) ==> self.transaction_hash.len() == self.n_rows
        &&& schema.contains("address"@) ==> self.address.len() == self.n_rows
        &&& schema.contains("topic0"@) ==> self.topic0.len() == self.n_rows
        &&& schema.contains("topic1"@) ==> self.topic1.len() == self.n_rows
        &&& schema.contains("topic2"@) ==> self.topic2.len() == self.n_rows
        &&& schema.contains("topic3"@) ==> self.topic3.len() == self.n_rows
        &&& schema.contains("data"@) ==> self.data.len() == self.n_rows
    }
}

/// Whether `after` is what the columns `before` come to when a batch of raw
/// logs is processed under a schema: the batch is stored, and where the schema
/// has a decoder, something that the decoder may return for the whole batch is
/// merged in.
pub open spec fn processed<D: Fn(Vec<RawLog>) -> Vec<(String, Vec<Token>)>>(
    before: LogColumnsView,
    logs: Vec<RawLog>,
    schema: Table<D>,
    after: LogColumnsView,
) -> bool {
    match schema.log_decoder() {
        Some(decoder) => exists|decoded: Vec<(String, Vec<Token>)>|
            #![trigger call_ensures(decoder, (logs,), decoded)]
            call_ensures(decoder, (logs,), decoded) && after == before.with_logs(
                logs@,
                schema@,
            ).with_events(event_view(decoded@)),
        None => after == before.with_logs(logs@, schema@),
    }
}

/// The name and the type of each column that the log table can have.
pub open spec fn log_column_types() -> Seq<(Seq<char>, ColumnType)> {
    seq![
        ("block_number"@, ColumnType::UInt32),
        ("transaction_index"@, ColumnType::UInt32),
        ("log_index"@, ColumnType::UInt32),
        ("transaction_hash"@, ColumnType::Binary),
        ("contract_address"@, ColumnType::Binary),
        ("topic0"@, ColumnType::Binary),
        ("topic1"@, ColumnType::Binary),
        ("topic2"@, ColumnType::Binary),
        ("topic3"@, ColumnType::Binary),
        ("data"@, ColumnType::Binary),
        ("chain_id"@, ColumnType::UInt64),
    ]
}

/// A list of column names with their types, the names as text.
pub open spec fn column_types_view(types: Seq<(&'static str, ColumnType)>) -> Seq<
    (Seq<char>, ColumnType),
> {
    types.map_values(|column: (&'static str, ColumnType)| (column.0@, column.1))
}

/// A list of names, as text.
pub open spec fn names_text(names: Seq<String>) -> Seq<Seq<char>> {
    names.map_values(|name: String| name@)
}

impl View for LogColumns {
    type V = LogColumnsView;

    closed spec fn view(&self) -> LogColumnsView {
        LogColumnsView {
            n_rows: self.n_rows as nat,
            block_number: self.block_number@,
            transaction_index: self.transaction_index@,
            log_index: self.log_index@,
            transaction_hash: binary_column(self.transaction_hash@),
            address: binary_column(self.address@),
            topic0: optional_binary_column(self.topic0@),
            topic1: optional_binary_column(self.topic1@),
            topic2: optional_binary_column(self.topic2@),
            topic3: optional_binary_column(self.topic3@),
            data: binary_column(self.data@),
            event_cols: event_view(self.event_cols@),
        }
    }
}

impl Default for LogColumns {
    /// Makes the columns of an empty table.
    fn default() -> (columns: LogColumns)
        ensures
            columns@ == LogColumnsView::empty(),
    {
        let columns = LogColumns {
            n_rows: 0,
            block_number: Vec::new(),
            transaction_index: Vec::new(),
            log_index: Vec::new(),
            transaction_hash: Vec::new(),
            address: Vec::new(),
            topic0: Vec::new(),
            topic1: Vec::new(),
            topic2: Vec::new(),
            topic3: Vec::new(),
            data: Vec::new(),
            event_cols: Vec::new(),
        };
        assert(columns@ =~= LogColumnsView::empty());
        columns
    }
}

/// Appends a number to a column, if the column was requested.
fn store_number(column: &mut Vec<u32>, requested: bool, value: u32)
    ensures
        final(column)@ == grown(requested, old(column)@, seq![value]),
{
    if requested {
        column.push(value);
        assert(column@ =~= old(column)@ + seq![value]);
    }
}

/// Appends a copy of a fixed-size byte string to a column, if the column was requested.
fn store_fixed_bytes<const N: usize>(column: &mut Vec<Vec<u8>>, requested: bool, value: &[u8; N])
    ensures
        binary_column(final(column)@) == grown(requested, binary_column(old(column)@), seq![value@]),
{
    if requested {
        column.push(bytes_to_vec(value));
        assert(binary_column(column@) =~= binary_column(old(column)@) + seq![value@]);
    }
}

/// Appends a copy of a byte string to a column, if the column was requested.
fn store_bytes(column: &mut Vec<Vec<u8>>, requested: bool, value: &Vec<u8>)
    ensures
        binary_column(final(column)@) == grown(requested, binary_column(old(column)@), seq![value@]),
{
    if requested {
        column.push(copy_bytes(value));
        assert(binary_column(column@) =~= binary_column(old(column)@) + seq![value@]);
    }
}

/// Appends a topic slot of a log to a column, if the column was requested: the
/// topic, or the mark of an absent one.
fn store_topic(column: &mut Vec<Option<Vec<u8>>>, requested: bool, log: &RawLog, slot: usize)
    requires
        slot < TOPIC_SLOTS,
    ensures
        optional_binary_column(final(column)@) == grown(
            requested,
            optional_binary_column(old(column)@),
            seq![log.topic_slot(slot as int)],
        ),
{
    if requested {
        let topic = log.topic(slot);
        column.push(topic);
        assert(optional_binary_column(column@) =~= optional_binary_column(old(column)@)
            + seq![log.topic_slot(slot as int)]);
    }
}

impl LogColumns {
    /// Stores one identified log as a row: counts it, and appends its value to
    /// each fixed column that the schema asks for.
    fn store_log<D>(&mut self, log: &RawLog, schema: &Table<D>)
        requires
            log.is_identified(),
            old(self)@.n_rows < u64::MAX,
        ensures
            final(self)@ == old(self)@.with_rows(seq![log.row()->0], schema@),
    {
        let block_number: u64 = log.block_number.unwrap();
        let transaction_hash: [u8; 32] = log.transaction_hash.unwrap();
        let transaction_index: u64 = log.transaction_index.unwrap();
        let log_index: U256 = log.log_index.unwrap();
        self.n_rows = self.n_rows + 1;
        store_number(
            &mut self.block_number,
            schema.has_column("block_number"),
            narrow_u64(block_number),
        );
        store_number(
            &mut self.transaction_index,
            schema.has_column("transaction_index"),
            narrow_u64(transaction_index),
        );
        store_number(&mut self.log_index, schema.has_column("log_index"), log_index.low_u32());
        store_fixed_bytes(
            &mut self.transaction_hash,
            schema.has_column("transaction_hash"),
            &transaction_hash,
        );
        store_fixed_bytes(&mut self.address, schema.has_column("address"), &log.address);
        store_bytes(&mut self.data, schema.has_column("data"), &log.data);
        store_topic(&mut self.topic0, schema.has_column("topic0"), log, 0);
        store_topic(&mut self.topic1, schema.has_column("topic1"), log, 1);
        store_topic(&mut self.topic2, schema.has_column("topic2"), log, 2);
        store_topic(&mut self.topic3, schema.has_column("topic3"), log, 3);
        assert(self@ =~= old(self)@.with_rows(seq![log.row()->0], schema@));
    }

    /// The number of rows stored.
    pub fn n_rows(&self) -> (n_rows: u64)
        ensures
            n_rows == self@.n_rows,
    {
        self.n_rows
    }

    /// The block number of each row.
    pub fn block_number(&self) -> (column: &Vec<u32>)
        ensures
            column@ == self@.block_number,
    {
        &self.block_number
    }

    /// The transaction index of each row.
    pub fn transaction_index(&self) -> (column: &Vec<u32>)
        ensures
            column@ == self@.transaction_index,
    {
        &self.transaction_index
    }

    /// The log index of each row.
    pub fn log_index(&self) -> (column: &Vec<u32>)
        ensures
            column@ == self@.log_index,
    {
        &self.log_index
    }

    /// The transaction hash of each row.
    pub fn transaction_hash(&self) -> (column: &Vec<Vec<u8>>)
        ensures
            binary_column(column@) == self@.transaction_hash,
    {
        &self.transaction_hash
    }

    /// The emitting address of each row.
    pub fn address(&self) -> (column: &Vec<Vec<u8>>)
        ensures
            binary_column(column@) == self@.address,
    {
        &self.address
    }

    /// The first topic slot of each row.
    pub fn topic0(&self) -> (column: &Vec<Option<Vec<u8>>>)
        ensures
            optional_binary_column(column@) == self@.topic0,
    {
        &self.topic0
    }

    /// The second topic slot of each row.
    pub fn topic1(&self) -> (column: &Vec<Option<Vec<u8>>>)
        ensures
            optional_binary_column(column@) == self@.topic1,
    {
        &self.topic1
    }

    /// The third topic slot of each row.
    pub fn topic2(&self) -> (column: &Vec<Option<Vec<u8>>>)
        ensures
            optional_binary_column(column@) == self@.topic2,
    {
        &self.topic2
    }

    /// The fourth topic slot of each row.
    pub fn topic3(&self) -> (column: &Vec<Option<Vec<u8>>>)
        ensures
            optional_binary_column(column@) == self@.topic3,
    {
        &self.topic3
    }

    /// The payload of each row.
    pub fn data(&self) -> (column: &Vec<Vec<u8>>)
        ensures
            binary_column(column@) == self@.data,
    {
        &self.data
    }

    /// The dynamic columns: each decoded event field with its values, in the
    /// order in which the fields were first seen.
    pub fn event_cols(&self) -> (columns: &Vec<(String, Vec<Token>)>)
        ensures
            event_view(columns@) == self@.event_cols,
    {
        &self.event_cols
    }

    /// Merges a batch of decoded event fields into the dynamic columns: the
    /// values of a field extend the column of that field, and a field seen for
    /// the first time starts a new last column.
    pub fn extend_events(&mut self, decoded: Vec<(String, Vec<Token>)>)
        ensures
            final(self)@ == old(self)@.with_events(event_view(decoded@)),
    {
        merge_events(&mut self.event_cols, decoded);
    }
}

/// Storing rows in two steps is storing them all at once.
pub proof fn lemma_with_rows_twice(
    columns: LogColumnsView,
    first: Seq<LogRow>,
    second: Seq<LogRow>,
    schema: Set<Seq<char>>,
)
    ensures
        columns.with_rows(first, schema).with_rows(second, schema) == columns.with_rows(
            first + second,
            schema,
        ),
{
    assert(columns.with_rows(first, schema).with_rows(second, schema) =~= columns.with_rows(
        first + second,
        schema,
    ));
}

/// Storing no rows changes nothing.
pub proof fn lemma_with_no_rows(columns: LogColumnsView, schema: Set<Seq<char>>)
    ensures
        columns.with_rows(Seq::empty(), schema) == columns,
{
    assert(columns.with_rows(Seq::empty(), schema) =~= columns);
}

/// A batch contributes at most one row for each of its logs.
pub proof fn lemma_stored_rows_at_most_logs(logs: Seq<RawLog>)
    ensures
        stored_rows(logs).len() <= logs.len(),
    decreases logs.len(),
{
    if logs.len() > 0 {
        lemma_stored_rows_at_most_logs(logs.drop_last());
    }
}

/// The first logs of a batch contribute no more rows than the whole batch.
pub proof fn lemma_stored_rows_of_prefix(logs: Seq<RawLog>, count: int)
    requires
        0 <= count <= logs.len(),
    ensures
        stored_rows(logs.take(count)).len() <= stored_rows(logs).len(),
    decreases logs.len(),
{
    if count == logs.len() {
        assert(logs.take(count) == logs);
    } else {
        lemma_stored_rows_of_prefix(logs.drop_last(), count);
        assert(logs.drop_last().take(count) == logs.take(count));
    }
}

/// Stores a batch of raw logs in the columns.
///
/// Each log that carries its four identifying fields becomes one row; the
/// others are passed over. Where the schema has a decoder, the whole batch then
/// goes to it, and what it returns is merged into the dynamic columns.
pub fn process_logs<D>(logs: Vec<RawLog>, columns: &mut LogColumns, schema: &Table<D>) where
    D: Fn(Vec<RawLog>) -> Vec<(String, Vec<Token>)>,

    requires
        old(columns)@.n_rows + stored_rows(logs@).len() <= u64::MAX,
        schema.log_decoder() matches Some(decoder) ==> call_requires(decoder, (logs,)),
    ensures
        processed(old(columns)@, logs, *schema, final(columns)@),
        old(columns)@.is_aligned(schema@) ==> final(columns)@.is_aligned(schema@),
{
    let ghost before = columns@;
    let mut i: usize = 0;
    proof {
        assert(logs@.take(0) == Seq::<RawLog>::empty());
        lemma_with_no_rows(before, schema@);
    }
    while i < logs.len()
        invariant
            i <= logs.len(),
            before.n_rows + stored_rows(logs@).len() <= u64::MAX,
            columns@ == before.with_logs(logs@.take(i as int), schema@),
        decreases logs.len() - i,
    {
        let log = &logs[i];
        proof {
            logs@.lemma_filter_map_take_succ(|log: RawLog| log.row(), i as int);
            lemma_stored_rows_of_prefix(logs@, i + 1);
        }
        if log.has_identity() {
            columns.store_log(log, schema);
            proof {
                lemma_with_rows_twice(
                    before,
                    stored_rows(logs@.take(i as int)),
                    seq![log.row()->0],
                    schema@,
                );
            }
        }
        i += 1;
    }
    proof {
        assert(logs@.take(logs@.len() as int) == logs@);
    }
    match schema.decoder() {
        Some(decoder) => {
            let decoded = decoder(logs);
            let ghost arrived = decoded;
            columns.extend_events(decoded);
            assert(call_ensures(*decoder, (logs,), arrived));
        },
        None => {},
    }
}

impl Logs {
    /// The entity type that this is.
    pub fn datatype(&self) -> (datatype: Datatype)
        ensures
            datatype == Datatype::Logs,
    {
        Datatype::Logs
    }

    /// The name of the entity type, as used in messages and file names.
    pub fn name(&self) -> (name: &'static str)
        ensures
            name@ == "logs"@,
    {
        "logs"
    }

    /// The columns that the log table can have, each with its type.
    pub fn column_types(&self) -> (types: Vec<(&'static str, ColumnType)>)
        ensures
            column_types_view(types@) == log_column_types(),
    {
        let mut types: Vec<(&'static str, ColumnType)> = Vec::with_capacity(11);
        types.push(("block_number", ColumnType::UInt32));
        types.push(("transaction_index", ColumnType::UInt32));
        types.push(("log_index", ColumnType::UInt32));
        types.push(("transaction_hash", ColumnType::Binary));
        types.push(("contract_address", ColumnType::Binary));
        types.push(("topic0", ColumnType::Binary));
        types.push(("topic1", ColumnType::Binary));
        types.push(("topic2", ColumnType::Binary));
        types.push(("topic3", ColumnType::Binary));
        types.push(("data", ColumnType::Binary));
        types.push(("chain_id", ColumnType::UInt64));
        assert(column_types_view(types@) =~= log_column_types());
        types
    }

    /// The columns by which the log table is sorted unless the caller says otherwise.
    pub fn default_sort(&self) -> (columns: Vec<String>)
        ensures
            names_text(columns@) == seq!["block_number"@, "log_index"@],
    {
        let mut columns: Vec<String> = Vec::with_capacity(2);
        columns.push(String::from_str("block_number"));
        columns.push(String::from_str("log_index"));
        assert(names_text(columns@) =~= seq!["block_number"@, "log_index"@]);
        columns
    }

    /// Stores a batch of raw logs in the columns, under the schema for logs.
    /// This is the one transform step, whichever way the batch was fetched.
    pub fn transform<D>(response: Vec<RawLog>, columns: &mut LogColumns, schemas: &Schemas<D>) where
        D: Fn(Vec<RawLog>) -> Vec<(String, Vec<Token>)>,

        requires
            schemas@.contains_key(Datatype::Logs),
            old(columns)@.n_rows + stored_rows(response@).len() <= u64::MAX,
            schemas@[Datatype::Logs].log_decoder() matches Some(decoder) ==> call_requires(
                decoder,
                (response,),
            ),
        ensures
            processed(old(columns)@, response, schemas@[Datatype::Logs], final(columns)@),
            old(columns)@.is_aligned(schemas@[Datatype::Logs]@) ==> final(columns)@.is_aligned(
                schemas@[Datatype::Logs]@,
            ),
    {
        match schemas.get(Datatype::Logs) {
            Some(schema) => process_logs(response, columns, schema),
            None => {},
        }
    }
}

/// The rows of two batches in a row are the rows of the first, then those of
/// the second.
pub proof fn lemma_stored_rows_of_batches(first: Seq<RawLog>, second: Seq<RawLog>)
    ensures
        stored_rows(first + second) == stored_rows(first) + stored_rows(second),
    decreases second.len(),
{
    if second.len() == 0 {
        assert(first + second == first);
        assert(stored_rows(first) + stored_rows(second) == stored_rows(first));
    } else {
        lemma_stored_rows_of_batches(first, second.drop_last());
        assert((first + second).drop_last() == first + second.drop_last());
        assert((first + second).last() == second.last());
        match second.last().row() {
            Some(row) => {
                assert(stored_rows(first + second) == stored_rows(first) + stored_rows(
                    second.drop_last(),
                ) + seq![row]);
                assert(stored_rows(first) + stored_rows(second.drop_last()) + seq![row]
                    == stored_rows(first) + (stored_rows(second.drop_last()) + seq![row]));
            },
            None => {},
        }
    }
}

/// The rows of a batch of one log: its row, if it has one.
pub proof fn lemma_stored_rows_of_one(log: RawLog)
    ensures
        stored_rows(seq![log]) == match log.row() {
            Some(row) => seq![row],
            None => Seq::empty(),
        },
{
    Seq::lemma_filter_map_singleton(log, |log: RawLog| log.row());
}

/// Processing two batches one after the other stores what processing them as
/// one batch stores.
pub proof fn lemma_batches_in_succession(
    columns: LogColumnsView,
    first: Seq<RawLog>,
    second: Seq<RawLog>,
    schema: Set<Seq<char>>,
)
    ensures
        columns.with_logs(first, schema).with_logs(second, schema) == columns.with_logs(
            first + second,
            schema,
        ),
{
    lemma_stored_rows_of_batches(first, second);
    lemma_with_rows_twice(columns, stored_rows(first), stored_rows(second), schema);
}

/// A log that lacks one of its four identifying fields contributes nothing:
/// the batch stores what it would store without that log, so no row is
/// counted for the log and no column gets an entry for it.
pub proof fn lemma_unidentified_log_is_passed_over(
    columns: LogColumnsView,
    logs: Seq<RawLog>,
    position: int,
    schema: Set<Seq<char>>,
)
    requires
        0 <= position < logs.len(),
        !logs[position].is_identified(),
    ensures
        stored_rows(logs) == stored_rows(logs.remove(position)),
        columns.with_logs(logs, schema) == columns.with_logs(logs.remove(position), schema),
        columns.with_logs(seq![logs[position]], schema) == columns,
{
    let head = logs.take(position);
    let tail = logs.skip(position + 1);
    let log = logs[position];
    assert(logs == head + seq![log] + tail);
    assert(logs.remove(position) == head + tail);
    lemma_stored_rows_of_one(log);
    lemma_stored_rows_of_batches(head, seq![log]);
    lemma_stored_rows_of_batches(head + seq![log], tail);
    lemma_stored_rows_of_batches(head, tail);
    assert(stored_rows(head) + Seq::<LogRow>::empty() == stored_rows(head));
    lemma_with_no_rows(columns, schema);
}

/// A batch contributes one row for each log that carries all four identifying
/// fields and none for any other: the row counter grows by the number of such
/// logs, and the rows are theirs, in the order of the batch.
pub proof fn lemma_one_row_for_each_identified_log(
    columns: LogColumnsView,
    logs: Seq<RawLog>,
    schema: Set<Seq<char>>,
)
    ensures
        stored_rows(logs) == identified_logs(logs).map_values(|log: RawLog| log.row()->0),
        stored_rows(logs).len() == identified_logs(logs).len(),
        columns.with_logs(logs, schema).n_rows == columns.n_rows + identified_logs(logs).len(),
    decreases logs.len(),
{
    reveal(Seq::filter);
    let row_of = |log: RawLog| log.row()->0;
    if logs.len() == 0 {
        assert(stored_rows(logs) =~= identified_logs(logs).map_values(row_of));
    } else {
        let earlier = logs.drop_last();
        lemma_one_row_for_each_identified_log(columns, earlier, schema);
        if logs.last().is_identified() {
            assert(identified_logs(logs) == identified_logs(earlier).push(logs.last()));
            assert(stored_rows(logs) == stored_rows(earlier) + seq![row_of(logs.last())]);
        } else {
            assert(identified_logs(logs) == identified_logs(earlier));
        }
        assert(stored_rows(logs) =~= identified_logs(logs).map_values(row_of));
    }
}

/// Every fixed column that the schema asks for takes one entry for each row of
/// a batch.
pub proof fn lemma_requested_columns_take_every_row(
    columns: LogColumnsView,
    logs: Seq<RawLog>,
    schema: Set<Seq<char>>,
)
    ensures
        ({
            let after = columns.with_logs(logs, schema);
            let rows = stored_rows(logs).len();
            &&& after.n_rows == columns.n_rows + rows
            &&& schema.contains("block_number"@) ==> after.block_number.len()
                == columns.block_number.len() + rows
            &&& schema.contains("transaction_index"@) ==> after.transaction_index.len()
                == columns.transaction_index.len() + rows
            &&& schema.contains("log_index"@) ==> after.log_index.len() == columns.log_index.len()
                + rows
            &&& schema.contains("transaction_hash"@) ==> after.transaction_hash.len()
                == columns.transaction_hash.len() + rows
            &&& schema.contains("address"@) ==> after.address.len() == columns.address.len() + rows
            &&& schema.contains("topic0"@) ==> after.topic0.len() == columns.topic0.len() + rows
            &&& schema.contains("topic1"@) ==> after.topic1.len() == columns.topic1.len() + rows
            &&& schema.contains("topic2"@) ==> after.topic2.len() == columns.topic2.len() + rows
            &&& schema.contains("topic3"@) ==> after.topic3.len() == columns.topic3.len() + rows
            &&& schema.contains("data"@) ==> after.data.len() == columns.data.len() + rows
        }),
{
}

/// Every fixed column that the schema asks for keeps one entry for each row:
/// columns that are aligned before a batch are aligned after it.
pub proof fn lemma_fixed_columns_stay_aligned(
    columns: LogColumnsView,
    logs: Seq<RawLog>,
    schema: Set<Seq<char>>,
)
    requires
        columns.is_aligned(schema),
    ensures
        columns.with_logs(logs, schema).is_aligned(schema),
{
}

/// Empty columns are aligned under every schema, and so are the columns that a
/// batch makes of them.
pub proof fn lemma_fresh_columns_are_aligned(logs: Seq<RawLog>, schema: Set<Seq<char>>)
    ensures
        LogColumnsView::empty().is_aligned(schema),
        LogColumnsView::empty().with_logs(logs, schema).is_aligned(schema),
{
}

/// A log with `k` topics fills the first `k` topic slots, up to four, with its
/// topics in order, and leaves the other slots absent.
pub proof fn lemma_topics_fill_first_slots(log: RawLog)
    ensures
        forall|slot: int|
            0 <= slot < 4 ==> #[trigger] log.topic_slot(slot) == if slot < log.topics@.len() {
                Some(log.topics@[slot]@)
            } else {
                None::<Seq<u8>>
            },
        log.row() matches Some(row) ==> {
            &&& row.topic0 == log.topic_slot(0)
            &&& row.topic1 == log.topic_slot(1)
            &&& row.topic2 == log.topic_slot(2)
            &&& row.topic3 == log.topic_slot(3)
        },
{
}

/// Topics beyond the fourth are ignored: a log stores what the same log with
/// only its first four topics stores, alone and in any batch.
pub proof fn lemma_extra_topics_are_ignored(
    columns: LogColumnsView,
    logs: Seq<RawLog>,
    position: int,
    shortened: RawLog,
    schema: Set<Seq<char>>,
)
    requires
        0 <= position < logs.len(),
        logs[position].topics@.len() >= 4,
        shortened.topics@ == logs[position].topics@.take(4),
        shortened.block_number == logs[position].block_number,
        shortened.transaction_hash == logs[position].transaction_hash,
        shortened.transaction_index == logs[position].transaction_index,
        shortened.log_index == logs[position].log_index,
        shortened.address == logs[position].address,
        shortened.data == logs[position].data,
    ensures
        shortened.row() == logs[position].row(),
        columns.with_logs(logs.update(position, shortened), schema) == columns.with_logs(
            logs,
            schema,
        ),
{
    let head = logs.take(position);
    let tail = logs.skip(position + 1);
    let log = logs[position];
    assert(logs == head + seq![log] + tail);
    assert(logs.update(position, shortened) == head + seq![shortened] + tail);
    lemma_stored_rows_of_one(log);
    lemma_stored_rows_of_one(shortened);
    lemma_stored_rows_of_batches(head, seq![log]);
    lemma_stored_rows_of_batches(head + seq![log], tail);
    lemma_stored_rows_of_batches(head, seq![shortened]);
    lemma_stored_rows_of_batches(head + seq![shortened], tail);
}

/// A fixed column that the schema does not ask for is left as it was.
pub proof fn lemma_unrequested_columns_are_untouched(
    columns: LogColumnsView,
    logs: Seq<RawLog>,
    schema: Set<Seq<char>>,
)
    ensures
        ({
            let after = columns.with_logs(logs, schema);
            &&& !schema.contains("block_number"@) ==> after.block_number == columns.block_number
            &&& !schema.contains("transaction_index"@) ==> after.transaction_index
                == columns.transaction_index
            &&& !schema.contains("log_index"@) ==> after.log_index == columns.log_index
            &&& !schema.contains("transaction_hash"@) ==> after.transaction_hash
                == columns.transaction_hash
            &&& !schema.contains("address"@) ==> after.address == columns.address
            &&& !schema.contains("topic0"@) ==> after.topic0 == columns.topic0
            &&& !schema.contains("topic1"@) ==> after.topic1 == columns.topic1
            &&& !schema.contains("topic2"@) ==> after.topic2 == columns.topic2
            &&& !schema.contains("topic3"@) ==> after.topic3 == columns.topic3
            &&& !schema.contains("data"@) ==> after.data == columns.data
            &&& after.event_cols == columns.event_cols
        }),
{
}

/// No column of the log table is listed twice.
pub proof fn lemma_column_names_are_distinct()
    ensures
        forall|i: int, j: int|
            0 <= i < j < log_column_types().len() ==> log_column_types()[i].0
                != log_column_types()[j].0,
{
    reveal_strlit("block_number");
    reveal_strlit("transaction_index");
    reveal_strlit("log_index");
    reveal_strlit("transaction_hash");
    reveal_strlit("contract_address");
    reveal_strlit("topic0");
    reveal_strlit("topic1");
    reveal_strlit("topic2");
    reveal_strlit("topic3");
    reveal_strlit("data");
    reveal_strlit("chain_id");
    let names = log_column_types();
    assert(names[0].0.len() == 12);
    assert(names[1].0.len() == 17);
    assert(names[2].0.len() == 9);
    assert(names[3].0.len() == 16 && names[3].0[0] == 't');
    assert(names[4].0.len() == 16 && names[4].0[0] == 'c');
    assert(names[5].0.len() == 6 && names[5].0[5] == '0');
    assert(names[6].0.len() == 6 && names[6].0[5] == '1');
    assert(names[7].0.len() == 6 && names[7].0[5] == '2');
    assert(names[8].0.len() == 6 && names[8].0[5] == '3');
    assert(names[9].0.len() == 4);
    assert(names[10].0.len() == 8);
}

} // verus!
