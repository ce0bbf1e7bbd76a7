use cryo_freeze::{ColumnType, Datatype, LogColumns, Logs, RawLog, Schemas, Table, U256};
use ethers_core::abi::Token;

type Plain = fn(Vec<RawLog>) -> Vec<(String, Vec<Token>)>;

fn table_of(names: &[&str]) -> Table<Plain> {
    Table::new(names.iter().map(|name| name.to_string()).collect(), None)
}

fn sample_log(block_number: u64) -> RawLog {
    RawLog {
        block_number: Some(block_number),
        transaction_hash: Some([7; 32]),
        transaction_index: Some(1),
        log_index: Some(U256([4, 0, 0, 0])),
        topics: vec![[9; 32]],
        address: [8; 20],
        data: vec![0xff],
    }
}

#[test]
fn logs_names_itself() {
    assert_eq!(Logs.name(), "logs");
    assert_eq!(Logs.datatype(), Datatype::Logs);
}

#[test]
fn logs_column_types() {
    assert_eq!(
        Logs.column_types(),
        vec![
            ("block_number", ColumnType::UInt32),
            ("transaction_index", ColumnType::UInt32),
            ("log_index", ColumnType::UInt32),
            ("transaction_hash", ColumnType::Binary),
            ("contract_address", ColumnType::Binary),
            ("topic0", ColumnType::Binary),
            ("topic1", ColumnType::Binary),
            ("topic2", ColumnType::Binary),
            ("topic3", ColumnType::Binary),
            ("data", ColumnType::Binary),
            ("chain_id", ColumnType::UInt64),
        ]
    );
}

#[test]
fn logs_column_names_are_distinct() {
    let types = Logs.column_types();
    for (i, (name, _)) in types.iter().enumerate() {
        for (other, _) in types.iter().skip(i + 1) {
            assert_ne!(name, other);
        }
    }
}

#[test]
fn logs_default_sort() {
    assert_eq!(Logs.default_sort(), vec!["block_number".to_string(), "log_index".to_string()]);
}

#[test]
fn schemas_get_what_was_inserted() {
    let mut schemas: Schemas<Plain> = Schemas::new();
    assert!(schemas.get(Datatype::Logs).is_none());
    schemas.insert(Datatype::Logs, table_of(&["data"]));
    schemas.insert(Datatype::Blocks, table_of(&["block_number"]));
    assert!(schemas.get(Datatype::Logs).unwrap().has_column("data"));
    assert!(!schemas.get(Datatype::Logs).unwrap().has_column("block_number"));
    assert!(schemas.get(Datatype::Blocks).unwrap().has_column("block_number"));
    assert!(schemas.get(Datatype::Traces).is_none());
}

#[test]
fn schemas_later_entry_replaces_earlier() {
    let mut schemas: Schemas<Plain> = Schemas::new();
    schemas.insert(Datatype::Logs, table_of(&["data"]));
    schemas.insert(Datatype::Logs, table_of(&["topic0"]));
    let table = schemas.get(Datatype::Logs).unwrap();
    assert!(table.has_column("topic0"));
    assert!(!table.has_column("data"));
}

#[test]
fn transform_uses_the_schema_for_logs() {
    let mut schemas: Schemas<Plain> = Schemas::new();
    schemas.insert(Datatype::Blocks, table_of(&["block_number"]));
    schemas.insert(Datatype::Logs, table_of(&["log_index", "topic0"]));
    let mut columns = LogColumns::default();
    Logs::transform(vec![sample_log(1), sample_log(2)], &mut columns, &schemas);
    assert_eq!(columns.n_rows(), 2);
    assert!(columns.block_number().is_empty());
    assert_eq!(columns.log_index(), &vec![4u32, 4]);
    assert_eq!(columns.topic0(), &vec![Some(vec![9u8; 32]), Some(vec![9u8; 32])]);
}

#[test]
fn transform_is_the_same_for_every_way_of_fetching() {
    let mut schemas: Schemas<Plain> = Schemas::new();
    schemas.insert(Datatype::Logs, table_of(&["block_number", "data"]));
    let mut by_block = LogColumns::default();
    Logs::transform(vec![sample_log(5)], &mut by_block, &schemas);
    let mut by_transaction = LogColumns::default();
    Logs::transform(vec![sample_log(5)], &mut by_transaction, &schemas);
    assert_eq!(by_block.n_rows(), by_transaction.n_rows());
    assert_eq!(by_block.block_number(), by_transaction.block_number());
    assert_eq!(by_block.data(), by_transaction.data());
}
