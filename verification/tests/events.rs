use cryo_freeze::datasets::event_columns::{find_field, merge_events, merge_field};
use cryo_freeze::{process_logs, LogColumns, RawLog, Table, U256};
use ethers_core::abi::Token;

type Batch = Vec<(String, Vec<Token>)>;

fn uint(value: u64) -> Token {
    Token::Uint(ethers_core::types::U256::from(value))
}

fn field(name: &str, values: &[u64]) -> (String, Vec<Token>) {
    (name.to_string(), values.iter().map(|value| uint(*value)).collect())
}

fn identified_log(block_number: u64) -> RawLog {
    RawLog {
        block_number: Some(block_number),
        transaction_hash: Some([1; 32]),
        transaction_index: Some(0),
        log_index: Some(U256([0, 0, 0, 0])),
        topics: Vec::new(),
        address: [2; 20],
        data: Vec::new(),
    }
}

#[test]
fn successive_batches_extend_one_column() {
    let mut columns = LogColumns::default();
    columns.extend_events(vec![field("Transfer.value", &[1, 2])]);
    columns.extend_events(vec![field("Transfer.value", &[3, 4, 5])]);
    assert_eq!(columns.event_cols().len(), 1);
    assert_eq!(columns.event_cols()[0].0, "Transfer.value");
    assert_eq!(columns.event_cols()[0].1.len(), 2 + 3);
    assert_eq!(columns.event_cols()[0].1, vec![uint(1), uint(2), uint(3), uint(4), uint(5)]);
}

#[test]
fn decoder_of_the_schema_fills_the_dynamic_columns() {
    let schema = Table::new(
        vec!["block_number".to_string()],
        Some(|logs: Vec<RawLog>| -> Batch {
            vec![(
                "Transfer.value".to_string(),
                logs.iter().map(|log| uint(log.block_number.unwrap_or(0) * 10)).collect(),
            )]
        }),
    );
    let mut columns = LogColumns::default();
    process_logs(vec![identified_log(1), identified_log(2)], &mut columns, &schema);
    process_logs(vec![identified_log(3)], &mut columns, &schema);
    assert_eq!(columns.n_rows(), 3);
    assert_eq!(columns.block_number(), &vec![1u32, 2, 3]);
    assert_eq!(columns.event_cols().len(), 1);
    assert_eq!(columns.event_cols()[0].0, "Transfer.value");
    assert_eq!(columns.event_cols()[0].1, vec![uint(10), uint(20), uint(30)]);
}

#[test]
fn decoder_is_given_the_whole_batch() {
    let schema = Table::new(
        Vec::new(),
        Some(|logs: Vec<RawLog>| -> Batch { vec![field("seen", &[logs.len() as u64])] }),
    );
    let mut pending = identified_log(2);
    pending.block_number = None;
    let mut columns = LogColumns::default();
    process_logs(vec![identified_log(1), pending, identified_log(3)], &mut columns, &schema);
    assert_eq!(columns.n_rows(), 2);
    assert_eq!(columns.event_cols(), &vec![field("seen", &[3])]);
}

#[test]
fn decoder_may_return_nothing() {
    let schema = Table::new(Vec::new(), Some(|_logs: Vec<RawLog>| -> Batch { Vec::new() }));
    let mut columns = LogColumns::default();
    process_logs(vec![identified_log(1)], &mut columns, &schema);
    assert_eq!(columns.n_rows(), 1);
    assert!(columns.event_cols().is_empty());
}

#[test]
fn dynamic_columns_may_differ_in_length() {
    let mut columns = LogColumns::default();
    columns.extend_events(vec![field("Transfer.from", &[1]), field("Transfer.value", &[7, 8, 9])]);
    assert_eq!(columns.n_rows(), 0);
    assert_eq!(columns.event_cols()[0].1.len(), 1);
    assert_eq!(columns.event_cols()[1].1.len(), 3);
}

#[test]
fn fields_keep_the_order_in_which_they_were_first_seen() {
    let mut columns = LogColumns::default();
    columns.extend_events(vec![field("b", &[1]), field("a", &[2])]);
    columns.extend_events(vec![field("c", &[3]), field("a", &[4]), field("b", &[5])]);
    assert_eq!(
        columns.event_cols(),
        &vec![field("b", &[1, 5]), field("a", &[2, 4]), field("c", &[3])]
    );
}

#[test]
fn field_named_twice_in_one_batch_is_one_column() {
    let mut columns: Batch = Vec::new();
    merge_events(&mut columns, vec![field("x", &[1]), field("x", &[2, 3])]);
    assert_eq!(columns, vec![field("x", &[1, 2, 3])]);
}

#[test]
fn merge_field_extends_or_starts_a_column() {
    let mut columns: Batch = vec![field("x", &[1])];
    merge_field(&mut columns, "y".to_string(), vec![uint(2)]);
    merge_field(&mut columns, "x".to_string(), vec![uint(3)]);
    merge_field(&mut columns, "z".to_string(), Vec::new());
    assert_eq!(columns, vec![field("x", &[1, 3]), field("y", &[2]), field("z", &[])]);
}

#[test]
fn find_field_gives_the_place_of_a_column() {
    let columns: Batch = vec![field("x", &[1]), field("y", &[2])];
    assert_eq!(find_field(&columns, &"x".to_string()), Some(0));
    assert_eq!(find_field(&columns, &"y".to_string()), Some(1));
    assert_eq!(find_field(&columns, &"z".to_string()), None);
}

#[test]
fn other_kinds_of_values_are_carried_through() {
    let values = vec![
        Token::Bool(true),
        Token::String("name".to_string()),
        Token::Bytes(vec![1, 2]),
        Token::Array(vec![uint(1), Token::Bool(false)]),
    ];
    let mut columns = LogColumns::default();
    columns.extend_events(vec![("Mixed.field".to_string(), values.clone())]);
    assert_eq!(columns.event_cols()[0].1, values);
}
