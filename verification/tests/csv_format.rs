use ypbank::error::BankFormatError;
use ypbank::{BankFormat, CsvFormat, Status, Transaction, TxType};

fn expected_transaction() -> Transaction {
    Transaction {
        tx_id: 1,
        tx_type: TxType::Deposit,
        from_user_id: 0,
        to_user_id: 42,
        amount: 1000,
        timestamp: 1234567890,
        status: Status::Success,
        description: "test".to_string(),
    }
}

fn make_valid_csv() -> String {
    "tx_id,tx_type,from_user_id,to_user_id,amount,timestamp,status,description\n\
     1,DEPOSIT,0,42,1000,1234567890,SUCCESS,test\n"
        .to_string()
}

#[test]
fn csv_format_test_read_all_valid_record() {
    let input = make_valid_csv();
    match CsvFormat::read_all(input.as_bytes()) {
        Ok(transactions) => {
            assert_eq!(transactions.len(), 1);
            assert_eq!(transactions[0], expected_transaction());
        }
        Err(e) => panic!("expected Ok, got error: {}", e.to_text()),
    }
}

#[test]
fn csv_format_test_roundtrip() {
    let original = vec![expected_transaction()];
    let mut buf = Vec::new();
    CsvFormat::write_all(&mut buf, &original).unwrap();

    match CsvFormat::read_all(&buf) {
        Ok(transactions) => assert_eq!(transactions, original),
        Err(e) => panic!("expected Ok, got error: {}", e.to_text()),
    }
}

#[test]
fn test_read_all_multiple_records() {
    let csv = "tx_id,tx_type,from_user_id,to_user_id,amount,timestamp,status,description\n\
               1,DEPOSIT,0,42,1000,1234567890,SUCCESS,first\n\
               2,TRANSFER,10,20,500,1234567891,PENDING,second\n\
               3,WITHDRAWAL,99,0,250,1234567892,FAILURE,third\n";

    match CsvFormat::read_all(csv.as_bytes()) {
        Ok(transactions) => assert_eq!(transactions.len(), 3),
        Err(e) => panic!("expected Ok, got error: {}", e.to_text()),
    }
}

#[test]
fn csv_format_test_invalid_parse_cases() {
    let cases: Vec<(&str, &str)> = vec![
        // invalid tx_type
        (
            "tx_id,tx_type,from_user_id,to_user_id,amount,timestamp,status,description\n\
             1,INVALID,0,42,1000,1234567890,SUCCESS,test\n",
            "unknown tx_type",
        ),
        // invalid status
        (
            "tx_id,tx_type,from_user_id,to_user_id,amount,timestamp,status,description\n\
             1,DEPOSIT,0,42,1000,1234567890,INVALID,test\n",
            "unknown status",
        ),
        // invalid tx_id
        (
            "tx_id,tx_type,from_user_id,to_user_id,amount,timestamp,status,description\n\
             abc,DEPOSIT,0,42,1000,1234567890,SUCCESS,test\n",
            "tx_id",
        ),
        // invalid amount
        (
            "tx_id,tx_type,from_user_id,to_user_id,amount,timestamp,status,description\n\
             1,DEPOSIT,0,42,notanumber,1234567890,SUCCESS,test\n",
            "amount",
        ),
    ];

    for (bad_csv, expected_msg) in cases {
        match CsvFormat::read_all(bad_csv.as_bytes()) {
            Err(BankFormatError::Parse(msg)) => {
                assert!(msg.contains(expected_msg), "got: {}", msg);
            }
            other => panic!("expected Parse error, got {:?}", other),
        }
    }
}

#[test]
fn csv_writes_header_and_row() {
    let mut buf = Vec::new();
    CsvFormat::write_all(&mut buf, &[expected_transaction()]).unwrap();
    assert_eq!(
        String::from_utf8(buf.clone()).unwrap(),
        "id,kind,fromAccount,toAccount,amount,timestamp,status,description\n\
         1,DEPOSIT,0,42,1000,1234567890,SUCCESS,test\n"
    );
    assert_eq!(CsvFormat::read_all(&buf).unwrap(), vec![expected_transaction()]);
}

#[test]
fn csv_empty_list_is_header_only() {
    let mut buf = Vec::new();
    CsvFormat::write_all(&mut buf, &[]).unwrap();
    assert_eq!(
        String::from_utf8(buf.clone()).unwrap(),
        "id,kind,fromAccount,toAccount,amount,timestamp,status,description\n"
    );
    assert_eq!(CsvFormat::read_all(&buf).unwrap(), vec![]);
    assert_eq!(CsvFormat::read_all(b"").unwrap(), vec![]);
}

#[test]
fn csv_write_appends_to_sink() {
    let mut buf = b"xy".to_vec();
    CsvFormat::write_all(&mut buf, &[]).unwrap();
    assert_eq!(
        String::from_utf8(buf).unwrap(),
        "xyid,kind,fromAccount,toAccount,amount,timestamp,status,description\n"
    );
}

#[test]
fn csv_description_with_delimiter_and_quote_round_trips() {
    let mut tx = expected_transaction();
    tx.description = "rent, \"May\"\nsecond line".to_string();
    tx.amount = -5;
    tx.from_user_id = i64::MIN;
    tx.to_user_id = i64::MAX;
    tx.tx_id = u64::MAX;
    let records = vec![tx, expected_transaction()];
    let mut buf = Vec::new();
    CsvFormat::write_all(&mut buf, &records).unwrap();
    assert_eq!(CsvFormat::read_all(&buf).unwrap(), records);
}

#[test]
fn csv_first_row_is_never_data() {
    let csv = "1,DEPOSIT,0,42,1000,1234567890,SUCCESS,test\n\
               2,TRANSFER,10,20,500,1234567891,PENDING,second\n";
    let transactions = CsvFormat::read_all(csv.as_bytes()).unwrap();
    assert_eq!(transactions.len(), 1);
    assert_eq!(transactions[0].tx_id, 2);
}

#[test]
fn csv_row_with_wrong_column_count_is_refused() {
    let short = "a,b,c\n1,DEPOSIT,0\n";
    match CsvFormat::read_all(short.as_bytes()) {
        Err(BankFormatError::Parse(msg)) => assert_eq!(msg, "expected 8 fields, found 3"),
        other => panic!("expected Parse error, got {:?}", other),
    }
    let long = "a,b,c,d,e,f,g,h,i\n1,DEPOSIT,0,42,1000,1234567890,SUCCESS,test,extra\n";
    match CsvFormat::read_all(long.as_bytes()) {
        Err(BankFormatError::Parse(msg)) => assert_eq!(msg, "expected 8 fields, found 9"),
        other => panic!("expected Parse error, got {:?}", other),
    }
    let uneven = "tx_id,tx_type,from_user_id,to_user_id,amount,timestamp,status,description\n\
                  1,DEPOSIT,0,42\n";
    match CsvFormat::read_all(uneven.as_bytes()) {
        Err(BankFormatError::Parse(msg)) => assert!(msg.contains("found record with 4 fields"), "got: {}", msg),
        other => panic!("expected Parse error, got {:?}", other),
    }
}

#[test]
fn csv_bad_row_comes_before_reader_refusal() {
    let csv = "tx_id,tx_type,from_user_id,to_user_id,amount,timestamp,status,description\n\
               x,DEPOSIT,0,42,1000,1234567890,SUCCESS,test\n\
               1,DEPOSIT,0,42\n";
    match CsvFormat::read_all(csv.as_bytes()) {
        Err(BankFormatError::Parse(msg)) => assert_eq!(msg, "tx_id"),
        other => panic!("expected Parse error, got {:?}", other),
    }
}

#[test]
fn csv_exact_error_messages() {
    let head = "tx_id,tx_type,from_user_id,to_user_id,amount,timestamp,status,description\n";
    let cases: Vec<(&str, &str)> = vec![
        ("-1,DEPOSIT,0,42,1000,1234567890,SUCCESS,test\n", "tx_id"),
        ("1,deposit,0,42,1000,1234567890,SUCCESS,test\n", "unknown tx_type: deposit"),
        ("1,DEPOSIT,0x,42,1000,1234567890,SUCCESS,test\n", "from_user_id"),
        ("1,DEPOSIT,0,,1000,1234567890,SUCCESS,test\n", "to_user_id"),
        ("1,DEPOSIT,0,42,9223372036854775808,1234567890,SUCCESS,test\n", "amount"),
        ("1,DEPOSIT,0,42,1000, 1,SUCCESS,test\n", "timestamp"),
        ("1,DEPOSIT,0,42,1000,1234567890,Success,test\n", "unknown status: Success"),
    ];
    for (row, expected) in cases {
        let input = format!("{}{}", head, row);
        match CsvFormat::read_all(input.as_bytes()) {
            Err(BankFormatError::Parse(msg)) => assert_eq!(msg, expected),
            other => panic!("expected Parse error, got {:?}", other),
        }
    }
}

#[test]
fn csv_parse_row_reads_signs_and_limits() {
    let row: Vec<String> = vec![
        "+18446744073709551615",
        "WITHDRAWAL",
        "-9223372036854775808",
        "+9223372036854775807",
        "-0",
        "007",
        "PENDING",
        "",
    ]
    .into_iter()
    .map(|s| s.to_string())
    .collect();
    let tx = CsvFormat::parse_row(&row).unwrap();
    assert_eq!(
        tx,
        Transaction {
            tx_id: u64::MAX,
            tx_type: TxType::Withdrawal,
            from_user_id: i64::MIN,
            to_user_id: i64::MAX,
            amount: 0,
            timestamp: 7,
            status: Status::Pending,
            description: String::new(),
        }
    );
    assert_eq!(
        CsvFormat::record_fields(&tx),
        vec![
            "18446744073709551615",
            "WITHDRAWAL",
            "-9223372036854775808",
            "9223372036854775807",
            "0",
            "7",
            "PENDING",
            "",
        ]
    );
}

#[test]
fn csv_put_line_appends_or_refuses() {
    let mut sink = b"ab".to_vec();
    CsvFormat::put_line(&mut sink, Ok(b"cd\n".to_vec())).unwrap();
    assert_eq!(sink, b"abcd\n");
    match CsvFormat::put_line(&mut sink, Err("no".to_string())) {
        Err(BankFormatError::Csv(msg)) => assert_eq!(msg, "no"),
        other => panic!("expected Csv error, got {:?}", other),
    }
    assert_eq!(sink, b"abcd\n");
}

#[test]
fn csv_parse_rows_puts_a_bad_row_first() {
    let good: Vec<String> = "1,DEPOSIT,0,42,1000,1234567890,SUCCESS,test"
        .split(',')
        .map(|s| s.to_string())
        .collect();
    let bad: Vec<String> = vec!["1".to_string()];
    assert_eq!(
        CsvFormat::parse_rows(&vec![good.clone(), good.clone()], None).unwrap(),
        vec![expected_transaction(), expected_transaction()]
    );
    match CsvFormat::parse_rows(&vec![good.clone()], Some("stopped".to_string())) {
        Err(BankFormatError::Parse(msg)) => assert_eq!(msg, "stopped"),
        other => panic!("expected Parse error, got {:?}", other),
    }
    match CsvFormat::parse_rows(&vec![good, bad], Some("stopped".to_string())) {
        Err(BankFormatError::Parse(msg)) => assert_eq!(msg, "expected 8 fields, found 1"),
        other => panic!("expected Parse error, got {:?}", other),
    }
    assert_eq!(
        CsvFormat::header_fields(),
        vec!["id", "kind", "fromAccount", "toAccount", "amount", "timestamp", "status", "description"]
    );
}
