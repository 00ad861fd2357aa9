use ypbank::error::BankFormatError;
use ypbank::txt_format::{FieldMap, ParsedLine};
use ypbank::{BankFormat, Status, Transaction, TxType, TxtFormat};

fn expected_transaction() -> Transaction {
    Transaction {
        tx_id: 1,
        tx_type: TxType::Deposit,
        from_user_id: 0,
        to_user_id: 42,
        amount: 1000,
        timestamp: 1234567890,
        status: Status::Success,
        description: "test".to_string(),
    }
}

fn make_valid_txt() -> String {
    "# Record 1 (DEPOSIT)\n\
     TX_ID: 1\n\
     TX_TYPE: DEPOSIT\n\
     FROM_USER_ID: 0\n\
     TO_USER_ID: 42\n\
     AMOUNT: 1000\n\
     TIMESTAMP: 1234567890\n\
     STATUS: SUCCESS\n\
     DESCRIPTION: \"test\"\n\n"
        .to_string()
}

#[test]
fn txt_format_test_read_all_valid_record() {
    let input = make_valid_txt();
    match TxtFormat::read_all(input.as_bytes()) {
        Ok(transactions) => {
            assert_eq!(transactions.len(), 1);
            assert_eq!(transactions[0], expected_transaction());
        }
        Err(e) => panic!("expected Ok, got error: {}", e.to_text()),
    }
}

#[test]
fn txt_format_test_roundtrip() {
    let original = vec![expected_transaction()];
    let mut buf = Vec::new();
    TxtFormat::write_all(&mut buf, &original).unwrap();

    match TxtFormat::read_all(&buf) {
        Ok(transactions) => assert_eq!(transactions, original),
        Err(e) => panic!("expected Ok, got error: {}", e.to_text()),
    }
}

#[test]
fn txt_format_test_invalid_parse_cases() {
    let cases: Vec<(String, &str)> = vec![
        // invalid tx_type
        (
            "# Record 1\n\
             TX_ID: 1\n\
             TX_TYPE: INVALID\n\
             FROM_USER_ID: 0\n\
             TO_USER_ID: 42\n\
             AMOUNT: 1000\n\
             TIMESTAMP: 1234567890\n\
             STATUS: SUCCESS\n\
             DESCRIPTION: \"test\"\n\n"
                .to_string(),
            "unknown tx_type",
        ),
        // invalid status
        (
            "# Record 1\n\
             TX_ID: 1\n\
             TX_TYPE: DEPOSIT\n\
             FROM_USER_ID: 0\n\
             TO_USER_ID: 42\n\
             AMOUNT: 1000\n\
             TIMESTAMP: 1234567890\n\
             STATUS: INVALID\n\
             DESCRIPTION: \"test\"\n\n"
                .to_string(),
            "unknown status",
        ),
        // missing field
        (
            "# Record 1\n\
             TX_ID: 1\n\
             TX_TYPE: DEPOSIT\n\
             DESCRIPTION: \"test\"\n\n"
                .to_string(),
            "missing field",
        ),
        // invalid tx_id
        (
            "# Record 1\n\
             TX_ID: abc\n\
             TX_TYPE: DEPOSIT\n\
             FROM_USER_ID: 0\n\
             TO_USER_ID: 42\n\
             AMOUNT: 1000\n\
             TIMESTAMP: 1234567890\n\
             STATUS: SUCCESS\n\
             DESCRIPTION: \"test\"\n\n"
                .to_string(),
            "TX_ID",
        ),
    ];

    for (bad_txt, expected_msg) in cases {
        match TxtFormat::read_all(bad_txt.as_bytes()) {
            Err(BankFormatError::Parse(msg)) => {
                assert!(msg.contains(expected_msg), "got: {}", msg);
            }
            other => panic!("expected Parse error, got {:?}", other),
        }
    }
}

#[test]
fn txt_block_is_written_exactly() {
    let mut buf = Vec::new();
    TxtFormat::write_all(&mut buf, &[expected_transaction()]).unwrap();
    assert_eq!(String::from_utf8(buf).unwrap(), make_valid_txt());
}

#[test]
fn txt_blocks_are_numbered_from_one() {
    let mut second = expected_transaction();
    second.tx_id = 2;
    second.tx_type = TxType::Withdrawal;
    second.status = Status::Failure;
    second.amount = -7;
    second.description = String::new();
    let records = vec![expected_transaction(), second];
    let mut buf = b"%".to_vec();
    TxtFormat::write_all(&mut buf, &records).unwrap();
    let text = String::from_utf8(buf.clone()).unwrap();
    assert!(text.starts_with("%# Record 1 (DEPOSIT)\n"));
    assert!(text.ends_with(
        "\n\n# Record 2 (WITHDRAWAL)\n\
         TX_ID: 2\n\
         TX_TYPE: WITHDRAWAL\n\
         FROM_USER_ID: 0\n\
         TO_USER_ID: 42\n\
         AMOUNT: -7\n\
         TIMESTAMP: 1234567890\n\
         STATUS: FAILURE\n\
         DESCRIPTION: \"\"\n\n"
    ));
    assert_eq!(TxtFormat::read_all(&buf[1..]).unwrap(), records);
}

#[test]
fn txt_missing_sender_is_named() {
    let input = "# Record 1\n\
                 TX_ID: 1\n\
                 TX_TYPE: DEPOSIT\n\
                 TO_USER_ID: 42\n\
                 AMOUNT: 1000\n\
                 TIMESTAMP: 1234567890\n\
                 STATUS: SUCCESS\n\
                 DESCRIPTION: \"test\"\n\n";
    match TxtFormat::read_all(input.as_bytes()) {
        Err(BankFormatError::Parse(msg)) => assert_eq!(msg, "missing field: FROM_USER_ID"),
        other => panic!("expected Parse error, got {:?}", other),
    }
}

#[test]
fn txt_empty_and_blank_streams_hold_no_record() {
    assert_eq!(TxtFormat::read_all(b"").unwrap(), vec![]);
    assert_eq!(TxtFormat::read_all(b"\n\n  \n").unwrap(), vec![]);
    assert_eq!(TxtFormat::read_all(b"# only a comment\n# another").unwrap(), vec![]);
    assert_eq!(TxtFormat::read_all(b"no separator here\n").unwrap(), vec![]);
    let mut buf = Vec::new();
    TxtFormat::write_all(&mut buf, &[]).unwrap();
    assert!(buf.is_empty());
}

#[test]
fn txt_reader_is_liberal_about_layout() {
    let input = "   TX_ID :  +1  \r\n\
                 TX_TYPE:DEPOSIT\r\n\
                 \u{a0}FROM_USER_ID:\t0\n\
                 this line has no separator\n\
                 \n\
                 TO_USER_ID: \"42\"\n\
                 AMOUNT: 5\n\
                 AMOUNT: 1000\n\
                 COLOUR: blue\n\
                 TIMESTAMP: 1234567890\n\
                 STATUS: SUCCESS\n\
                 DESCRIPTION: test";
    assert_eq!(TxtFormat::read_all(input.as_bytes()).unwrap(), vec![expected_transaction()]);
}

#[test]
fn txt_comment_line_ends_a_block() {
    let input = "TX_ID: 1\n# cut\nTX_TYPE: DEPOSIT\n";
    match TxtFormat::read_all(input.as_bytes()) {
        Err(BankFormatError::Parse(msg)) => assert_eq!(msg, "missing field: TX_TYPE"),
        other => panic!("expected Parse error, got {:?}", other),
    }
    let unknown_only = "COLOUR: blue\n";
    match TxtFormat::read_all(unknown_only.as_bytes()) {
        Err(BankFormatError::Parse(msg)) => assert_eq!(msg, "missing field: TX_ID"),
        other => panic!("expected Parse error, got {:?}", other),
    }
}

#[test]
fn txt_line_that_is_not_utf8_is_io_error() {
    let mut input = make_valid_txt().into_bytes();
    input.extend_from_slice(b"# next\nTX_ID: \xff\n");
    match TxtFormat::read_all(&input) {
        Err(BankFormatError::Io(msg)) => assert_eq!(msg, "stream did not contain valid UTF-8"),
        other => panic!("expected Io, got {:?}", other),
    }
}

#[test]
fn txt_description_keeps_inner_quotes_colons_and_spaces() {
    let mut tx = expected_transaction();
    tx.description = " a \"b\": c # d\t".to_string();
    let records = vec![tx, expected_transaction()];
    let mut buf = Vec::new();
    TxtFormat::write_all(&mut buf, &records).unwrap();
    assert_eq!(TxtFormat::read_all(&buf).unwrap(), records);
}

#[test]
fn txt_read_line_tells_the_three_kinds() {
    assert!(matches!(TxtFormat::read_line("  # Record 1 (DEPOSIT)"), ParsedLine::Comment));
    assert!(matches!(TxtFormat::read_line(""), ParsedLine::Other));
    assert!(matches!(TxtFormat::read_line("no colon"), ParsedLine::Other));
    match TxtFormat::read_line(" KEY : \"\"va:lue\"  ") {
        ParsedLine::Pair(key, value) => {
            assert_eq!(key, "KEY");
            assert_eq!(value, "va:lue");
        }
        _ => panic!("expected a pair"),
    }
    match TxtFormat::read_line(":") {
        ParsedLine::Pair(key, value) => {
            assert_eq!(key, "");
            assert_eq!(value, "");
        }
        _ => panic!("expected a pair"),
    }
}

#[test]
fn txt_parse_map_goes_through_the_keys_in_order() {
    let mut map = FieldMap::new();
    assert!(map.is_empty());
    match TxtFormat::parse_map(&map) {
        Err(BankFormatError::Parse(msg)) => assert_eq!(msg, "missing field: TX_ID"),
        other => panic!("expected Parse error, got {:?}", other),
    }
    let keys = [
        ("TX_ID", "x", "TX_ID", "1", "missing field: TX_TYPE"),
        ("TX_TYPE", "x", "unknown tx_type: x", "TRANSFER", "missing field: FROM_USER_ID"),
        ("FROM_USER_ID", "x", "FROM_USER_ID", "-10", "missing field: TO_USER_ID"),
        ("TO_USER_ID", "x", "TO_USER_ID", "20", "missing field: AMOUNT"),
        ("AMOUNT", "x", "AMOUNT", "500", "missing field: TIMESTAMP"),
        ("TIMESTAMP", "x", "TIMESTAMP", "1234567891", "missing field: STATUS"),
        ("STATUS", "x", "unknown status: x", "PENDING", "missing field: DESCRIPTION"),
    ];
    for (key, bad, bad_msg, good, next_msg) in keys {
        map.insert(key, bad.to_string());
        assert!(!map.is_empty());
        match TxtFormat::parse_map(&map) {
            Err(BankFormatError::Parse(msg)) => assert_eq!(msg, bad_msg),
            other => panic!("expected Parse error, got {:?}", other),
        }
        map.insert(key, good.to_string());
        match TxtFormat::parse_map(&map) {
            Err(BankFormatError::Parse(msg)) => assert_eq!(msg, next_msg),
            other => panic!("expected Parse error, got {:?}", other),
        }
    }
    map.insert("DESCRIPTION", "second".to_string());
    assert_eq!(
        TxtFormat::parse_map(&map).unwrap(),
        Transaction {
            tx_id: 1,
            tx_type: TxType::Transfer,
            from_user_id: -10,
            to_user_id: 20,
            amount: 500,
            timestamp: 1234567891,
            status: Status::Pending,
            description: "second".to_string(),
        }
    );
}

#[test]
fn txt_parse_tokens() {
    assert_eq!(TxtFormat::parse_tx_type("DEPOSIT").unwrap(), TxType::Deposit);
    assert_eq!(TxtFormat::parse_tx_type("TRANSFER").unwrap(), TxType::Transfer);
    assert_eq!(TxtFormat::parse_tx_type("WITHDRAWAL").unwrap(), TxType::Withdrawal);
    assert_eq!(TxtFormat::parse_status("SUCCESS").unwrap(), Status::Success);
    assert_eq!(TxtFormat::parse_status("FAILURE").unwrap(), Status::Failure);
    assert_eq!(TxtFormat::parse_status("PENDING").unwrap(), Status::Pending);
    match TxtFormat::parse_tx_type("Deposit") {
        Err(BankFormatError::Parse(msg)) => assert_eq!(msg, "unknown tx_type: Deposit"),
        other => panic!("expected Parse error, got {:?}", other),
    }
    match TxtFormat::parse_status("") {
        Err(BankFormatError::Parse(msg)) => assert_eq!(msg, "unknown status: "),
        other => panic!("expected Parse error, got {:?}", other),
    }
}

#[test]
fn txt_description_between_quotes_loses_them() {
    let mut tx = expected_transaction();
    tx.description = "\"quoted\"".to_string();
    let mut buf = Vec::new();
    TxtFormat::write_all(&mut buf, &[tx]).unwrap();
    let back = TxtFormat::read_all(&buf).unwrap();
    assert_eq!(back.len(), 1);
    assert_eq!(back[0].description, "quoted");
}

#[test]
fn txt_description_with_line_feed_is_cut() {
    let mut tx = expected_transaction();
    tx.description = "first\nsecond".to_string();
    let mut buf = Vec::new();
    TxtFormat::write_all(&mut buf, &[tx]).unwrap();
    let back = TxtFormat::read_all(&buf).unwrap();
    assert_eq!(back.len(), 1);
    assert_eq!(back[0].description, "first");
}

#[test]
fn txt_feed_completes_a_block_at_a_comment() {
    let mut current = FieldMap::new();
    assert!(TxtFormat::feed(&mut current, b"# Record 1 (DEPOSIT)").unwrap().is_none());
    assert!(current.is_empty());
    for line in [
        "TX_ID: 1",
        "TX_TYPE: DEPOSIT",
        "FROM_USER_ID: 0",
        "TO_USER_ID: 42",
        "AMOUNT: 1000",
        "TIMESTAMP: 1234567890",
        "STATUS: SUCCESS",
        "DESCRIPTION: \"test\"",
        "",
    ] {
        assert!(TxtFormat::feed(&mut current, line.as_bytes()).unwrap().is_none());
        assert!(!current.is_empty());
    }
    let tx = TxtFormat::feed(&mut current, b"# Record 2 (DEPOSIT)").unwrap();
    assert_eq!(tx, Some(expected_transaction()));
    assert!(current.is_empty());
    match TxtFormat::feed(&mut current, b"\xc3(") {
        Err(BankFormatError::Io(msg)) => assert_eq!(msg, "stream did not contain valid UTF-8"),
        other => panic!("expected Io, got {:?}", other),
    }
}
