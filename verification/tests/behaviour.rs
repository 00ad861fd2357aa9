use ypbank::decimal::{format_i64, format_u64, parse_i64, parse_u64};
use ypbank::error::BankFormatError;
use ypbank::text::{char_is_space, chars_eq, chars_of, str_eq};
use ypbank::{
    compare, compare_records, convert, BankFormat, BinFormat, CompareResult, CsvFormat, Status,
    Transaction, TxType, TxtFormat,
};

fn sample(id: u64, amount: i64, description: &str) -> Transaction {
    Transaction {
        tx_id: id,
        tx_type: TxType::Transfer,
        from_user_id: 10,
        to_user_id: 20,
        amount,
        timestamp: 1234567891,
        status: Status::Pending,
        description: description.to_string(),
    }
}

fn ledger() -> Vec<Transaction> {
    vec![
        Transaction {
            tx_id: 1,
            tx_type: TxType::Deposit,
            from_user_id: 0,
            to_user_id: 42,
            amount: 1000,
            timestamp: 1234567890,
            status: Status::Success,
            description: "test".to_string(),
        },
        sample(2, -500, "second, with a comma"),
        Transaction {
            tx_id: u64::MAX,
            tx_type: TxType::Withdrawal,
            from_user_id: i64::MIN,
            to_user_id: i64::MAX,
            amount: 0,
            timestamp: -1,
            status: Status::Failure,
            description: "gr\u{fc}\u{df}e \u{1f4b0}".to_string(),
        },
        sample(4, 7, ""),
    ]
}

fn encode<F: BankFormat>(records: &[Transaction]) -> Vec<u8> {
    let mut buf = Vec::new();
    F::write_all(&mut buf, records).unwrap();
    buf
}

#[test]
fn round_trip_in_every_format() {
    let records = ledger();
    assert_eq!(BinFormat::read_all(&encode::<BinFormat>(&records)).unwrap(), records);
    assert_eq!(CsvFormat::read_all(&encode::<CsvFormat>(&records)).unwrap(), records);
    assert_eq!(TxtFormat::read_all(&encode::<TxtFormat>(&records)).unwrap(), records);
}

#[test]
fn cross_format_identity() {
    let records = ledger();
    let bin = encode::<BinFormat>(&records);
    let csv = encode::<CsvFormat>(&records);
    let txt = encode::<TxtFormat>(&records);
    assert!(matches!(compare::<BinFormat, CsvFormat>(&bin, &csv).unwrap(), CompareResult::Identical));
    assert!(matches!(compare::<CsvFormat, TxtFormat>(&csv, &txt).unwrap(), CompareResult::Identical));
    assert!(matches!(compare::<TxtFormat, BinFormat>(&txt, &bin).unwrap(), CompareResult::Identical));
    assert!(matches!(compare::<TxtFormat, TxtFormat>(&txt, &txt).unwrap(), CompareResult::Identical));
}

#[test]
fn convert_between_every_pair_keeps_the_records() {
    let records = ledger();
    let bin = encode::<BinFormat>(&records);
    let mut csv = Vec::new();
    convert::<BinFormat, CsvFormat>(&bin, &mut csv).unwrap();
    assert_eq!(csv, encode::<CsvFormat>(&records));
    let mut txt = Vec::new();
    convert::<CsvFormat, TxtFormat>(&csv, &mut txt).unwrap();
    assert_eq!(txt, encode::<TxtFormat>(&records));
    let mut back = Vec::new();
    convert::<TxtFormat, BinFormat>(&txt, &mut back).unwrap();
    assert_eq!(back, bin);
}

#[test]
fn convert_gives_the_decoder_error_and_writes_nothing() {
    let mut out = b"kept".to_vec();
    match convert::<BinFormat, CsvFormat>(&[0, 0, 0, 0], &mut out) {
        Err(BankFormatError::InvalidBinary(msg)) => assert_eq!(msg, "invalid magic: [0, 0, 0, 0]"),
        other => panic!("expected InvalidBinary, got {:?}", other),
    }
    assert_eq!(out, b"kept");
}

#[test]
fn compare_gives_the_first_stream_error_first() {
    match compare::<BinFormat, BinFormat>(&[0x59], &[0, 0, 0, 0]) {
        Err(BankFormatError::Io(_)) => {}
        other => panic!("expected Io, got {:?}", other),
    }
    match compare::<BinFormat, BinFormat>(&[], &[0, 0, 0, 0]) {
        Err(BankFormatError::InvalidBinary(_)) => {}
        other => panic!("expected InvalidBinary, got {:?}", other),
    }
}

#[test]
fn compare_reports_differing_records_with_both_sides() {
    let a = vec![sample(1, 1000, "x")];
    let b = vec![sample(1, 9999, "x")];
    match compare_records(&a, &b) {
        CompareResult::Mismatch { missing_in_1, missing_in_2, differing } => {
            assert!(missing_in_1.is_empty());
            assert!(missing_in_2.is_empty());
            assert_eq!(differing, vec![(1, sample(1, 1000, "x"), sample(1, 9999, "x"))]);
        }
        other => panic!("expected Mismatch, got {:?}", other),
    }
    let a = vec![sample(1, 1, "x"), sample(2, 2, "y")];
    let b = vec![sample(1, 1, "x")];
    match compare_records(&a, &b) {
        CompareResult::Mismatch { missing_in_1, missing_in_2, differing } => {
            assert!(missing_in_1.is_empty());
            assert_eq!(missing_in_2, vec![2]);
            assert!(differing.is_empty());
        }
        other => panic!("expected Mismatch, got {:?}", other),
    }
}

#[test]
fn compare_reports_all_three_kinds_in_any_order() {
    let a = vec![sample(1, 1, "a"), sample(2, 2, "b"), sample(3, 3, "c"), sample(5, 5, "e")];
    let b = vec![sample(4, 4, "d"), sample(3, 30, "c"), sample(1, 1, "a"), sample(6, 6, "f"), sample(5, 5, "E")];
    match compare_records(&a, &b) {
        CompareResult::Mismatch { mut missing_in_1, mut missing_in_2, mut differing } => {
            missing_in_1.sort();
            missing_in_2.sort();
            differing.sort_by_key(|entry| entry.0);
            assert_eq!(missing_in_1, vec![4, 6]);
            assert_eq!(missing_in_2, vec![2]);
            assert_eq!(
                differing,
                vec![(3, sample(3, 3, "c"), sample(3, 30, "c")), (5, sample(5, 5, "e"), sample(5, 5, "E"))]
            );
        }
        other => panic!("expected Mismatch, got {:?}", other),
    }
}

#[test]
fn compare_lets_the_last_duplicate_win() {
    let a = vec![sample(1, 1, "old"), sample(1, 2, "new")];
    let b = vec![sample(1, 2, "new")];
    assert!(matches!(compare_records(&a, &b), CompareResult::Identical));
    let c = vec![sample(1, 1, "old")];
    match compare_records(&a, &c) {
        CompareResult::Mismatch { differing, .. } => {
            assert_eq!(differing, vec![(1, sample(1, 2, "new"), sample(1, 1, "old"))]);
        }
        other => panic!("expected Mismatch, got {:?}", other),
    }
    assert!(matches!(compare_records(&[], &[]), CompareResult::Identical));
}

#[test]
fn compare_ignores_the_order_of_records() {
    let a = vec![sample(1, 1, "a"), sample(2, 2, "b")];
    let b = vec![sample(2, 2, "b"), sample(1, 1, "a")];
    assert!(matches!(compare_records(&a, &b), CompareResult::Identical));
}

#[test]
fn decimal_text_is_exact() {
    assert_eq!(format_u64(0), "0");
    assert_eq!(format_u64(10), "10");
    assert_eq!(format_u64(u64::MAX), "18446744073709551615");
    assert_eq!(format_i64(0), "0");
    assert_eq!(format_i64(-1), "-1");
    assert_eq!(format_i64(i64::MIN), "-9223372036854775808");
    assert_eq!(format_i64(i64::MAX), "9223372036854775807");
    for n in [0u64, 9, 10, 99, 100, 12345678901234567890, u64::MAX] {
        assert_eq!(format_u64(n), n.to_string());
        assert_eq!(parse_u64(&format_u64(n)), Some(n));
    }
    for n in [0i64, 1, -1, 42, -9000, i64::MIN, i64::MAX] {
        assert_eq!(format_i64(n), n.to_string());
        assert_eq!(parse_i64(&format_i64(n)), Some(n));
    }
}

#[test]
fn decimal_reading_agrees_with_the_standard_library() {
    let texts = [
        "", "+", "-", "0", "-0", "+0", "00012", "+7", "-7", "--7", "+-7", "7+", " 7", "7 ", "1_000",
        "0x10", "18446744073709551615", "18446744073709551616", "9223372036854775807",
        "9223372036854775808", "-9223372036854775808", "-9223372036854775809",
        "99999999999999999999999999", "\u{663}", "1e3", "1.0",
    ];
    for text in texts {
        assert_eq!(parse_u64(text), text.parse::<u64>().ok(), "u64 of {:?}", text);
        assert_eq!(parse_i64(text), text.parse::<i64>().ok(), "i64 of {:?}", text);
    }
}

#[test]
fn white_space_agrees_with_the_standard_library() {
    let mut code: u32 = 0;
    while code <= 0x11000 {
        if let Some(c) = char::from_u32(code) {
            assert_eq!(char_is_space(c), c.is_whitespace(), "U+{:04X}", code);
        }
        code += 1;
    }
}

#[test]
fn text_helpers() {
    assert_eq!(chars_of("a\u{e9}\u{1f600}"), vec!['a', '\u{e9}', '\u{1f600}']);
    assert!(str_eq("", ""));
    assert!(str_eq("abc", "abc"));
    assert!(!str_eq("abc", "abd"));
    assert!(!str_eq("abc", "ab"));
    assert!(chars_eq(&['x'], &['x']));
    assert!(!chars_eq(&['x'], &[]));
}

#[test]
fn enumeration_codes_and_tokens() {
    let kinds = [(TxType::Deposit, 0u8, "DEPOSIT"), (TxType::Transfer, 1, "TRANSFER"), (TxType::Withdrawal, 2, "WITHDRAWAL")];
    for (kind, code, token) in kinds {
        assert_eq!(kind.code(), code);
        assert_eq!(TxType::from_code(code), Some(kind));
        assert_eq!(kind.as_str(), token);
        assert_eq!(TxType::from_token(token), Some(kind));
    }
    let statuses = [(Status::Success, 0u8, "SUCCESS"), (Status::Failure, 1, "FAILURE"), (Status::Pending, 2, "PENDING")];
    for (status, code, token) in statuses {
        assert_eq!(status.code(), code);
        assert_eq!(Status::from_code(code), Some(status));
        assert_eq!(status.as_str(), token);
        assert_eq!(Status::from_token(token), Some(status));
    }
    assert_eq!(TxType::from_code(3), None);
    assert_eq!(Status::from_code(255), None);
    assert_eq!(TxType::from_token("deposit"), None);
    assert_eq!(Status::from_token("SUCCESS "), None);
}

#[test]
fn errors_render_with_their_label() {
    assert_eq!(BankFormatError::Io("a".to_string()).to_text(), "IO error: a");
    assert_eq!(BankFormatError::Csv("b".to_string()).to_text(), "CSV error: b");
    assert_eq!(BankFormatError::Parse("c".to_string()).to_text(), "Parse error: c");
    assert_eq!(BankFormatError::InvalidBinary("d".to_string()).to_text(), "Invalid binary format: d");
}

#[test]
fn transactions_compare_by_every_field() {
    let base = sample(1, 1, "a");
    assert_eq!(base, base.clone());
    let mut other = base.clone();
    other.tx_id = 2;
    assert_ne!(base, other);
    let mut other = base.clone();
    other.tx_type = TxType::Deposit;
    assert_ne!(base, other);
    let mut other = base.clone();
    other.from_user_id = 11;
    assert_ne!(base, other);
    let mut other = base.clone();
    other.to_user_id = 21;
    assert_ne!(base, other);
    let mut other = base.clone();
    other.amount = 2;
    assert_ne!(base, other);
    let mut other = base.clone();
    other.timestamp = 0;
    assert_ne!(base, other);
    let mut other = base.clone();
    other.status = Status::Success;
    assert_ne!(base, other);
    let mut other = base.clone();
    other.description = "b".to_string();
    assert_ne!(base, other);
}

/// A small deterministic generator, so that the same ledgers are tried on
/// every run.
struct Lcg(u64);

impl Lcg {
    fn next(&mut self) -> u64 {
        self.0 = self.0.wrapping_mul(6364136223846793005).wrapping_add(1442695040888963407);
        self.0 >> 11
    }

    fn pick<T: Copy>(&mut self, from: &[T]) -> T {
        from[(self.next() % from.len() as u64) as usize]
    }

    fn number(&mut self) -> i64 {
        match self.next() % 6 {
            0 => 0,
            1 => i64::MIN,
            2 => i64::MAX,
            3 => -((self.next() % 1000) as i64),
            _ => self.next() as i64,
        }
    }

    fn text(&mut self, alphabet: &[char]) -> String {
        let len = self.next() % 12;
        (0..len).map(|_| self.pick(alphabet)).collect()
    }

    fn ledger(&mut self, alphabet: &[char]) -> Vec<Transaction> {
        let len = self.next() % 5;
        (0..len)
            .map(|_| Transaction {
                tx_id: self.next() % 7,
                tx_type: self.pick(&[TxType::Deposit, TxType::Transfer, TxType::Withdrawal]),
                from_user_id: self.number(),
                to_user_id: self.number(),
                amount: self.number(),
                timestamp: self.number(),
                status: self.pick(&[Status::Success, Status::Failure, Status::Pending]),
                description: self.text(alphabet),
            })
            .collect()
    }
}

const ANY_CHARS: [char; 16] = [
    'a', 'Z', '0', ' ', ',', '"', ':', '#', '\n', '\r', '\t', '\'', '\u{e9}', '\u{a0}', '\u{20ac}',
    '\u{1f600}',
];

#[test]
fn generated_ledgers_round_trip_in_binary_and_table_text() {
    let mut gen = Lcg(1);
    for _ in 0..300 {
        let records = gen.ledger(&ANY_CHARS);
        assert_eq!(BinFormat::read_all(&encode::<BinFormat>(&records)).unwrap(), records);
        assert_eq!(CsvFormat::read_all(&encode::<CsvFormat>(&records)).unwrap(), records);
    }
}

#[test]
fn generated_ledgers_round_trip_in_block_text() {
    let mut gen = Lcg(2);
    let mut tried = 0;
    while tried < 300 {
        let records = gen.ledger(&ANY_CHARS);
        let plain = records.iter().all(|tx| {
            let d = &tx.description;
            !d.contains('\n') && !d.starts_with('"') && !d.ends_with('"')
        });
        if plain {
            assert_eq!(TxtFormat::read_all(&encode::<TxtFormat>(&records)).unwrap(), records);
            tried += 1;
        }
    }
}

#[test]
fn generated_ledgers_compare_as_their_indexes_do() {
    let mut gen = Lcg(3);
    for _ in 0..300 {
        let one = gen.ledger(&['a', 'b']);
        let two = if gen.next() % 3 == 0 { one.clone() } else { gen.ledger(&['a', 'b']) };
        let index = |records: &[Transaction]| {
            let mut m = std::collections::BTreeMap::new();
            for tx in records {
                m.insert(tx.tx_id, tx.clone());
            }
            m
        };
        let (m1, m2) = (index(&one), index(&two));
        match compare_records(&one, &two) {
            CompareResult::Identical => assert_eq!(m1, m2),
            CompareResult::Mismatch { mut missing_in_1, mut missing_in_2, mut differing } => {
                missing_in_1.sort();
                missing_in_2.sort();
                differing.sort_by_key(|entry| entry.0);
                let want_1: Vec<u64> = m2.keys().filter(|id| !m1.contains_key(*id)).copied().collect();
                let want_2: Vec<u64> = m1.keys().filter(|id| !m2.contains_key(*id)).copied().collect();
                let want_d: Vec<(u64, Transaction, Transaction)> = m1
                    .iter()
                    .filter(|(id, tx)| m2.get(*id).map_or(false, |other| other != *tx))
                    .map(|(id, tx)| (*id, tx.clone(), m2[id].clone()))
                    .collect();
                assert_eq!(missing_in_1, want_1);
                assert_eq!(missing_in_2, want_2);
                assert_eq!(differing, want_d);
                assert!(!(want_1.is_empty() && want_2.is_empty() && want_d.is_empty()));
            }
        }
        let bin = encode::<BinFormat>(&one);
        let csv = encode::<CsvFormat>(&one);
        assert!(matches!(compare::<BinFormat, CsvFormat>(&bin, &csv).unwrap(), CompareResult::Identical));
    }
}
