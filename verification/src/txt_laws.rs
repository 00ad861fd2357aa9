//! Why the block-text format gives back what was written in it.

use vstd::prelude::*;
use vstd::utf8::{encode_scalar, encode_utf8};
use crate::decimal::{int_text, is_digit, lemma_nat_text, nat_text, parse_u64_spec};
use crate::error::ErrorView;
use crate::format::after;
use crate::record::{Status, TransactionView, TxType};
use crate::text::{
    first_index, is_space, lemma_first_index_is, lemma_strip_nothing, strip_back, strip_front,
    trim, trim_quotes,
};
use crate::txt_format::{
    all_plain, block_bytes, classify, decode_stream, encode_blocks, fields_record, line_bytes,
    line_span, missing, pair_line, plain_text, quoted, title_line, FieldMapView, Line, NEWLINE,
};

verus! {

/// The encoding of a scalar other than the line feed holds no newline
/// byte.
proof fn lemma_scalar_no_newline(u: u32)
    requires
        u != 0x0a,
    ensures
        forall|i: int|
            0 <= i < encode_scalar(u).len() ==> #[trigger] encode_scalar(u)[i] != NEWLINE,
{
    assert(u <= 0x7f ==> (u & 0x7f) as u8 != 0x0au8 || u == 0x0a) by (bit_vector);
    assert(forall|x: u8| #![auto] 0xc0u8 | x >= 0x80u8) by (bit_vector);
    assert(forall|x: u8| #![auto] 0xe0u8 | x >= 0x80u8) by (bit_vector);
    assert(forall|x: u8| #![auto] 0xf0u8 | x >= 0x80u8) by (bit_vector);
    assert(forall|x: u8| #![auto] 0x80u8 | x >= 0x80u8) by (bit_vector);
}

/// The encoding of text without a line feed holds no newline byte.
pub proof fn lemma_text_no_newline(s: Seq<char>)
    requires
        !s.contains('\n'),
    ensures
        forall|i: int| 0 <= i < encode_utf8(s).len() ==> #[trigger] encode_utf8(s)[i] != NEWLINE,
    decreases s.len(),
{
    if s.len() > 0 {
        let rest = s.drop_first();
        assert(s[0] != '\n');
        assert(!rest.contains('\n')) by {
            if rest.contains('\n') {
                let j = choose|j: int| 0 <= j < rest.len() && rest[j] == '\n';
                assert(s[j + 1] == '\n');
            }
        }
        assert(s[0] as u32 != 0x0a) by {
            if s[0] as u32 == 0x0a {
                vstd::utf8::char_u32_cast(s[0], 0x0a);
                vstd::utf8::char_u32_cast('\n', 0x0a);
            }
        }
        lemma_scalar_no_newline(s[0] as u32);
        lemma_text_no_newline(rest);
        let head = encode_scalar(s[0] as u32);
        assert forall|i: int| 0 <= i < encode_utf8(s).len() implies #[trigger] encode_utf8(s)[i]
            != NEWLINE by {
            if i < head.len() {
                assert(encode_utf8(s)[i] == head[i]);
            } else {
                assert(encode_utf8(s)[i] == encode_utf8(rest)[i - head.len()]);
            }
        }
    }
}

/// The first line of what begins with a written line is that line.
pub proof fn lemma_first_line(line: Seq<char>, rest: Seq<u8>)
    requires
        !line.contains('\n'),
    ensures
        first_index(line_bytes(line) + rest, NEWLINE) == encode_utf8(line).len(),
        (line_bytes(line) + rest).take(encode_utf8(line).len() as int) == encode_utf8(line),
        (line_bytes(line) + rest).skip(encode_utf8(line).len() as int + 1) == rest,
{
    let b = line_bytes(line) + rest;
    let n = encode_utf8(line).len() as int;
    lemma_text_no_newline(line);
    assert(b[n] == NEWLINE);
    assert forall|j: int| 0 <= j < n implies b[j] != NEWLINE by {
        assert(b[j] == encode_utf8(line)[j]);
    }
    lemma_first_index_is(b, NEWLINE, n);
    assert(b.take(n) =~= encode_utf8(line));
    assert(b.skip(n + 1) =~= rest);
}

/// What a written line does to the decoding of what follows it.
pub proof fn lemma_peel(line: Seq<char>, rest: Seq<u8>, block: FieldMapView)
    requires
        !line.contains('\n'),
    ensures
        decode_stream(line_bytes(line) + rest, block) == (match classify(line) {
            Line::Comment => if block.touched {
                match fields_record(block) {
                    Ok(t) => after(seq![t], decode_stream(rest, FieldMapView::empty())),
                    Err(e) => Err(e),
                }
            } else {
                decode_stream(rest, block)
            },
            Line::Pair { key, value } => decode_stream(rest, block.insert(key, value)),
            Line::Other => decode_stream(rest, block),
        }),
{
    let b = line_bytes(line) + rest;
    lemma_first_line(line, rest);
    vstd::utf8::encode_utf8_valid_utf8(line);
    vstd::utf8::encode_utf8_decode_utf8(line);
    assert(b.len() > 0);
    assert(b.skip(line_span(b)) == rest);
    assert(b.take(first_index(b, NEWLINE)) == encode_utf8(line));
}

/// Text with a space before it and none at its own ends is what trimming
/// leaves of it.
proof fn lemma_trim_after_space(v: Seq<char>)
    requires
        v.len() > 0,
        !is_space(v[0]),
        !is_space(v.last()),
    ensures
        trim(" "@ + v) == v,
{
    reveal_strlit(" ");
    let s = " "@ + v;
    assert(is_space(s[0]));
    assert(s.skip(1) =~= v);
    assert(strip_front(s, false) == strip_front(v, false));
}

/// Text in double quotes, with none at its own ends, is what trimming the
/// quotes leaves.
proof fn lemma_trim_quoted(d: Seq<char>)
    requires
        d.len() > 0 ==> d[0] != '"' && d.last() != '"',
    ensures
        trim_quotes(quoted(d)) == d,
        quoted(d).len() == d.len() + 2,
        quoted(d)[0] == '"',
        quoted(d).last() == '"',
{
    reveal_strlit("\"");
    let q = quoted(d);
    let inner = d + "\""@;
    assert(q.skip(1) =~= inner);
    assert(strip_front(q, true) == strip_front(inner, true));
    if d.len() == 0 {
        assert(inner.skip(1) =~= d);
        assert(strip_front(inner, true) == strip_front(d, true));
    } else {
        assert(inner[0] == d[0]);
        assert(strip_front(inner, true) == inner);
        assert(inner.drop_last() =~= d);
        assert(strip_back(inner, true) == strip_back(d, true));
    }
}

/// A line made of a key, a colon, a space and a value is read as that key
/// and that value without its quotes.
proof fn lemma_classify_pair(key: Seq<char>, raw: Seq<char>)
    requires
        key.len() > 0,
        !key.contains(':'),
        !is_space(key[0]),
        !is_space(key.last()),
        key[0] != '#',
        raw.len() > 0,
        !is_space(raw[0]),
        !is_space(raw.last()),
    ensures
        classify(pair_line(key, raw)) == (Line::Pair { key, value: trim_quotes(raw) }),
{
    reveal_strlit(": ");
    reveal_strlit(" ");
    let line = pair_line(key, raw);
    let n = key.len() as int;
    assert(line.len() == n + 2 + raw.len());
    assert(line[0] == key[0]);
    assert(line.last() == raw.last());
    lemma_strip_nothing(line, false);
    assert(line[n] == ':');
    assert forall|j: int| 0 <= j < n implies line[j] != ':' by {
        assert(line[j] == key[j]);
        assert(key.contains(key[j]));
    }
    lemma_first_index_is(line, ':', n);
    assert(line.take(n) =~= key);
    lemma_strip_nothing(key, false);
    assert(line.skip(n + 1) =~= " "@ + raw);
    lemma_trim_after_space(raw);
}

/// The characters of keys, tokens and numbers.
pub open spec fn is_word_char(c: char) -> bool {
    is_digit(c) || ('A' <= c <= 'Z') || c == '_' || c == '-'
}

/// Text of one such character or more.
pub open spec fn is_word(s: Seq<char>) -> bool {
    s.len() > 0 && forall|i: int| 0 <= i < s.len() ==> is_word_char(#[trigger] s[i])
}

/// A word holds no line feed and no colon, and neither white space nor a
/// double quote nor a hash stands at its ends.
proof fn lemma_word(s: Seq<char>)
    requires
        is_word(s),
    ensures
        s.len() > 0,
        !s.contains('\n'),
        !s.contains(':'),
        !is_space(s[0]),
        !is_space(s.last()),
        s[0] != '"',
        s.last() != '"',
        s[0] != '#',
{
    assert(is_word_char(s[0]));
    assert(is_word_char(s[s.len() - 1]));
}

proof fn lemma_keys_are_words()
    ensures
        is_word("TX_ID"@),
        is_word("TX_TYPE"@),
        is_word("FROM_USER_ID"@),
        is_word("TO_USER_ID"@),
        is_word("AMOUNT"@),
        is_word("TIMESTAMP"@),
        is_word("STATUS"@),
        is_word("DESCRIPTION"@),
{
    reveal_strlit("TX_ID");
    reveal_strlit("TX_TYPE");
    reveal_strlit("FROM_USER_ID");
    reveal_strlit("TO_USER_ID");
    reveal_strlit("AMOUNT");
    reveal_strlit("TIMESTAMP");
    reveal_strlit("STATUS");
    reveal_strlit("DESCRIPTION");
}

proof fn lemma_tokens_are_words(kind: TxType, status: Status)
    ensures
        is_word(kind.spec_token()),
        is_word(status.spec_token()),
{
    reveal_strlit("DEPOSIT");
    reveal_strlit("TRANSFER");
    reveal_strlit("WITHDRAWAL");
    reveal_strlit("SUCCESS");
    reveal_strlit("FAILURE");
    reveal_strlit("PENDING");
}

proof fn lemma_numbers_are_words(n: nat, v: int)
    ensures
        is_word(nat_text(n)),
        is_word(int_text(v)),
{
    lemma_nat_text(n);
    if v < 0 {
        lemma_nat_text((-v) as nat);
        let digits = nat_text((-v) as nat);
        assert forall|i: int| 0 <= i < int_text(v).len() implies is_word_char(
            #[trigger] int_text(v)[i],
        ) by {
            if i > 0 {
                assert(int_text(v)[i] == digits[i - 1]);
            }
        }
    } else {
        lemma_nat_text(v as nat);
    }
}

/// What neither of two texts holds, the two in a row do not hold.
proof fn lemma_concat_lacks(a: Seq<char>, b: Seq<char>, x: char)
    requires
        !a.contains(x),
        !b.contains(x),
    ensures
        !(a + b).contains(x),
{
    if (a + b).contains(x) {
        let j = choose|j: int| 0 <= j < (a + b).len() && (a + b)[j] == x;
        if j < a.len() {
            assert(a[j] == x);
        } else {
            assert(b[j - a.len()] == x);
        }
    }
}

/// The comment line of a block is read as a comment and holds no line
/// feed.
proof fn lemma_title_line(n: nat, t: TransactionView)
    ensures
        classify(title_line(n, t)) == Line::Comment,
        !title_line(n, t).contains('\n'),
{
    reveal_strlit("# Record ");
    reveal_strlit(" (");
    reveal_strlit(")");
    let line = title_line(n, t);
    let digits = nat_text(n);
    let token = t.tx_type.spec_token();
    lemma_numbers_are_words(n, 0);
    lemma_tokens_are_words(t.tx_type, t.status);
    lemma_word(digits);
    lemma_word(token);
    assert(line[0] == '#');
    assert(line.last() == ')');
    lemma_strip_nothing(line, false);
    lemma_concat_lacks("# Record "@, digits, '\n');
    lemma_concat_lacks("# Record "@ + digits, " ("@, '\n');
    lemma_concat_lacks("# Record "@ + digits + " ("@, token, '\n');
    lemma_concat_lacks("# Record "@ + digits + " ("@ + token, ")"@, '\n');
}

/// A line that gives a key a word is read as that key and that word, and
/// holds no line feed.
proof fn lemma_word_line(key: Seq<char>, word: Seq<char>)
    requires
        is_word(key),
        is_word(word),
    ensures
        classify(pair_line(key, word)) == (Line::Pair { key, value: word }),
        !pair_line(key, word).contains('\n'),
{
    reveal_strlit(": ");
    lemma_word(key);
    lemma_word(word);
    lemma_classify_pair(key, word);
    lemma_strip_nothing(word, true);
    lemma_concat_lacks(key, ": "@, '\n');
    lemma_concat_lacks(key + ": "@, word, '\n');
}

/// The line that gives the description is read as the description, and
/// holds no line feed.
proof fn lemma_description_line(d: Seq<char>)
    requires
        plain_text(d),
    ensures
        classify(pair_line("DESCRIPTION"@, quoted(d))) == (Line::Pair {
            key: "DESCRIPTION"@,
            value: d,
        }),
        !pair_line("DESCRIPTION"@, quoted(d)).contains('\n'),
{
    reveal_strlit(": ");
    reveal_strlit("\"");
    let key = "DESCRIPTION"@;
    lemma_keys_are_words();
    lemma_word(key);
    lemma_trim_quoted(d);
    lemma_classify_pair(key, quoted(d));
    lemma_concat_lacks("\""@, d, '\n');
    lemma_concat_lacks("\""@ + d, "\""@, '\n');
    lemma_concat_lacks(key, ": "@, '\n');
    lemma_concat_lacks(key + ": "@, quoted(d), '\n');
}

/// A blank line says nothing.
proof fn lemma_blank_line()
    ensures
        classify(Seq::empty()) == Line::Other,
        !Seq::<char>::empty().contains('\n'),
{
}

/// The values that the block of a record gives.
pub open spec fn full_block(t: TransactionView) -> FieldMapView {
    FieldMapView {
        tx_id: Some(nat_text(t.tx_id as nat)),
        tx_type: Some(t.tx_type.spec_token()),
        from_user_id: Some(int_text(t.from_user_id as int)),
        to_user_id: Some(int_text(t.to_user_id as int)),
        amount: Some(int_text(t.amount as int)),
        timestamp: Some(int_text(t.timestamp as int)),
        status: Some(t.status.spec_token()),
        description: Some(t.description),
        touched: true,
    }
}

/// The values that the block of a record gives are read as that record.
pub proof fn lemma_full_block(t: TransactionView)
    ensures
        fields_record(full_block(t)) == Ok::<_, ErrorView>(t),
{
    crate::decimal::lemma_u64_text_round_trip(t.tx_id);
    crate::decimal::lemma_i64_text_round_trip(t.from_user_id);
    crate::decimal::lemma_i64_text_round_trip(t.to_user_id);
    crate::decimal::lemma_i64_text_round_trip(t.amount);
    crate::decimal::lemma_i64_text_round_trip(t.timestamp);
    t.tx_type.lemma_token_round_trip();
    t.status.lemma_token_round_trip();
}

/// Giving the eight keys their values, in the order of a block, fills an
/// empty collection with the values of the record.
proof fn lemma_fill(t: TransactionView)
    ensures
        FieldMapView::empty().insert("TX_ID"@, nat_text(t.tx_id as nat)).insert(
            "TX_TYPE"@,
            t.tx_type.spec_token(),
        ).insert("FROM_USER_ID"@, int_text(t.from_user_id as int)).insert(
            "TO_USER_ID"@,
            int_text(t.to_user_id as int),
        ).insert("AMOUNT"@, int_text(t.amount as int)).insert(
            "TIMESTAMP"@,
            int_text(t.timestamp as int),
        ).insert("STATUS"@, t.status.spec_token()).insert("DESCRIPTION"@, t.description)
            == full_block(t),
{
    reveal_strlit("TX_ID");
    reveal_strlit("TX_TYPE");
    reveal_strlit("FROM_USER_ID");
    reveal_strlit("TO_USER_ID");
    reveal_strlit("AMOUNT");
    reveal_strlit("TIMESTAMP");
    reveal_strlit("STATUS");
    reveal_strlit("DESCRIPTION");
    assert("TX_ID"@.len() == 5);
    assert("TX_TYPE"@.len() == 7);
    assert("FROM_USER_ID"@.len() == 12);
    assert("TO_USER_ID"@.len() == 10);
    assert("AMOUNT"@.len() == 6 && "AMOUNT"@[0] == 'A');
    assert("TIMESTAMP"@.len() == 9);
    assert("STATUS"@.len() == 6 && "STATUS"@[0] == 'S');
    assert("DESCRIPTION"@.len() == 11);
}

/// What the block of a record does to the decoding of what follows it:
/// the block before it, if there is one, is completed, and the values of
/// this block are collected.
pub proof fn lemma_decode_block(n: nat, t: TransactionView, rest: Seq<u8>, pending: FieldMapView)
    requires
        plain_text(t.description),
        pending.well_formed(),
    ensures
        decode_stream(block_bytes(n, t) + rest, pending) == (if pending.touched {
            match fields_record(pending) {
                Ok(p) => after(seq![p], decode_stream(rest, full_block(t))),
                Err(e) => Err(e),
            }
        } else {
            decode_stream(rest, full_block(t))
        }),
{
    let id = nat_text(t.tx_id as nat);
    let kind = t.tx_type.spec_token();
    let from = int_text(t.from_user_id as int);
    let to = int_text(t.to_user_id as int);
    let amount = int_text(t.amount as int);
    let time = int_text(t.timestamp as int);
    let status = t.status.spec_token();
    let l0 = title_line(n, t);
    let l1 = pair_line("TX_ID"@, id);
    let l2 = pair_line("TX_TYPE"@, kind);
    let l3 = pair_line("FROM_USER_ID"@, from);
    let l4 = pair_line("TO_USER_ID"@, to);
    let l5 = pair_line("AMOUNT"@, amount);
    let l6 = pair_line("TIMESTAMP"@, time);
    let l7 = pair_line("STATUS"@, status);
    let l8 = pair_line("DESCRIPTION"@, quoted(t.description));
    let l9 = Seq::<char>::empty();
    let r9 = line_bytes(l9) + rest;
    let r8 = line_bytes(l8) + r9;
    let r7 = line_bytes(l7) + r8;
    let r6 = line_bytes(l6) + r7;
    let r5 = line_bytes(l5) + r6;
    let r4 = line_bytes(l4) + r5;
    let r3 = line_bytes(l3) + r4;
    let r2 = line_bytes(l2) + r3;
    let r1 = line_bytes(l1) + r2;
    let r0 = line_bytes(l0) + r1;
    assert(block_bytes(n, t) + rest =~= r0);

    let b0 = FieldMapView::empty();
    let b1 = b0.insert("TX_ID"@, id);
    let b2 = b1.insert("TX_TYPE"@, kind);
    let b3 = b2.insert("FROM_USER_ID"@, from);
    let b4 = b3.insert("TO_USER_ID"@, to);
    let b5 = b4.insert("AMOUNT"@, amount);
    let b6 = b5.insert("TIMESTAMP"@, time);
    let b7 = b6.insert("STATUS"@, status);
    let b8 = b7.insert("DESCRIPTION"@, t.description);
    lemma_fill(t);

    lemma_keys_are_words();
    lemma_tokens_are_words(t.tx_type, t.status);
    lemma_numbers_are_words(t.tx_id as nat, t.from_user_id as int);
    lemma_numbers_are_words(0, t.to_user_id as int);
    lemma_numbers_are_words(0, t.amount as int);
    lemma_numbers_are_words(0, t.timestamp as int);

    lemma_title_line(n, t);
    lemma_peel(l0, r1, pending);
    lemma_word_line("TX_ID"@, id);
    lemma_peel(l1, r2, b0);
    lemma_word_line("TX_TYPE"@, kind);
    lemma_peel(l2, r3, b1);
    lemma_word_line("FROM_USER_ID"@, from);
    lemma_peel(l3, r4, b2);
    lemma_word_line("TO_USER_ID"@, to);
    lemma_peel(l4, r5, b3);
    lemma_word_line("AMOUNT"@, amount);
    lemma_peel(l5, r6, b4);
    lemma_word_line("TIMESTAMP"@, time);
    lemma_peel(l6, r7, b5);
    lemma_word_line("STATUS"@, status);
    lemma_peel(l7, r8, b6);
    lemma_description_line(t.description);
    lemma_peel(l8, r9, b7);
    lemma_blank_line();
    lemma_peel(l9, rest, b8);
}

/// Decoding the blocks of a list of records gives the list back, after the
/// record of the block that was being collected, if there was one.
pub proof fn lemma_decode_blocks(records: Seq<TransactionView>, first: nat, pending: FieldMapView)
    requires
        all_plain(records),
        pending.well_formed(),
    ensures
        decode_stream(encode_blocks(records, first), pending) == (if pending.touched {
            match fields_record(pending) {
                Ok(p) => Ok(seq![p] + records),
                Err(e) => Err(e),
            }
        } else {
            Ok::<_, ErrorView>(records)
        }),
    decreases records.len(),
{
    if records.len() == 0 {
        assert(encode_blocks(records, first).len() == 0);
        assert(records =~= Seq::empty());
        if pending.touched && fields_record(pending) is Ok {
            assert(seq![fields_record(pending)->Ok_0] + records =~= seq![
                fields_record(pending)->Ok_0,
            ]);
        }
    } else {
        let t = records[0];
        let rest = records.skip(1);
        assert(all_plain(rest)) by {
            assert forall|i: int| 0 <= i < rest.len() implies plain_text(
                (#[trigger] rest[i]).description,
            ) by {
                assert(rest[i] == records[i + 1]);
            }
        }
        let tail = encode_blocks(rest, first + 1);
        lemma_decode_block(first, t, tail, pending);
        lemma_full_block(t);
        lemma_decode_blocks(rest, first + 1, full_block(t));
        assert(seq![t] + rest =~= records);
        if pending.touched && fields_record(pending) is Ok {
            let p = fields_record(pending)->Ok_0;
            assert(seq![p] + (seq![t] + rest) =~= seq![p] + records);
        }
    }
}

/// A block that gives a readable id and type but no sender is refused as
/// malformed text, in words that name the missing key.
pub proof fn lemma_missing_sender(m: FieldMapView)
    requires
        m.tx_id is Some,
        parse_u64_spec(m.tx_id->0) is Some,
        m.tx_type is Some,
        TxType::spec_from_token(m.tx_type->0) is Some,
        m.from_user_id is None,
    ensures
        fields_record(m) == Err::<TransactionView, _>(missing("FROM_USER_ID"@)),
        missing("FROM_USER_ID"@) == ErrorView::Parse("missing field: "@ + "FROM_USER_ID"@),
{
}

} // verus!
