use toy_trx_engine::decode::{
    decode_record, is_well_formed_amount, parse_amount, parse_rec_type, parse_unsigned, DecodeError, TransactionRec,
    TransactionRecType,
};
use toy_trx_engine::money::Money;
use toy_trx_engine::processor::{Dispatch, Dispatcher, SkipReason};
use toy_trx_engine::transactions::{Deposit, Dispute, Transaction, Withdrawal};

fn fields(line: &str) -> Vec<Vec<u8>> {
    line.split(',').map(|f| f.as_bytes().to_vec()).collect()
}

fn units(u: i128) -> Money {
    Money::from_units(u).expect("in range")
}

#[test]
fn amounts_parse_exactly() {
    assert_eq!(parse_amount(b"1.5"), Some(units(15000)));
    assert_eq!(parse_amount(b"  5.4321 "), Some(units(54321)));
    assert_eq!(parse_amount(b"-3"), Some(units(-30000)));
    assert_eq!(parse_amount(b"+0.25"), Some(units(2500)));
    assert_eq!(parse_amount(b".5"), Some(units(5000)));
    assert_eq!(parse_amount(b"7."), Some(units(70000)));
    assert_eq!(parse_amount(b"0"), Some(units(0)));
    assert_eq!(parse_amount(b"1.23456"), None);
    assert_eq!(parse_amount(b"1.2.3"), None);
    assert_eq!(parse_amount(b"abc"), None);
    assert_eq!(parse_amount(b"."), None);
    assert_eq!(parse_amount(b""), None);
    assert_eq!(parse_amount(b"1e5"), None);
    assert_eq!(parse_amount(b"1000000000000000000000000"), Some(units(10_000_000_000_000_000_000_000_000_000)));
    assert_eq!(parse_amount(b"1000000000000000000000000.0001"), None);
}

#[test]
fn ids_parse_as_unsigned() {
    assert_eq!(parse_unsigned(b"65535", 65535), Some(65535));
    assert_eq!(parse_unsigned(b"65536", 65535), None);
    assert_eq!(parse_unsigned(b" +12 ", 65535), Some(12));
    assert_eq!(parse_unsigned(b"-1", 65535), None);
    assert_eq!(parse_unsigned(b"4294967295", 4294967295), Some(4294967295));
    assert_eq!(parse_unsigned(b"4294967296", 4294967295), None);
    assert_eq!(parse_unsigned(b"", 65535), None);
}

#[test]
fn keywords_fold_case() {
    assert_eq!(parse_rec_type(b"deposit"), Some(TransactionRecType::Deposit));
    assert_eq!(parse_rec_type(b" Withdrawal\t"), Some(TransactionRecType::Withdrawal));
    assert_eq!(parse_rec_type(b"CHARGEBACK"), Some(TransactionRecType::Chargeback));
    assert_eq!(parse_rec_type(b"resolve"), Some(TransactionRecType::Resolve));
    assert_eq!(parse_rec_type(b"dispute"), Some(TransactionRecType::Dispute));
    assert_eq!(parse_rec_type(b"refund"), None);
}

#[test]
fn rows_decode() {
    assert_eq!(
        decode_record(&fields(" deposit , 1 ,\t2 , 1.5 ")),
        Ok(Transaction::Deposit(Deposit { client: 1, tx: 2, amount: units(15000) }))
    );
    assert_eq!(
        decode_record(&fields("withdrawal,3,4,2.0,,")),
        Ok(Transaction::Withdrawal(Withdrawal { client: 3, tx: 4, amount: units(20000) }))
    );
    assert_eq!(
        decode_record(&fields("dispute,1,2")),
        Ok(Transaction::Dispute(Dispute { client: 1, tx: 2 }))
    );
    assert_eq!(
        decode_record(&fields("dispute,1,2,junk")),
        Ok(Transaction::Dispute(Dispute { client: 1, tx: 2 }))
    );
}

#[test]
fn row_errors() {
    assert_eq!(decode_record(&fields("deposit,1")), Err(DecodeError::MissingField));
    assert_eq!(decode_record(&fields("refund,1,2,3")), Err(DecodeError::UnknownType));
    assert_eq!(decode_record(&fields("deposit,70000,2,3")), Err(DecodeError::BadClient));
    assert_eq!(decode_record(&fields("deposit,1,x,3")), Err(DecodeError::BadTx));
    assert_eq!(decode_record(&fields("deposit,1,2,")), Err(DecodeError::MissingAmount));
    assert_eq!(decode_record(&fields("withdrawal,1,2")), Err(DecodeError::MissingAmount));
    assert_eq!(
        decode_record(&fields("deposit,1,2,1.00001")),
        Err(DecodeError::UnrepresentableAmount)
    );
    assert_eq!(
        decode_record(&fields("deposit,1,2,1000000000000000000000000.0001")),
        Err(DecodeError::UnrepresentableAmount)
    );
    assert_eq!(decode_record(&fields("deposit,1,2,1e5")), Err(DecodeError::BadAmount));
    assert_eq!(decode_record(&fields("withdrawal,1,2,-")), Err(DecodeError::BadAmount));
    let rec = TransactionRec {
        ttype: TransactionRecType::Dispute,
        client: 1,
        tx: 2,
        amount: None,
    };
    assert_eq!(Deposit::try_from(rec), Err(DecodeError::IncompatibleType));
    assert!(!DecodeError::BadAmount.message().is_empty());
}

#[test]
fn dispatcher_routes_clients_to_fixed_shards() {
    let mut d = Dispatcher::new(2);
    let mut seen = Vec::new();
    for line in [
        "deposit,1,1,1.0",
        "deposit,2,2,1.0",
        "deposit,3,3,1.0",
        "deposit,1,4,1.0",
        "deposit,4,5,1.0",
        "deposit,3,6,1.0",
    ] {
        match d.on_record(Some(fields(line))) {
            Dispatch::Send { record_no, shard, spawn, .. } => seen.push((record_no, shard, spawn)),
            other => panic!("unexpected {:?}", other),
        }
    }
    assert_eq!(
        seen,
        vec![(1, 0, true), (2, 1, true), (3, 0, false), (4, 0, false), (5, 1, false), (6, 0, false)]
    );
    assert_eq!(d.shard_count(), 2);
}

#[test]
fn dispatcher_first_bad_record_is_fatal() {
    let mut d = Dispatcher::new(1);
    assert_eq!(
        d.on_record(Some(fields("type,client,tx,amount"))),
        Dispatch::Fatal(DecodeError::UnknownType)
    );
    let mut d = Dispatcher::new(1);
    assert!(matches!(d.on_record(Some(fields("deposit,1,1,1"))), Dispatch::Send { .. }));
    assert_eq!(
        d.on_record(None),
        Dispatch::Skip(2, SkipReason::Decode(DecodeError::Unreadable))
    );
}

#[test]
fn dispatcher_skips_invalid_and_warns_on_zero() {
    let mut d = Dispatcher::new(3);
    match d.on_record(Some(fields("deposit,1,9,0"))) {
        Dispatch::Send { warning, .. } => assert!(warning.is_some()),
        other => panic!("unexpected {:?}", other),
    }
    match d.on_record(Some(fields("withdrawal,1,10,-2"))) {
        Dispatch::Skip(2, SkipReason::Invalid(10, _)) => {}
        other => panic!("unexpected {:?}", other),
    }
    assert_eq!(d.shard_count(), 1);
}

#[test]
fn dispatcher_warns_on_ignored_amount() {
    let mut d = Dispatcher::new(2);
    assert!(matches!(
        d.on_record(Some(fields("deposit,1,1,2.0"))),
        Dispatch::Send { warning: None, .. }
    ));
    match d.on_record(Some(fields("dispute,1,1,2.0"))) {
        Dispatch::Send { warning, transaction, .. } => {
            assert!(warning.is_some());
            assert_eq!(transaction, Transaction::Dispute(Dispute { client: 1, tx: 1 }));
        }
        other => panic!("unexpected {:?}", other),
    }
    assert!(matches!(
        d.on_record(Some(fields("resolve,1,1, "))),
        Dispatch::Send { warning: None, .. }
    ));
}

#[test]
fn amount_literals_are_told_from_unrepresentable_ones() {
    assert!(is_well_formed_amount(b" -12.5 "));
    assert!(is_well_formed_amount(b"1.234567"));
    assert!(is_well_formed_amount(b"99999999999999999999999999999"));
    assert!(is_well_formed_amount(b".5"));
    assert!(!is_well_formed_amount(b"1e5"));
    assert!(!is_well_formed_amount(b"."));
    assert!(!is_well_formed_amount(b"+"));
    assert!(!is_well_formed_amount(b"1.2.3"));
    assert!(!is_well_formed_amount(b""));
}

#[test]
fn dispatcher_first_record_without_amount_is_skipped() {
    let mut d = Dispatcher::new(1);
    assert_eq!(
        d.on_record(Some(fields("deposit,1,1,"))),
        Dispatch::Skip(1, SkipReason::Decode(DecodeError::MissingAmount))
    );
    assert!(matches!(
        d.on_record(Some(fields("deposit,1,2,3.0"))),
        Dispatch::Send { record_no: 2, .. }
    ));
}

#[test]
fn dispatcher_first_record_unrepresentable_is_skipped() {
    let mut d = Dispatcher::new(1);
    assert_eq!(
        d.on_record(Some(fields("deposit,1,1,99999999999999999999999999999"))),
        Dispatch::Skip(1, SkipReason::Decode(DecodeError::UnrepresentableAmount))
    );
    let mut d = Dispatcher::new(1);
    assert_eq!(
        d.on_record(Some(fields("withdrawal,1,1,0.00001"))),
        Dispatch::Skip(1, SkipReason::Decode(DecodeError::UnrepresentableAmount))
    );
}

#[test]
fn dispatcher_first_record_malformed_is_fatal() {
    let mut d = Dispatcher::new(1);
    assert_eq!(
        d.on_record(Some(fields("deposit,1,1,abc"))),
        Dispatch::Fatal(DecodeError::BadAmount)
    );
    let mut d = Dispatcher::new(1);
    assert_eq!(d.on_record(None), Dispatch::Fatal(DecodeError::Unreadable));
    let mut d = Dispatcher::new(1);
    assert_eq!(
        d.on_record(Some(fields("deposit,x,1,1.0"))),
        Dispatch::Fatal(DecodeError::BadClient)
    );
}

#[test]
fn dropping_an_invalid_row_changes_nothing() {
    let with_invalid = ["deposit,1,1,-5", "deposit,1,2,", "deposit,1,3,2.5"];
    let without = ["deposit,1,2,", "deposit,1,3,2.5"];
    let mut sent_a = Vec::new();
    let mut d = Dispatcher::new(2);
    for line in with_invalid {
        match d.on_record(Some(fields(line))) {
            Dispatch::Fatal(e) => panic!("fatal {:?}", e),
            Dispatch::Send { transaction, .. } => sent_a.push(transaction),
            Dispatch::Skip(..) => {}
        }
    }
    let mut sent_b = Vec::new();
    let mut d = Dispatcher::new(2);
    for line in without {
        match d.on_record(Some(fields(line))) {
            Dispatch::Fatal(e) => panic!("fatal {:?}", e),
            Dispatch::Send { transaction, .. } => sent_b.push(transaction),
            Dispatch::Skip(..) => {}
        }
    }
    assert_eq!(sent_a, sent_b);
    assert_eq!(sent_a.len(), 1);
}
