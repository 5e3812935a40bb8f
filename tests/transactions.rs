use std::collections::HashMap;

use toy_trx_engine::accounts::{create_accounts, AccountState};
use toy_trx_engine::decode::{parse_amount, TransactionRec, TransactionRecType};
use toy_trx_engine::money::Money;
use toy_trx_engine::transactions::{
    Chargeback, Deposit, Dispute, Resolve, TransactionInt, Withdrawal,
};
use toy_trx_engine::TClientId;

fn dec(s: &str) -> Money {
    parse_amount(s.as_bytes()).expect("decimal literal")
}

fn plus(a: Money, b: Money) -> Money {
    a.checked_add(&b).expect("sum in range")
}

fn minus(a: Money, b: Money) -> Money {
    a.checked_sub(&b).expect("difference in range")
}

fn acct(accounts: &HashMap<TClientId, AccountState>, client: TClientId) -> &AccountState {
    accounts.get(&client).expect("client 1 in test accounts")
}

fn dispute_from_record(client: TClientId, tx: u32) -> Dispute {
    Dispute::try_from(TransactionRec {
        ttype: TransactionRecType::Dispute,
        client,
        tx,
        amount: None,
    })
    .expect("Dispute transaction from transaction record")
}

// Deposit

#[test]
fn deposit_on_locked() {
    let mut accounts = create_accounts(&[dec("0.0")]);
    accounts.get_mut(&1).expect("client 1 in test accounts").locked = true;
    let trx = Deposit { client: 1, tx: 1, amount: dec("1.0") };
    assert!(trx.commit(&mut accounts).is_err());
}

#[test]
fn deposit_on_normal() {
    let mut accounts = create_accounts(&[dec("2.0")]);
    let trx = Deposit { client: 1, tx: 1, amount: dec("1.0") };
    let old_balance = acct(&accounts, trx.client).available;
    assert!(trx.commit(&mut accounts).is_ok());
    let new_balance = acct(&accounts, trx.client).available;
    assert_eq!(plus(old_balance, trx.amount), new_balance);
}

#[test]
fn new_client() {
    let mut accounts = create_accounts(&[dec("2.0")]);
    let trx = Deposit { client: 10, tx: 1, amount: dec("1.0") };
    assert!(accounts.get(&trx.client).is_none());
    assert!(trx.commit(&mut accounts).is_ok());
    let new_balance = accounts.get(&trx.client).expect("new client in test accounts").available;
    assert_eq!(trx.amount, new_balance);
}

#[test]
fn deposit_duplicated_tx_id() {
    let mut accounts = create_accounts(&[dec("2.0")]);
    let trx1 = Deposit { client: 1, tx: 1, amount: dec("0.1") };
    assert!(trx1.commit(&mut accounts).is_ok());
    let trx2 = Deposit { client: 1, tx: 1, amount: dec("0.1") };
    assert!(trx2.commit(&mut accounts).is_err());
    let trx3 = Deposit { client: 1, tx: 2, amount: dec("0.1") };
    assert!(trx3.commit(&mut accounts).is_ok());
}

// Withdrawal

#[test]
fn withdrawal_on_locked() {
    let mut accounts = create_accounts(&[dec("2.0")]);
    accounts.get_mut(&1).expect("client 1 in test accounts").locked = true;
    let trx = Withdrawal { client: 1, tx: 1, amount: dec("1.0") };
    assert!(trx.commit(&mut accounts).is_err());
}

#[test]
fn withdrawal_on_normal() {
    let mut accounts = create_accounts(&[dec("2.0")]);
    let trx = Withdrawal { client: 1, tx: 1, amount: dec("1.0") };
    let old_balance = acct(&accounts, trx.client).available;
    assert!(trx.commit(&mut accounts).is_ok());
    let new_balance = acct(&accounts, trx.client).available;
    assert_eq!(minus(old_balance, trx.amount), new_balance);
}

#[test]
fn withdrawal_unknown_client() {
    let mut accounts = create_accounts(&[dec("2.0")]);
    let trx = Withdrawal { client: 10, tx: 1, amount: dec("1.0") };
    assert!(accounts.get(&trx.client).is_none());
    assert!(trx.commit(&mut accounts).is_err());
}

#[test]
fn over_balance() {
    let mut accounts = create_accounts(&[dec("2.0")]);
    let mut trx = Withdrawal { client: 1, tx: 1, amount: dec("1.0") };
    let old_balance = acct(&accounts, trx.client).available;
    trx.amount = plus(old_balance, dec("0.1"));
    assert!(trx.commit(&mut accounts).is_err());
}

#[test]
fn withdrawal_duplicated_tx_id() {
    let mut accounts = create_accounts(&[dec("2.0")]);
    let trx1 = Withdrawal { client: 1, tx: 1, amount: dec("0.1") };
    assert!(trx1.commit(&mut accounts).is_ok());
    let trx2 = Withdrawal { client: 1, tx: 1, amount: dec("0.1") };
    assert!(trx2.commit(&mut accounts).is_err());
    let trx3 = Withdrawal { client: 1, tx: 2, amount: dec("0.1") };
    assert!(trx3.commit(&mut accounts).is_ok());
}

#[test]
fn roundings() {
    let mut accounts = create_accounts(&[dec("0.0")]);
    let client = 1;
    let mut id = 1;
    let trx = Deposit::test(client, id, dec("10.1"));
    id += 1;
    assert!(trx.commit(&mut accounts).is_ok());
    assert_eq!(dec("10.1"), acct(&accounts, client).total());
    let trx = Deposit::test(client, id, dec("10.2"));
    id += 1;
    assert!(trx.commit(&mut accounts).is_ok());
    assert_eq!(dec("20.3"), acct(&accounts, client).total());
    let trx = Withdrawal { client, tx: id, amount: dec("0.33") };
    assert!(trx.commit(&mut accounts).is_ok());
    assert_eq!(dec("19.97"), acct(&accounts, client).total());
}

// Dispute

#[test]
fn dispute_on_locked() {
    let mut accounts = create_accounts(&[dec("0.0")]);
    accounts.get_mut(&1).expect("client 1 in test accounts").locked = true;
    let trx = Dispute { client: 1, tx: 1 };
    assert!(trx.commit(&mut accounts).is_err());
}

#[test]
fn dispute_on_normal_deposit() {
    let mut accounts = create_accounts(&[dec("2.0")]);
    let client = 1;
    let tx = 1;
    let amount = dec("1.5");
    let trx1 = Deposit::test(client, tx, amount);
    assert!(trx1.commit(&mut accounts).is_ok());

    let old_balance = acct(&accounts, client).available;
    let old_total = acct(&accounts, client).total();
    let trx2 = Dispute { client, tx };
    assert!(trx2.commit(&mut accounts).is_ok());
    let new_balance = acct(&accounts, client).available;
    let new_total = acct(&accounts, client).total();
    assert_eq!(minus(old_balance, amount), new_balance);
    assert_eq!(old_total, new_total);
}

#[test]
fn dispute_on_normal_withdrawal() {
    let mut accounts = create_accounts(&[dec("2.0")]);
    let client = 1;
    let tx = 1;
    let amount = dec("1.5");
    let trx1 = Withdrawal::test(client, tx, amount);
    assert!(trx1.commit(&mut accounts).is_ok());

    let old_balance = acct(&accounts, client).available;
    let old_total = acct(&accounts, client).total();
    let trx2 = Dispute { client, tx };
    assert!(trx2.commit(&mut accounts).is_ok());
    let new_balance = acct(&accounts, client).available;
    let new_total = acct(&accounts, client).total();
    assert_eq!(plus(old_balance, amount), new_balance);
    assert_eq!(old_total, new_total);
}

#[test]
fn dispute_unknown_client() {
    let mut accounts = create_accounts(&[dec("2.0")]);
    let trx = Dispute { client: 10, tx: 1 };
    assert!(accounts.get(&trx.client).is_none());
    assert!(trx.commit(&mut accounts).is_err());
}

#[test]
fn dispute_unknown_transaction() {
    let mut accounts = create_accounts(&[dec("2.0")]);
    let client = 1;
    let tx = 1;
    let amount = dec("1.5");
    let trx1 = Deposit::test(client, tx, amount);
    assert!(trx1.commit(&mut accounts).is_ok());

    let old_balance = acct(&accounts, client).available;
    let old_total = acct(&accounts, client).total();
    let trx2 = Dispute { client, tx: tx + 1 };
    assert!(trx2.commit(&mut accounts).is_err());
    let new_balance = acct(&accounts, client).available;
    let new_total = acct(&accounts, client).total();
    assert_eq!(old_balance, new_balance);
    assert_eq!(old_total, new_total);
}

#[test]
fn second_dispute() {
    let mut accounts = create_accounts(&[dec("2.0")]);
    let client = 1;
    let tx = 1;
    let amount = dec("1.5");
    let trx1 = Deposit::test(client, tx, amount);
    assert!(trx1.commit(&mut accounts).is_ok());

    let old_balance = acct(&accounts, client).available;
    let old_total = acct(&accounts, client).total();
    let trx2 = Dispute { client, tx };
    assert!(trx2.commit(&mut accounts).is_ok());
    let trx3 = Dispute { client, tx };
    assert!(trx3.commit(&mut accounts).is_ok());
    let new_balance = acct(&accounts, client).available;
    let new_total = acct(&accounts, client).total();
    assert_eq!(minus(old_balance, amount), new_balance);
    assert_eq!(old_total, new_total);
}

#[test]
fn on_failed() {
    let mut accounts = create_accounts(&[dec("2.0")]);
    let client = 1;
    let trx1 = Withdrawal::test(client, 1, dec("1.0"));
    assert!(trx1.commit(&mut accounts).is_ok());
    let balance = acct(&accounts, client).available;
    let trx2 = Withdrawal::test(client, 2, plus(balance, dec("1.0")));
    assert!(trx2.commit(&mut accounts).is_err());
    let trx3 = Dispute { client, tx: 2 };
    assert!(trx3.commit(&mut accounts).is_err());
}

// Resolve

#[test]
fn resolve_on_locked() {
    let mut accounts = create_accounts(&[dec("0.0")]);
    accounts.get_mut(&1).expect("client 1 in test accounts").locked = true;
    let trx = Resolve { client: 1, tx: 1 };
    assert!(trx.commit(&mut accounts).is_err());
}

#[test]
fn resolve_on_normal_deposit() {
    let mut accounts = create_accounts(&[dec("2.0")]);
    let client = 1;
    let tx = 1;
    let amount = dec("1.5");
    let trx1 = Deposit::test(client, tx, amount);
    assert!(trx1.commit(&mut accounts).is_ok());

    let old_balance = acct(&accounts, client).available;
    let old_total = acct(&accounts, client).total();
    let trx2 = dispute_from_record(client, tx);
    assert!(trx2.commit(&mut accounts).is_ok());
    let trx3 = Resolve { client, tx };
    assert!(trx3.commit(&mut accounts).is_ok());
    let new_balance = acct(&accounts, client).available;
    let new_total = acct(&accounts, client).total();
    assert_eq!(old_balance, new_balance);
    assert_eq!(old_total, new_total);
}

#[test]
fn resolve_on_normal_withdrawal() {
    let mut accounts = create_accounts(&[dec("2.0")]);
    let client = 1;
    let tx = 1;
    let amount = dec("1.5");
    let trx1 = Withdrawal::test(client, tx, amount);
    assert!(trx1.commit(&mut accounts).is_ok());

    let old_balance = acct(&accounts, client).available;
    let old_total = acct(&accounts, client).total();
    let trx2 = dispute_from_record(client, tx);
    assert!(trx2.commit(&mut accounts).is_ok());
    let trx3 = Resolve { client, tx };
    assert!(trx3.commit(&mut accounts).is_ok());
    let new_balance = acct(&accounts, client).available;
    let new_total = acct(&accounts, client).total();
    assert_eq!(old_balance, new_balance);
    assert_eq!(old_total, new_total);
}

#[test]
fn resolve_unknown_client() {
    let mut accounts = create_accounts(&[dec("2.0")]);
    let trx = Resolve { client: 10, tx: 1 };
    assert!(accounts.get(&trx.client).is_none());
    assert!(trx.commit(&mut accounts).is_err());
}

#[test]
fn resolve_unknown_transaction() {
    let mut accounts = create_accounts(&[dec("2.0")]);
    let client = 1;
    let tx = 1;
    let amount = dec("1.5");
    let trx1 = Deposit::test(client, tx, amount);
    assert!(trx1.commit(&mut accounts).is_ok());

    let old_balance = acct(&accounts, client).available;
    let old_total = acct(&accounts, client).total();
    let trx2 = Resolve { client, tx: tx + 1 };
    assert!(trx2.commit(&mut accounts).is_err());
    let new_balance = acct(&accounts, client).available;
    let new_total = acct(&accounts, client).total();
    assert_eq!(old_balance, new_balance);
    assert_eq!(old_total, new_total);
}

#[test]
fn second_resolve() {
    let mut accounts = create_accounts(&[dec("2.0")]);
    let client = 1;
    let tx = 1;
    let amount = dec("1.5");
    let trx1 = Deposit::test(client, tx, amount);
    assert!(trx1.commit(&mut accounts).is_ok());

    let old_balance = acct(&accounts, client).available;
    let old_total = acct(&accounts, client).total();
    let trx2 = dispute_from_record(client, tx);
    assert!(trx2.commit(&mut accounts).is_ok());
    let trx3 = Resolve { client, tx };
    assert!(trx3.commit(&mut accounts).is_ok());
    let trx4 = Resolve { client, tx };
    assert!(trx4.commit(&mut accounts).is_err());
    let new_balance = acct(&accounts, client).available;
    let new_total = acct(&accounts, client).total();
    assert_eq!(old_balance, new_balance);
    assert_eq!(old_total, new_total);
}

#[test]
fn resolve_without_dispute() {
    let mut accounts = create_accounts(&[dec("2.0")]);
    let client = 1;
    let tx = 1;
    let amount = dec("1.5");
    let trx1 = Withdrawal::test(client, tx, amount);
    assert!(trx1.commit(&mut accounts).is_ok());

    let old_balance = acct(&accounts, client).available;
    let old_total = acct(&accounts, client).total();
    let trx3 = Resolve { client, tx };
    assert!(trx3.commit(&mut accounts).is_err());
    let new_balance = acct(&accounts, client).available;
    let new_total = acct(&accounts, client).total();
    assert_eq!(old_balance, new_balance);
    assert_eq!(old_total, new_total);
}

#[test]
fn several_disputes() {
    let mut accounts = create_accounts(&[dec("2.0")]);
    let client = 1;
    let trx = Deposit::test(client, 1, dec("10.1"));
    assert!(trx.commit(&mut accounts).is_ok());
    assert_eq!(dec("12.1"), acct(&accounts, client).total());
    let trx = Deposit::test(client, 2, dec("10.2"));
    assert!(trx.commit(&mut accounts).is_ok());
    assert_eq!(dec("22.3"), acct(&accounts, client).total());

    let trx = dispute_from_record(client, 1);
    assert!(trx.commit(&mut accounts).is_ok());
    assert_eq!(dec("22.3"), acct(&accounts, client).total());
    let trx = dispute_from_record(client, 2);
    assert!(trx.commit(&mut accounts).is_ok());
    assert_eq!(dec("22.3"), acct(&accounts, client).total());
    let trx = Resolve { client, tx: 2 };
    assert!(trx.commit(&mut accounts).is_ok());
    assert_eq!(dec("22.3"), acct(&accounts, client).total());
    let trx = Resolve { client, tx: 1 };
    assert!(trx.commit(&mut accounts).is_ok());
    assert_eq!(dec("22.3"), acct(&accounts, client).total());
}

// Chargeback

#[test]
fn chargeback_on_locked() {
    let mut accounts = create_accounts(&[dec("2.0")]);
    accounts.get_mut(&1).expect("client 1 in test accounts").locked = true;
    let trx = Chargeback { client: 1, tx: 1 };
    assert!(trx.commit(&mut accounts).is_err());
}

#[test]
fn chargeback_on_normal_deposit() {
    let mut accounts = create_accounts(&[dec("2.0")]);
    let client = 1;
    let tx = 1;
    let amount = dec("1.5");
    let trx1 = Deposit::test(client, tx, amount);
    assert!(trx1.commit(&mut accounts).is_ok());

    let old_balance = acct(&accounts, client).available;
    let old_total = acct(&accounts, client).total();
    let trx2 = dispute_from_record(client, tx);
    assert!(trx2.commit(&mut accounts).is_ok());
    let trx3 = Chargeback { client, tx };
    assert!(trx3.commit(&mut accounts).is_ok());
    let new_balance = acct(&accounts, client).available;
    let new_total = acct(&accounts, client).total();
    assert_eq!(minus(old_balance, amount), new_balance);
    assert_eq!(minus(old_total, amount), new_total);
    assert!(acct(&accounts, client).locked);
}

#[test]
fn chargeback_on_normal_withdrawal() {
    let mut accounts = create_accounts(&[dec("2.0")]);
    let client = 1;
    let tx = 1;
    let amount = dec("1.5");
    let trx1 = Withdrawal::test(client, tx, amount);
    assert!(trx1.commit(&mut accounts).is_ok());

    let old_balance = acct(&accounts, client).available;
    let old_total = acct(&accounts, client).total();
    let trx2 = dispute_from_record(client, tx);
    assert!(trx2.commit(&mut accounts).is_ok());
    let trx3 = Chargeback { client, tx };
    assert!(trx3.commit(&mut accounts).is_ok());
    let new_balance = acct(&accounts, client).available;
    let new_total = acct(&accounts, client).total();
    assert_eq!(plus(old_balance, amount), new_balance);
    assert_eq!(plus(old_total, amount), new_total);
    assert!(acct(&accounts, client).locked);
}

#[test]
fn chargeback_unknown_client() {
    let mut accounts = create_accounts(&[dec("2.0")]);
    let trx = Chargeback { client: 10, tx: 1 };
    assert!(accounts.get(&trx.client).is_none());
    assert!(trx.commit(&mut accounts).is_err());
}

#[test]
fn chargeback_unknown_transaction() {
    let mut accounts = create_accounts(&[dec("2.0")]);
    let client = 1;
    let tx = 1;
    let amount = dec("1.5");
    let trx1 = Deposit::test(client, tx, amount);
    assert!(trx1.commit(&mut accounts).is_ok());

    let old_balance = acct(&accounts, client).available;
    let old_total = acct(&accounts, client).total();
    let trx2 = Chargeback { client, tx: tx + 1 };
    assert!(trx2.commit(&mut accounts).is_err());
    let new_balance = acct(&accounts, client).available;
    let new_total = acct(&accounts, client).total();
    assert_eq!(old_balance, new_balance);
    assert_eq!(old_total, new_total);
    assert!(!acct(&accounts, client).locked);
}

#[test]
fn chargeback_without_dispute() {
    let mut accounts = create_accounts(&[dec("2.0")]);
    let client = 1;
    let tx = 1;
    let amount = dec("1.5");
    let trx1 = Withdrawal::test(client, tx, amount);
    assert!(trx1.commit(&mut accounts).is_ok());

    let old_balance = acct(&accounts, client).available;
    let old_total = acct(&accounts, client).total();
    let trx3 = Chargeback { client, tx };
    assert!(trx3.commit(&mut accounts).is_err());
    let new_balance = acct(&accounts, client).available;
    let new_total = acct(&accounts, client).total();
    assert_eq!(old_balance, new_balance);
    assert_eq!(old_total, new_total);
    assert!(!acct(&accounts, client).locked);
}
