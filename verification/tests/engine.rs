use payments_engine::dlq::StdErrDLQ;
use payments_engine::domain::account::Account;
use payments_engine::domain::error::{EngineError, Error};
use payments_engine::domain::money::Money;
use payments_engine::domain::traits::OutputRepository;
use payments_engine::domain::transaction::{Transaction, TransactionKind};
use payments_engine::engine::Engine;
use payments_engine::ingestion::CsvReader;
use payments_engine::output_repository::StdOutOutput;

fn mk_engine() -> Engine<CsvReader, StdOutOutput, StdErrDLQ> {
    Engine::new(CsvReader::new(Vec::new()).expect("reader"), StdOutOutput::new(), StdErrDLQ::new())
}

fn units(n: i128) -> Money {
    Money::from_scaled_i128(n, 0).expect("amount")
}

fn deposit(client_id: u16, transaction_id: u32, amount: Money) -> Transaction {
    Transaction { kind: TransactionKind::Deposit { amount }, client_id, transaction_id }
}

fn withdrawal(client_id: u16, transaction_id: u32, amount: Money) -> Transaction {
    Transaction { kind: TransactionKind::Withdrawal { amount }, client_id, transaction_id }
}

fn refer(kind: TransactionKind, client_id: u16, transaction_id: u32) -> Transaction {
    Transaction { kind, client_id, transaction_id }
}

fn account(engine: &mut Engine<CsvReader, StdOutOutput, StdErrDLQ>, client_id: u16) -> Account {
    *engine.output_repository.get_or_create_account(&client_id)
}

fn refusal(result: Result<(), Error>) -> EngineError {
    match result {
        Err(Error::Engine(e)) => e,
        other => panic!("unexpected: {:?}", other),
    }
}

#[test]
fn deposit_increases_available_and_total() {
    let mut engine = mk_engine();
    let tx = Transaction {
        kind: TransactionKind::Deposit { amount: units(100) },
        client_id: 1,
        transaction_id: 1,
    };

    engine.deposit(&tx, units(100)).expect("deposit ok");

    let acct = engine.output_repository.get_or_create_account(&1);
    assert_eq!(acct.available, units(100));
    assert_eq!(acct.held, units(0));
    assert_eq!(acct.total, units(100));
    assert!(!acct.locked);
}

#[test]
fn withdrawal_with_insufficient_funds_errors_and_does_not_change_balances() {
    let mut engine = mk_engine();
    let tx = Transaction {
        kind: TransactionKind::Withdrawal { amount: units(50) },
        client_id: 1,
        transaction_id: 2,
    };

    let res = engine.withraw(&tx, units(50));
    assert!(res.is_err());

    let acct = engine.output_repository.get_or_create_account(&1);
    assert_eq!(acct.available, units(0));
    assert_eq!(acct.held, units(0));
    assert_eq!(acct.total, units(0));
}

#[test]
fn dispute_moves_available_to_held_and_marks_disputed() {
    let mut engine = mk_engine();
    let dep = Transaction {
        kind: TransactionKind::Deposit { amount: units(75) },
        client_id: 1,
        transaction_id: 10,
    };
    engine.deposit(&dep, units(75)).unwrap();

    let dispute = Transaction { kind: TransactionKind::Dispute, client_id: 1, transaction_id: 10 };
    engine.dispute(&dispute).expect("dispute ok");

    let acct = engine.output_repository.get_or_create_account(&1);
    assert_eq!(acct.available, units(0));
    assert_eq!(acct.held, units(75));
    assert_eq!(acct.available.checked_add(acct.held), Some(acct.total));
    assert!(engine.output_repository.has_dispute(10));
}

#[test]
fn resolve_moves_held_back_and_clears_dispute() {
    let mut engine = mk_engine();
    let dep = Transaction {
        kind: TransactionKind::Deposit { amount: units(40) },
        client_id: 2,
        transaction_id: 20,
    };
    engine.deposit(&dep, units(40)).unwrap();
    let dispute = Transaction { kind: TransactionKind::Dispute, client_id: 2, transaction_id: 20 };
    engine.dispute(&dispute).unwrap();

    let resolve = Transaction { kind: TransactionKind::Resolve, client_id: 2, transaction_id: 20 };
    engine.resolve(&resolve).expect("resolve ok");

    let acct = engine.output_repository.get_or_create_account(&2);
    assert_eq!(acct.available, units(40));
    assert_eq!(acct.held, units(0));
    assert_eq!(acct.available.checked_add(acct.held), Some(acct.total));
    assert!(!engine.output_repository.has_dispute(20));
}

#[test]
fn chargeback_locks_account_and_adjusts_balances() {
    let mut engine = mk_engine();
    let dep = Transaction {
        kind: TransactionKind::Deposit { amount: units(60) },
        client_id: 3,
        transaction_id: 30,
    };
    engine.deposit(&dep, units(60)).unwrap();
    let dispute = Transaction { kind: TransactionKind::Dispute, client_id: 3, transaction_id: 30 };
    engine.dispute(&dispute).unwrap();

    // Perform chargeback
    let chargeback =
        Transaction { kind: TransactionKind::Chargeback, client_id: 3, transaction_id: 30 };
    engine.chargeback(chargeback).expect("chargeback ok");

    // The held funds are clawed back: nothing is credited to the client.
    let acct = engine.output_repository.get_or_create_account(&3);
    assert!(acct.locked);
    assert_eq!(acct.available, units(0));
    assert_eq!(acct.held, units(0));
    assert_eq!(acct.total, units(0));
}

#[test]
fn new_account_is_empty_and_unlocked() {
    let acct = Account::new();
    assert_eq!(
        acct,
        Account { available: Money(0), held: Money(0), total: Money(0), locked: false }
    );
}

#[test]
fn sync_total_adds_the_two_balances() {
    let mut acct =
        Account { available: Money(15_000), held: Money(-2_500), total: Money(7), locked: true };
    acct.sync_total();
    assert_eq!(
        acct,
        Account { available: Money(15_000), held: Money(-2_500), total: Money(12_500), locked: true }
    );
}

#[test]
fn duplicate_id_is_rejected_once() {
    let mut engine = mk_engine();
    assert!(engine.apply_transaction(deposit(1, 7, units(10))).is_ok());
    let second = engine.apply_transaction(deposit(1, 7, units(10)));
    assert_eq!(refusal(second), EngineError::DuplicateTransactionId { transaction_id: 7 });
    let acct = account(&mut engine, 1);
    assert_eq!(acct.available, units(10));
    assert_eq!(acct.total, units(10));

    // a withdrawal under the id of a deposit, by another client
    let third = engine.apply_transaction(withdrawal(2, 7, units(1)));
    assert_eq!(refusal(third), EngineError::DuplicateTransactionId { transaction_id: 7 });
    assert_eq!(account(&mut engine, 2), Account::new());
    assert_eq!(account(&mut engine, 1).available, units(10));
}

#[test]
fn duplicate_id_comes_before_insufficient_funds() {
    let mut engine = mk_engine();
    engine.apply_transaction(deposit(1, 1, units(5))).unwrap();
    let result = engine.apply_transaction(withdrawal(1, 1, units(50)));
    assert_eq!(refusal(result), EngineError::DuplicateTransactionId { transaction_id: 1 });
}

#[test]
fn dispute_lifecycle() {
    let mut engine = mk_engine();
    engine.apply_transaction(deposit(1, 1, units(100))).unwrap();

    engine.apply_transaction(refer(TransactionKind::Dispute, 1, 1)).unwrap();
    let acct = account(&mut engine, 1);
    assert_eq!((acct.available, acct.held, acct.total), (units(0), units(100), units(100)));
    assert!(engine.output_repository.has_dispute(1));

    engine.apply_transaction(refer(TransactionKind::Resolve, 1, 1)).unwrap();
    let acct = account(&mut engine, 1);
    assert_eq!((acct.available, acct.held, acct.total), (units(100), units(0), units(100)));
    assert!(!engine.output_repository.has_dispute(1));

    let again = engine.apply_transaction(refer(TransactionKind::Resolve, 1, 1));
    assert_eq!(refusal(again), EngineError::NotDisputed);
    let acct = account(&mut engine, 1);
    assert_eq!((acct.available, acct.held, acct.total), (units(100), units(0), units(100)));
    assert!(!acct.locked);
}

#[test]
fn chargeback_locks_the_account_for_good() {
    let mut engine = mk_engine();
    engine.apply_transaction(deposit(3, 30, units(60))).unwrap();
    engine.apply_transaction(deposit(3, 31, units(5))).unwrap();
    engine.apply_transaction(refer(TransactionKind::Dispute, 3, 30)).unwrap();
    engine.apply_transaction(refer(TransactionKind::Chargeback, 3, 30)).unwrap();

    let locked = account(&mut engine, 3);
    assert_eq!(
        locked,
        Account { available: units(5), held: units(0), total: units(5), locked: true }
    );
    // the transaction stays under dispute
    assert!(engine.output_repository.has_dispute(30));

    for tx in [
        deposit(3, 32, units(1)),
        withdrawal(3, 33, units(1)),
        refer(TransactionKind::Dispute, 3, 31),
        refer(TransactionKind::Resolve, 3, 30),
        refer(TransactionKind::Chargeback, 3, 30),
        refer(TransactionKind::Dispute, 3, 999),
    ] {
        let result = engine.apply_transaction(tx);
        assert_eq!(refusal(result), EngineError::AccountLocked { client_id: 3 });
        assert_eq!(account(&mut engine, 3), locked);
    }
    // the refused deposit was not recorded
    assert!(engine.output_repository.get_transaction(32).is_none());
    // other clients go on
    engine.apply_transaction(deposit(4, 40, units(1))).unwrap();
    assert_eq!(account(&mut engine, 4).available, units(1));
}

#[test]
fn insufficient_funds_changes_nothing() {
    let mut engine = mk_engine();
    let result = engine.apply_transaction(withdrawal(1, 2, units(50)));
    assert_eq!(refusal(result), EngineError::InsufficientFunds { client_id: 1 });
    assert_eq!(account(&mut engine, 1), Account::new());
    // the refused withdrawal was not recorded: its id is still free
    assert!(engine.output_repository.get_transaction(2).is_none());
    engine.apply_transaction(deposit(1, 2, units(50))).unwrap();
    assert_eq!(account(&mut engine, 1).available, units(50));
}

#[test]
fn withdrawal_takes_from_available() {
    let mut engine = mk_engine();
    engine.apply_transaction(deposit(1, 1, Money(1_000_003))).unwrap();
    engine.apply_transaction(withdrawal(1, 2, Money(300_000))).unwrap();
    let acct = account(&mut engine, 1);
    assert_eq!(
        acct,
        Account { available: Money(700_003), held: Money(0), total: Money(700_003), locked: false }
    );
    // all of it
    engine.apply_transaction(withdrawal(1, 3, Money(700_003))).unwrap();
    assert_eq!(account(&mut engine, 1), Account::new());
    let result = engine.apply_transaction(withdrawal(1, 4, Money(1)));
    assert_eq!(refusal(result), EngineError::InsufficientFunds { client_id: 1 });
}

#[test]
fn reference_to_unknown_transaction() {
    let mut engine = mk_engine();
    engine.apply_transaction(deposit(1, 1, units(10))).unwrap();
    for kind in [TransactionKind::Dispute, TransactionKind::Resolve, TransactionKind::Chargeback] {
        let result = engine.apply_transaction(refer(kind, 1, 2));
        assert_eq!(refusal(result), EngineError::UnknownReferencedTransaction);
    }
    assert_eq!(account(&mut engine, 1).available, units(10));
    assert!(!account(&mut engine, 1).locked);
}

#[test]
fn reference_to_another_clients_transaction() {
    let mut engine = mk_engine();
    engine.apply_transaction(deposit(1, 1, units(10))).unwrap();
    for kind in [TransactionKind::Dispute, TransactionKind::Resolve, TransactionKind::Chargeback] {
        let result = engine.apply_transaction(refer(kind, 2, 1));
        assert_eq!(refusal(result), EngineError::ClientMismatch);
    }
    assert!(!engine.output_repository.has_dispute(1));
    assert_eq!(account(&mut engine, 1).available, units(10));
    assert_eq!(account(&mut engine, 2), Account::new());
}

#[test]
fn chargeback_needs_a_dispute() {
    let mut engine = mk_engine();
    engine.apply_transaction(deposit(1, 1, units(10))).unwrap();
    let result = engine.apply_transaction(refer(TransactionKind::Chargeback, 1, 1));
    assert_eq!(refusal(result), EngineError::NotDisputed);
    let acct = account(&mut engine, 1);
    assert_eq!(acct, Account { available: units(10), held: units(0), total: units(10), locked: false });
}

#[test]
fn dispute_of_a_withdrawal() {
    let mut engine = mk_engine();
    engine.apply_transaction(deposit(1, 1, units(10))).unwrap();
    engine.apply_transaction(withdrawal(1, 2, units(4))).unwrap();
    engine.apply_transaction(refer(TransactionKind::Dispute, 1, 2)).unwrap();
    let acct = account(&mut engine, 1);
    assert_eq!(acct, Account { available: units(2), held: units(4), total: units(6), locked: false });
}

#[test]
fn dispute_can_leave_available_negative() {
    let mut engine = mk_engine();
    engine.apply_transaction(deposit(1, 1, units(10))).unwrap();
    engine.apply_transaction(withdrawal(1, 2, units(8))).unwrap();
    engine.apply_transaction(refer(TransactionKind::Dispute, 1, 1)).unwrap();
    let acct = account(&mut engine, 1);
    assert_eq!(acct, Account { available: units(-8), held: units(10), total: units(2), locked: false });
    engine.apply_transaction(refer(TransactionKind::Chargeback, 1, 1)).unwrap();
    let acct = account(&mut engine, 1);
    assert_eq!(acct, Account { available: units(-8), held: units(0), total: units(-8), locked: true });
}

#[test]
fn balance_overflow_is_refused() {
    let mut engine = mk_engine();
    engine.apply_transaction(deposit(1, 1, Money(i64::MAX))).unwrap();
    let result = engine.apply_transaction(deposit(1, 2, Money(1)));
    assert_eq!(refusal(result), EngineError::BalanceOverflow { client_id: 1 });
    let acct = account(&mut engine, 1);
    assert_eq!(
        acct,
        Account { available: Money(i64::MAX), held: Money(0), total: Money(i64::MAX), locked: false }
    );
    assert!(engine.output_repository.get_transaction(2).is_none());
    // a second dispute of one deposit would take the available funds below the range
    engine.apply_transaction(refer(TransactionKind::Dispute, 1, 1)).unwrap();
    engine.apply_transaction(refer(TransactionKind::Dispute, 1, 1)).unwrap_err();
    let acct = account(&mut engine, 1);
    assert_eq!(
        acct,
        Account { available: Money(0), held: Money(i64::MAX), total: Money(i64::MAX), locked: false }
    );
}

#[test]
fn total_is_the_sum_after_every_transaction() {
    let mut engine = mk_engine();
    let transactions = [
        deposit(1, 1, Money(1_000_003)),
        deposit(2, 2, Money(500_001)),
        withdrawal(1, 3, Money(300_000)),
        refer(TransactionKind::Dispute, 1, 1),
        withdrawal(1, 5, Money(1)),
        refer(TransactionKind::Resolve, 1, 1),
        withdrawal(2, 4, Money(600_000)),
        refer(TransactionKind::Chargeback, 1, 1),
        refer(TransactionKind::Dispute, 2, 2),
        refer(TransactionKind::Dispute, 1, 3),
        refer(TransactionKind::Chargeback, 2, 2),
        deposit(2, 6, Money(5)),
        refer(TransactionKind::Chargeback, 1, 3),
    ];
    for tx in transactions {
        let _ = engine.apply_transaction(tx);
        for client_id in [1u16, 2u16] {
            let acct = account(&mut engine, client_id);
            assert_eq!(acct.available.checked_add(acct.held), Some(acct.total));
        }
    }
    // client 1: 100.0003 in, 30 out, then the withdrawal disputed and charged back
    assert_eq!(
        account(&mut engine, 1),
        Account { available: Money(400_003), held: Money(0), total: Money(400_003), locked: true }
    );
    assert_eq!(
        account(&mut engine, 2),
        Account { available: Money(0), held: Money(0), total: Money(0), locked: true }
    );
}

#[test]
fn store_keeps_transactions_and_flags() {
    let mut store = StdOutOutput::new();
    let tx = deposit(9, 90, units(1));
    assert!(store.get_transaction(90).is_none());
    assert!(!store.has_dispute(90));
    store.report_transaction(&90, &tx).unwrap();
    assert_eq!(store.get_transaction(90), Some(&tx));
    assert!(!store.has_dispute(90));

    let other = withdrawal(8, 90, units(2));
    let second = store.report_transaction(&90, &other);
    assert!(matches!(
        second,
        Err(Error::Engine(EngineError::DuplicateTransactionId { transaction_id: 90 }))
    ));
    assert_eq!(store.get_transaction(90), Some(&tx));

    store.mark_transaction_disputed(90);
    assert!(store.has_dispute(90));
    store.mark_transaction_disputed(90);
    assert!(store.has_dispute(90));
    store.mark_transaction_resolved(90);
    assert!(!store.has_dispute(90));
    store.mark_transaction_resolved(90);
    assert!(!store.has_dispute(90));
    assert_eq!(store.get_transaction(90), Some(&tx));

    // unknown ids are left alone
    store.mark_transaction_disputed(91);
    assert!(!store.has_dispute(91));
    assert!(store.get_transaction(91).is_none());
}

#[test]
fn store_opens_accounts_on_first_access() {
    let mut store = StdOutOutput::new();
    assert_eq!(*store.get_or_create_account(&5), Account::new());
    store.get_or_create_account(&5).available = Money(7);
    assert_eq!(store.get_or_create_account(&5).available, Money(7));
    assert_eq!(*store.get_or_create_account(&6), Account::new());
}

#[test]
fn flush_lists_accounts_by_client() {
    let mut engine = mk_engine();
    assert_eq!(engine.flush(), vec!["client,available,held,total,locked".to_string()]);
    engine.apply_transaction(deposit(300, 1, Money(15_004))).unwrap();
    engine.apply_transaction(deposit(2, 2, Money(20_003))).unwrap();
    engine.apply_transaction(deposit(65_535, 3, Money(1))).unwrap();
    engine.apply_transaction(deposit(0, 4, Money(10_000))).unwrap();
    engine.apply_transaction(refer(TransactionKind::Dispute, 2, 2)).unwrap();
    engine.apply_transaction(refer(TransactionKind::Chargeback, 2, 2)).unwrap();
    engine.apply_transaction(refer(TransactionKind::Dispute, 300, 1)).unwrap();
    let _ = engine.apply_transaction(withdrawal(7, 5, Money(1)));
    let lines = engine.flush();
    assert_eq!(
        lines,
        vec![
            "client,available,held,total,locked".to_string(),
            "0,1.0000,0.0000,1.0000,false".to_string(),
            "2,0.0000,0.0000,0.0000,true".to_string(),
            "7,0.0000,0.0000,0.0000,false".to_string(),
            "300,0.0000,1.5004,1.5004,false".to_string(),
            "65535,0.0001,0.0000,0.0001,false".to_string(),
        ]
    );
    // flushing changes nothing
    assert_eq!(engine.flush(), lines);
}

#[test]
fn account_line_has_five_fields() {
    let acct =
        Account { available: Money(-15_000), held: Money(25_000), total: Money(10_000), locked: true };
    assert_eq!(acct.line(12), "12,-1.5000,2.5000,1.0000,true");
    assert_eq!(Account::new().line(0), "0,0.0000,0.0000,0.0000,false");
}

#[test]
fn engine_error_messages() {
    assert_eq!(EngineError::AccountLocked { client_id: 3 }.message(), "3 account is locked");
    assert_eq!(
        EngineError::DuplicateTransactionId { transaction_id: 4_000_000_000 }.message(),
        "Transaction ID 4000000000 already exists"
    );
    assert_eq!(
        EngineError::InsufficientFunds { client_id: 65_535 }.message(),
        "Insufficient funds for client 65535"
    );
    assert_eq!(
        EngineError::UnknownReferencedTransaction.message(),
        "Referenced transaction not found"
    );
    assert_eq!(
        EngineError::ClientMismatch.message(),
        "Transaction client ID does not match referenced client ID"
    );
    assert_eq!(EngineError::NotDisputed.message(), "Transaction is not disputed");
    assert_eq!(
        EngineError::BalanceOverflow { client_id: 0 }.message(),
        "Balance overflow for client 0"
    );
    assert_eq!(
        Error::Engine(EngineError::NotDisputed).message(),
        "Engine failed with: Transaction is not disputed"
    );
    assert_eq!(
        Error::Ingestion("no such row".to_string()).message(),
        "Ingestion failed with: no such row"
    );
}

#[test]
fn transaction_text() {
    assert_eq!(
        deposit(1, 2, Money(15_000)).describe(),
        "Deposit { amount: 1.5000 },client=1,tx=2,amount=1.5000"
    );
    assert_eq!(
        withdrawal(10, 20, Money(-1)).describe(),
        "Withdrawal { amount: -0.0001 },client=10,tx=20,amount=-0.0001"
    );
    assert_eq!(refer(TransactionKind::Dispute, 1, 2).describe(), "Dispute,client=1,tx=2");
    assert_eq!(refer(TransactionKind::Resolve, 0, 0).describe(), "Resolve,client=0,tx=0");
    assert_eq!(
        refer(TransactionKind::Chargeback, 65_535, 4_294_967_295).describe(),
        "Chargeback,client=65535,tx=4294967295"
    );
    assert_eq!(TransactionKind::Deposit { amount: Money(5) }.amount(), Some(Money(5)));
    assert_eq!(TransactionKind::Withdrawal { amount: Money(6) }.amount(), Some(Money(6)));
    assert_eq!(TransactionKind::Chargeback.amount(), None);
}
