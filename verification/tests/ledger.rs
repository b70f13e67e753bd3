use bank_ledger::aggregate::rebuild;
use bank_ledger::bank::Bank;
use bank_ledger::commands::{BankAccountCommand, CommandError};
use bank_ledger::engine::{decide, HappyPathValidator, StrictValidator};
use bank_ledger::events::BankAccountEvent;
use bank_ledger::projection::ReadModel;
use bank_ledger::store::EventStore;

fn no_metadata() -> Vec<(String, String)> {
    Vec::new()
}

fn open_cmd() -> BankAccountCommand {
    BankAccountCommand::OpenAccount
}

fn deposit_cmd(amount: i64) -> BankAccountCommand {
    BankAccountCommand::DepositMoney { amount }
}

fn withdraw_cmd(amount: i64) -> BankAccountCommand {
    BankAccountCommand::WithdrawMoney { amount }
}

fn check_cmd(number: &str, amount: i64) -> BankAccountCommand {
    BankAccountCommand::WriteCheck { check_number: String::from(number), amount }
}

#[test]
fn open_deposit_withdraw_check_scenario() {
    let id = String::from("acct-1");
    let mut bank = Bank::new(HappyPathValidator);

    assert!(bank.handle(&id, &open_cmd(), &no_metadata()).is_ok());
    assert_eq!(bank.read_model.account_balance(&id), Some(0));

    assert!(bank.handle(&id, &deposit_cmd(1000), &no_metadata()).is_ok());
    assert_eq!(bank.read_model.account_balance(&id), Some(1000));
    let ledger = bank.read_model.ledger_entries_for(&id);
    assert_eq!(ledger.len(), 1);
    assert_eq!(ledger[0].description, "deposit");
    assert_eq!(ledger[0].amount, 1000);

    assert!(bank.handle(&id, &withdraw_cmd(100), &no_metadata()).is_ok());
    assert_eq!(bank.read_model.account_balance(&id), Some(900));
    let ledger = bank.read_model.ledger_entries_for(&id);
    assert_eq!(ledger.len(), 2);
    assert_eq!(ledger[1].description, "atm_withdrawal");
    assert_eq!(ledger[1].amount, 100);

    assert!(bank.handle(&id, &check_cmd("1170", 250), &no_metadata()).is_ok());
    assert_eq!(bank.read_model.account_balance(&id), Some(650));
    let ledger = bank.read_model.ledger_entries_for(&id);
    assert_eq!(ledger.len(), 3);
    assert_eq!(ledger[2].description, "1170");
    assert_eq!(ledger[2].amount, 250);
    let checks = bank.read_model.checks_for(&id);
    assert_eq!(checks.len(), 1);
    assert_eq!(checks[0].check_number, "1170");
    assert_eq!(checks[0].account_id, "acct-1");

    // Surrogate keys follow insertion order, counted from 1.
    assert_eq!(ledger[0].id, 1);
    assert_eq!(ledger[1].id, 2);
    assert_eq!(ledger[2].id, 3);
    assert_eq!(checks[0].id, 1);
}

#[test]
fn deposit_before_open_is_rejected() {
    let id = String::from("acct-new");
    let mut bank = Bank::new(HappyPathValidator);
    let r = bank.handle(&id, &deposit_cmd(500), &no_metadata());
    assert!(matches!(r, Err(CommandError::AggregateNotInitialized)));
    // No event was appended and the read model is unchanged.
    assert_eq!(bank.store.load(&id).len(), 0);
    assert_eq!(bank.read_model.account_balance(&id), None);
    assert_eq!(bank.read_model.ledger_entries_for(&id).len(), 0);
    assert_eq!(bank.read_model.checks_for(&id).len(), 0);
}

#[test]
fn withdraw_and_check_before_open_are_rejected() {
    let id = String::from("acct-new");
    let mut bank = Bank::new(HappyPathValidator);
    let r = bank.handle(&id, &withdraw_cmd(1), &no_metadata());
    assert!(matches!(r, Err(CommandError::AggregateNotInitialized)));
    let r = bank.handle(&id, &check_cmd("7", 1), &no_metadata());
    assert!(matches!(r, Err(CommandError::AggregateNotInitialized)));
}

#[test]
fn open_twice_is_rejected() {
    let id = String::from("acct-1");
    let mut bank = Bank::new(HappyPathValidator);
    assert!(bank.handle(&id, &open_cmd(), &no_metadata()).is_ok());
    let r = bank.handle(&id, &open_cmd(), &no_metadata());
    assert!(matches!(r, Err(CommandError::AlreadyOpened)));
    assert_eq!(bank.store.load(&id).len(), 1);
}

#[test]
fn replaying_the_stream_twice_gives_identical_state() {
    let id = String::from("acct-1");
    let mut bank = Bank::new(HappyPathValidator);
    bank.handle(&id, &open_cmd(), &no_metadata()).unwrap();
    bank.handle(&id, &deposit_cmd(75), &no_metadata()).unwrap();
    bank.handle(&id, &check_cmd("9", 25), &no_metadata()).unwrap();

    let events = bank.store.load(&id);
    let (first, seq_first) = rebuild(&events);
    let (second, seq_second) = rebuild(&events);
    assert_eq!(seq_first, 3);
    assert_eq!(seq_second, 3);
    assert_eq!(first.opened, second.opened);
    assert_eq!(first.balance, second.balance);
    assert_eq!(first.written_checks, second.written_checks);
    assert_eq!(first.balance, 50);
    assert!(first.opened);
    assert_eq!(first.written_checks, vec![String::from("9")]);
}

#[test]
fn rebuilding_a_fresh_aggregate_gives_the_empty_state() {
    let bank = Bank::new(HappyPathValidator);
    let (state, seq) = bank.rebuild_aggregate(&String::from("nobody"));
    assert!(!state.opened);
    assert_eq!(state.balance, 0);
    assert_eq!(state.written_checks.len(), 0);
    assert_eq!(seq, 0);
}

#[test]
fn redelivering_an_event_leaves_the_read_model_unchanged() {
    let id = String::from("acct-1");
    let mut rm = ReadModel::new();
    let opened = bank_ledger::events::StoredEvent {
        aggregate_id: id.clone(),
        sequence: 1,
        payload: BankAccountEvent::AccountOpened { account_id: id.clone() },
        metadata: Vec::new(),
    };
    let deposited = bank_ledger::events::StoredEvent {
        aggregate_id: id.clone(),
        sequence: 2,
        payload: BankAccountEvent::CustomerDepositedMoney { amount: 40, balance: 40 },
        metadata: Vec::new(),
    };
    rm.apply(&opened);
    rm.apply(&deposited);
    assert_eq!(rm.account_balance(&id), Some(40));
    assert_eq!(rm.ledger_entries_for(&id).len(), 1);

    // At-least-once delivery: the same events arrive again, any number of
    // times, in any already-applied position.
    rm.apply(&deposited);
    rm.apply(&opened);
    rm.apply(&deposited);
    assert_eq!(rm.account_balance(&id), Some(40));
    assert_eq!(rm.ledger_entries_for(&id).len(), 1);
    assert_eq!(rm.checks_for(&id).len(), 0);
}

#[test]
fn concurrent_deposits_serialize_through_the_append() {
    let id = String::from("acct-1");
    let validator = HappyPathValidator;
    let mut store = EventStore::new();

    // Open the account at sequence 1.
    let (state0, seq0) = rebuild(&store.load(&id));
    assert_eq!(seq0, 0);
    let opened = decide(&validator, &id, &state0, &open_cmd()).unwrap();
    store.append(&id, seq0, &vec![opened], &no_metadata()).unwrap();

    // Two contenders reconstruct the same state at sequence 1.
    let (state_a, seq_a) = rebuild(&store.load(&id));
    let (state_b, seq_b) = rebuild(&store.load(&id));
    assert_eq!(seq_a, 1);
    assert_eq!(seq_b, 1);
    let deposit_a = decide(&validator, &id, &state_a, &deposit_cmd(300)).unwrap();
    let deposit_b = decide(&validator, &id, &state_b, &deposit_cmd(500)).unwrap();

    // Exactly one append at expected sequence 1 succeeds.
    assert!(store.append(&id, seq_a, &vec![deposit_a], &no_metadata()).is_ok());
    let lost = store.append(&id, seq_b, &vec![deposit_b], &no_metadata());
    assert!(matches!(lost, Err(CommandError::ConcurrencyConflict)));

    // The loser retries from the grown stream and commits at sequence 2.
    let (state_retry, seq_retry) = rebuild(&store.load(&id));
    assert_eq!(seq_retry, 2);
    let deposit_retry = decide(&validator, &id, &state_retry, &deposit_cmd(500)).unwrap();
    assert!(store.append(&id, seq_retry, &vec![deposit_retry], &no_metadata()).is_ok());

    // The final balance carries both deposits: neither doubled nor lost.
    let (state_final, seq_final) = rebuild(&store.load(&id));
    assert_eq!(seq_final, 3);
    assert_eq!(state_final.balance, 800);
}

#[test]
fn deposit_overflowing_the_balance_is_rejected() {
    let id = String::from("acct-1");
    let mut bank = Bank::new(HappyPathValidator);
    bank.handle(&id, &open_cmd(), &no_metadata()).unwrap();
    bank.handle(&id, &deposit_cmd(i64::MAX), &no_metadata()).unwrap();
    let r = bank.handle(&id, &deposit_cmd(1), &no_metadata());
    assert!(matches!(r, Err(CommandError::BalanceOutOfRange)));
    assert_eq!(bank.read_model.account_balance(&id), Some(i64::MAX));
    assert_eq!(bank.store.load(&id).len(), 2);
}

#[test]
fn withdrawal_overflowing_the_balance_is_rejected() {
    let id = String::from("acct-1");
    let mut bank = Bank::new(HappyPathValidator);
    bank.handle(&id, &open_cmd(), &no_metadata()).unwrap();
    bank.handle(&id, &withdraw_cmd(i64::MAX), &no_metadata()).unwrap();
    let r = bank.handle(&id, &withdraw_cmd(2), &no_metadata());
    assert!(matches!(r, Err(CommandError::BalanceOutOfRange)));
}

#[test]
fn happy_path_allows_overdraft() {
    let id = String::from("acct-1");
    let mut bank = Bank::new(HappyPathValidator);
    bank.handle(&id, &open_cmd(), &no_metadata()).unwrap();
    bank.handle(&id, &deposit_cmd(100), &no_metadata()).unwrap();
    assert!(bank.handle(&id, &withdraw_cmd(200), &no_metadata()).is_ok());
    assert_eq!(bank.read_model.account_balance(&id), Some(-100));
}

#[test]
fn strict_validator_rejects_overdraft() {
    let id = String::from("acct-1");
    let mut bank = Bank::new(StrictValidator);
    bank.handle(&id, &open_cmd(), &no_metadata()).unwrap();
    bank.handle(&id, &deposit_cmd(100), &no_metadata()).unwrap();
    let r = bank.handle(&id, &withdraw_cmd(200), &no_metadata());
    match r {
        Err(CommandError::Rejected { reason }) => assert_eq!(reason, "insufficient funds"),
        _ => panic!("expected a validation rejection"),
    }
    assert_eq!(bank.read_model.account_balance(&id), Some(100));
    assert_eq!(bank.store.load(&id).len(), 2);
}

#[test]
fn strict_validator_rejects_reused_check_number() {
    let id = String::from("acct-1");
    let mut bank = Bank::new(StrictValidator);
    bank.handle(&id, &open_cmd(), &no_metadata()).unwrap();
    bank.handle(&id, &deposit_cmd(100), &no_metadata()).unwrap();
    bank.handle(&id, &check_cmd("42", 10), &no_metadata()).unwrap();
    let r = bank.handle(&id, &check_cmd("42", 5), &no_metadata());
    match r {
        Err(CommandError::Rejected { reason }) => {
            assert_eq!(reason, "check number already used")
        },
        _ => panic!("expected a validation rejection"),
    }
    assert_eq!(bank.read_model.checks_for(&id).len(), 1);
}

#[test]
fn metadata_is_carried_through_unmodified() {
    let id = String::from("acct-1");
    let mut bank = Bank::new(HappyPathValidator);
    let metadata = vec![
        (String::from("correlation_id"), String::from("req-77")),
        (String::from("user"), String::from("alice")),
    ];
    bank.handle(&id, &open_cmd(), &metadata).unwrap();
    let events = bank.store.load(&id);
    assert_eq!(events.len(), 1);
    assert_eq!(events[0].aggregate_id, "acct-1");
    assert_eq!(events[0].sequence, 1);
    assert_eq!(events[0].metadata, metadata);
    assert!(matches!(
        &events[0].payload,
        BankAccountEvent::AccountOpened { account_id } if account_id == "acct-1"
    ));
}

#[test]
fn sequences_are_contiguous_from_one() {
    let id = String::from("acct-1");
    let mut bank = Bank::new(HappyPathValidator);
    bank.handle(&id, &open_cmd(), &no_metadata()).unwrap();
    bank.handle(&id, &deposit_cmd(10), &no_metadata()).unwrap();
    bank.handle(&id, &deposit_cmd(20), &no_metadata()).unwrap();
    let events = bank.store.load(&id);
    assert_eq!(events.len(), 3);
    for (i, e) in events.iter().enumerate() {
        assert_eq!(e.sequence, (i + 1) as u64);
        assert_eq!(e.aggregate_id, "acct-1");
    }
}

#[test]
fn aggregates_do_not_interfere() {
    let one = String::from("acct-1");
    let two = String::from("acct-2");
    let mut bank = Bank::new(HappyPathValidator);
    bank.handle(&one, &open_cmd(), &no_metadata()).unwrap();
    bank.handle(&two, &open_cmd(), &no_metadata()).unwrap();
    bank.handle(&one, &deposit_cmd(11), &no_metadata()).unwrap();
    bank.handle(&two, &deposit_cmd(22), &no_metadata()).unwrap();
    bank.handle(&two, &check_cmd("5", 2), &no_metadata()).unwrap();
    assert_eq!(bank.read_model.account_balance(&one), Some(11));
    assert_eq!(bank.read_model.account_balance(&two), Some(20));
    assert_eq!(bank.read_model.ledger_entries_for(&one).len(), 1);
    assert_eq!(bank.read_model.ledger_entries_for(&two).len(), 2);
    assert_eq!(bank.read_model.checks_for(&one).len(), 0);
    assert_eq!(bank.read_model.checks_for(&two).len(), 1);
    assert_eq!(bank.store.load(&one).len(), 2);
    assert_eq!(bank.store.load(&two).len(), 3);
}

#[test]
fn read_model_balance_matches_folded_stream() {
    let id = String::from("acct-1");
    let mut bank = Bank::new(HappyPathValidator);
    bank.handle(&id, &open_cmd(), &no_metadata()).unwrap();
    bank.handle(&id, &deposit_cmd(500), &no_metadata()).unwrap();
    bank.handle(&id, &withdraw_cmd(120), &no_metadata()).unwrap();
    bank.handle(&id, &check_cmd("8", 30), &no_metadata()).unwrap();

    // Fold the full stream from the empty state and compare with the table.
    let events = bank.store.load(&id);
    let (folded, _) = rebuild(&events);
    assert_eq!(bank.read_model.account_balance(&id), Some(folded.balance));
    assert_eq!(folded.balance, 350);

    // The last event carries the same balance.
    match &events[events.len() - 1].payload {
        BankAccountEvent::CustomerWroteCheck { balance, .. } => assert_eq!(*balance, 350),
        _ => panic!("expected the check event last"),
    }
}

#[test]
fn catch_up_replay_rebuilds_the_read_model() {
    let id = String::from("acct-1");
    let mut bank = Bank::new(HappyPathValidator);
    bank.handle(&id, &open_cmd(), &no_metadata()).unwrap();
    bank.handle(&id, &deposit_cmd(300), &no_metadata()).unwrap();
    bank.handle(&id, &check_cmd("12", 50), &no_metadata()).unwrap();

    // A fresh projection catches up by replaying the committed stream.
    let events = bank.store.load(&id);
    let mut replica = ReadModel::new();
    replica.dispatch(&events);
    assert_eq!(replica.account_balance(&id), Some(250));
    assert_eq!(replica.ledger_entries_for(&id).len(), 2);
    assert_eq!(replica.checks_for(&id).len(), 1);

    // Redelivering the whole batch changes nothing.
    replica.dispatch(&events);
    assert_eq!(replica.account_balance(&id), Some(250));
    assert_eq!(replica.ledger_entries_for(&id).len(), 2);
    assert_eq!(replica.checks_for(&id).len(), 1);
}

#[test]
fn latest_sequence_tracks_the_stream_length() {
    let id = String::from("acct-1");
    let mut bank = Bank::new(HappyPathValidator);
    assert_eq!(bank.store.latest_sequence(&id), 0);
    bank.handle(&id, &open_cmd(), &no_metadata()).unwrap();
    assert_eq!(bank.store.latest_sequence(&id), 1);
    bank.handle(&id, &deposit_cmd(5), &no_metadata()).unwrap();
    assert_eq!(bank.store.latest_sequence(&id), 2);
}
