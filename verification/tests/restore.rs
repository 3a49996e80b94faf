use atbash_voting::{AccountId, AtbashVoting, Error, Voter};

fn names(list: &[&str]) -> Vec<String> {
    list.iter().map(|name| name.to_string()).collect()
}

fn account(tag: u8) -> AccountId {
    AccountId::from_bytes([tag; 32])
}

fn busy_ledger() -> AtbashVoting {
    let mut ledger = AtbashVoting::new();
    ledger.voting(1000, 10, names(&["alice", "bob"]));
    assert_eq!(ledger.buy(account(1), 500), Ok(50));
    assert_eq!(ledger.buy(account(2), 120), Ok(12));
    assert_eq!(ledger.vote_for_candidate(account(1), "alice".to_string(), 30), Ok(()));
    assert_eq!(ledger.vote_for_candidate(account(2), "bob".to_string(), 7), Ok(()));
    assert_eq!(ledger.vote_for_candidate(account(3), "bob".to_string(), 0), Ok(()));
    assert_eq!(ledger.buy(account(4), 10), Ok(1));
    ledger
}

fn taken_apart_and_restored(ledger: &AtbashVoting) -> Result<AtbashVoting, Error> {
    AtbashVoting::restore(
        ledger.all_candidates(),
        ledger.total_tokens(),
        ledger.balance_tokens(),
        ledger.token_price(),
        ledger.voters(),
    )
}

#[test]
fn voter_record_gives_back_what_it_was_made_of() {
    let record = Voter::new(account(5), 40, vec![3, 0, 9]);
    assert!(record.voter_address().same_as(&account(5)));
    assert_eq!(record.token_bought(), 40);
    assert_eq!(record.tokens_used_per_candidate(), &vec![3, 0, 9]);
}

#[test]
fn voters_lists_the_records_in_order_of_first_appearance() {
    let ledger = busy_ledger();
    assert_eq!(
        ledger.voters(),
        vec![
            Voter::new(account(1), 50, vec![30, 0]),
            Voter::new(account(2), 12, vec![0, 7]),
            Voter::new(account(3), 0, vec![0, 0]),
            Voter::new(account(4), 1, vec![]),
        ]
    );
}

#[test]
fn restore_gives_the_same_ledger_back() {
    let ledger = busy_ledger();
    let restored = taken_apart_and_restored(&ledger).unwrap();
    assert_eq!(restored, ledger);
    assert_eq!(restored.total_votes_for("alice".to_string()), 30);
    assert_eq!(restored.total_votes_for("bob".to_string()), 7);
    assert_eq!(restored.voter_details(account(1)), (50, vec![30, 0]));
    assert_eq!(restored.token_sold(), 63);

    let empty = AtbashVoting::new();
    assert_eq!(taken_apart_and_restored(&empty), Ok(AtbashVoting::new()));
}

#[test]
fn restore_sums_the_tallies_from_the_records() {
    let restored = AtbashVoting::restore(
        names(&["alice", "bob", "carol"]),
        100,
        40,
        3,
        vec![
            Voter::new(account(1), 20, vec![5, 0, 15]),
            Voter::new(account(2), 10, vec![]),
            Voter::new(account(3), 30, vec![1, 2, 3]),
        ],
    )
    .unwrap();
    assert_eq!(restored.total_votes_for("alice".to_string()), 6);
    assert_eq!(restored.total_votes_for("bob".to_string()), 2);
    assert_eq!(restored.total_votes_for("carol".to_string()), 18);
    assert_eq!(restored.token_sold(), 60);
    assert_eq!(restored.token_price(), 3);
}

#[test]
fn restored_ledger_goes_on_where_the_other_stopped() {
    let mut ledger = busy_ledger();
    let mut restored = taken_apart_and_restored(&ledger).unwrap();
    for each in [&mut ledger, &mut restored] {
        assert_eq!(each.vote_for_candidate(account(1), "bob".to_string(), 20), Ok(()));
        assert_eq!(
            each.vote_for_candidate(account(1), "bob".to_string(), 1),
            Err(Error::InsufficientBudget)
        );
        assert_eq!(each.buy(account(5), 9_370), Ok(937));
        assert_eq!(each.buy(account(6), 10), Err(Error::InsufficientSupply));
    }
    assert_eq!(restored, ledger);
    assert_eq!(restored.total_votes_for("bob".to_string()), 27);
}

#[test]
fn restore_accepts_more_spent_than_bought_when_it_was_sold() {
    let mut ledger = AtbashVoting::new();
    ledger.voting(1000, 10, names(&["alice", "bob"]));
    assert_eq!(ledger.buy(account(1), 500), Ok(50));
    assert_eq!(ledger.vote_for_candidate(account(1), "alice".to_string(), 30), Ok(()));
    assert_eq!(ledger.buy(account(1), 100), Ok(10));
    assert_eq!(taken_apart_and_restored(&ledger).unwrap(), ledger);
}

#[test]
fn restore_refuses_a_balance_above_the_supply() {
    assert_eq!(
        AtbashVoting::restore(names(&["alice"]), 10, 11, 1, vec![]),
        Err(Error::InvariantViolation)
    );
    assert!(AtbashVoting::restore(names(&["alice"]), 10, 10, 1, vec![]).is_ok());
}

#[test]
fn restore_refuses_two_records_for_one_identity() {
    let records = |last: u8| {
        vec![
            Voter::new(account(1), 1, vec![]),
            Voter::new(account(2), 1, vec![]),
            Voter::new(account(last), 1, vec![]),
        ]
    };
    assert_eq!(
        AtbashVoting::restore(names(&["alice"]), 10, 7, 1, records(1)),
        Err(Error::InvariantViolation)
    );
    assert_eq!(
        AtbashVoting::restore(names(&["alice"]), 10, 7, 1, records(2)),
        Err(Error::InvariantViolation)
    );
    assert!(AtbashVoting::restore(names(&["alice"]), 10, 7, 1, records(3)).is_ok());
}

#[test]
fn restore_refuses_a_spend_record_of_the_wrong_length() {
    let with_row = |row: Vec<u128>| {
        AtbashVoting::restore(
            names(&["alice", "bob"]),
            10,
            5,
            1,
            vec![Voter::new(account(1), 5, row)],
        )
    };
    assert_eq!(with_row(vec![1]), Err(Error::InvariantViolation));
    assert_eq!(with_row(vec![1, 1, 1]), Err(Error::InvariantViolation));
    assert!(with_row(vec![1, 1]).is_ok());
    assert!(with_row(vec![]).is_ok());
}

#[test]
fn restore_refuses_records_that_stand_for_more_than_was_sold() {
    let with = |balance: u128, bought: u128, row: Vec<u128>| {
        AtbashVoting::restore(
            names(&["alice", "bob"]),
            100,
            balance,
            1,
            vec![Voter::new(account(1), bought, row), Voter::new(account(2), 10, vec![])],
        )
    };
    assert!(with(50, 40, vec![]).is_ok());
    assert_eq!(with(50, 41, vec![]), Err(Error::InvariantViolation));
    assert!(with(50, 5, vec![20, 20]).is_ok());
    assert_eq!(with(50, 5, vec![20, 21]), Err(Error::InvariantViolation));
    assert_eq!(with(50, 5, vec![u128::MAX, 1]), Err(Error::InvariantViolation));
    assert_eq!(with(0, u128::MAX, vec![]), Err(Error::InvariantViolation));
    assert!(with(0, 90, vec![45, 45]).is_ok());
}
