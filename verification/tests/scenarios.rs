use atbash_voting::account::AccountId;
use atbash_voting::error::Error;
use atbash_voting::voting::AtbashVoting;

fn names(list: &[&str]) -> Vec<String> {
    list.iter().map(|name| name.to_string()).collect()
}

fn account(tag: u8) -> AccountId {
    AccountId::from_bytes([tag; 32])
}

fn sale() -> AtbashVoting {
    let mut ledger = AtbashVoting::new();
    ledger.voting(1000, 10, names(&["alice", "bob"]));
    ledger
}

#[test]
fn purchase_then_votes_within_and_beyond_budget() {
    let mut ledger = sale();
    let x = account(1);

    assert_eq!(ledger.buy(x, 500), Ok(50));
    assert_eq!(ledger.transfer_to(x).value, 950);
    assert_eq!(ledger.token_sold(), 50);

    assert_eq!(ledger.vote_for_candidate(x, "alice".to_string(), 30), Ok(()));
    assert_eq!(ledger.total_votes_for("alice".to_string()), 30);
    let (bought, used) = ledger.voter_details(x);
    assert_eq!(bought, 50);
    assert_eq!(used, vec![30, 0]);
    assert_eq!(bought - ledger.total_tokens_used(used).unwrap(), 20);

    assert_eq!(
        ledger.vote_for_candidate(x, "bob".to_string(), 25),
        Err(Error::InsufficientBudget)
    );
    assert_eq!(ledger.total_votes_for("alice".to_string()), 30);
    assert_eq!(ledger.total_votes_for("bob".to_string()), 0);
    assert_eq!(ledger.voter_details(x), (50, vec![30, 0]));
}

#[test]
fn vote_for_unregistered_name_is_refused() {
    let mut ledger = sale();
    let x = account(1);
    assert_eq!(ledger.buy(x, 500), Ok(50));
    assert_eq!(ledger.vote_for_candidate(x, "alice".to_string(), 30), Ok(()));

    let mut expected = sale();
    assert_eq!(expected.buy(x, 500), Ok(50));
    assert_eq!(expected.vote_for_candidate(x, "alice".to_string(), 30), Ok(()));

    assert_eq!(
        ledger.vote_for_candidate(x, "carol".to_string(), 1),
        Err(Error::InvalidCandidate)
    );
    assert_eq!(ledger, expected);
    assert_eq!(ledger.voter_details(x), (50, vec![30, 0]));
    assert_eq!(ledger.total_votes_for("alice".to_string()), 30);
    assert_eq!(ledger.total_votes_for("bob".to_string()), 0);
}

#[test]
fn purchase_beyond_supply_is_refused() {
    let mut ledger = sale();
    let x = account(1);
    assert_eq!(ledger.buy(x, 10_010), Err(Error::InsufficientSupply));
    assert_eq!(ledger.transfer_to(x).value, 1000);
    assert_eq!(ledger.token_sold(), 0);
    assert_eq!(ledger.voter_details(x), (0, vec![]));
    assert_eq!(ledger, sale());

    assert_eq!(ledger.buy(x, 10_000), Ok(1000));
    assert_eq!(ledger.transfer_to(x).value, 0);
    assert_eq!(ledger.buy(account(2), 10), Err(Error::InsufficientSupply));
    assert_eq!(ledger.transfer_to(x).value, 0);
}
