use multisig_wallet::ledger::Module;
use multisig_wallet::owners::dedup_owners;
use multisig_wallet::types::{AccountId, Change, Error, Event};

const ACCOUNT1: AccountId = 1;
const ACCOUNT2: AccountId = 2;
const ACCOUNT3: AccountId = 3;
const ACCOUNT4: AccountId = 4;

fn default_walletid() -> AccountId {
    1
}

fn _create_default_wallet(m: &mut Module) -> Result<AccountId, Error> {
    _create_wallet(m, None, None, None, None)
}

fn _create_wallet(
    m: &mut Module,
    creator: Option<AccountId>,
    wallet_id: Option<AccountId>,
    owners: Option<Vec<AccountId>>,
    confirms_required: Option<u16>,
) -> Result<AccountId, Error> {
    m.create_wallet(
        creator.unwrap_or(ACCOUNT1),
        owners.unwrap_or(vec![ACCOUNT1, ACCOUNT2, ACCOUNT3]),
        confirms_required.unwrap_or(2),
        wallet_id.unwrap_or(default_walletid()),
        1,
        1000,
    )
}

#[test]
fn create_wallet_should_work() {
    let mut m = Module::new();
    assert!(_create_default_wallet(&mut m).is_ok());
}

#[test]
fn create_wallet_stores_owners_without_repeats_in_first_seen_order() {
    let mut m = Module::new();
    let r = m.create_wallet(7, vec![3, 1, 3, 2, 1], 3, 50, 4, 9);
    assert_eq!(r, Ok(50));
    let w = m.wallet_by_id(50).unwrap();
    assert_eq!(w.owners, vec![3, 1, 2]);
    assert_eq!(w.confirms_required, 3);
    assert_eq!(w.id, 50);
    assert_eq!(w.created, Change { account: 7, block: 4, time: 9 });
}

#[test]
fn create_wallet_accepts_two_listings_of_one_owner() {
    let mut m = Module::new();
    assert_eq!(m.create_wallet(5, vec![5, 5], 1, 60, 0, 0), Ok(60));
    assert_eq!(m.wallet_by_id(60).unwrap().owners, vec![5]);
}

#[test]
fn create_wallet_rejects_fewer_than_two_owners() {
    let mut m = Module::new();
    assert_eq!(m.create_wallet(1, vec![1], 0, 10, 0, 0), Err(Error::NotEnoughOwners));
    assert_eq!(m.create_wallet(1, vec![], 0, 10, 0, 0), Err(Error::NotEnoughOwners));
    assert!(m.wallet_by_id(10).is_none());
    assert!(m.events().is_empty());
}

#[test]
fn create_wallet_rejects_more_than_fifteen_owners() {
    let mut m = Module::new();
    let sixteen: Vec<AccountId> = (1..=16).collect();
    assert_eq!(m.create_wallet(1, sixteen, 2, 10, 0, 0), Err(Error::TooManyOwners));
    assert!(m.wallet_by_id(10).is_none());
    let fifteen: Vec<AccountId> = (1..=15).collect();
    assert_eq!(m.create_wallet(1, fifteen, 15, 10, 0, 0), Ok(10));
    assert_eq!(m.wallet_by_id(10).unwrap().owners.len(), 15);
}

#[test]
fn create_wallet_checks_threshold_against_distinct_owners() {
    let mut m = Module::new();
    assert_eq!(
        m.create_wallet(1, vec![1, 1, 2], 3, 10, 0, 0),
        Err(Error::ThresholdExceedsOwners)
    );
    assert!(m.wallet_by_id(10).is_none());
    assert_eq!(m.transaction_count_by_wallet_id(10), 0);
    assert!(m.wallet_ids_by_account_id(1).is_empty());
    assert_eq!(m.create_wallet(1, vec![1, 1, 2], 2, 10, 0, 0), Ok(10));
}

#[test]
fn create_wallet_checks_owner_count_before_threshold() {
    let mut m = Module::new();
    assert_eq!(m.create_wallet(1, vec![1], 9, 10, 0, 0), Err(Error::NotEnoughOwners));
    let sixteen: Vec<AccountId> = (1..=16).collect();
    assert_eq!(m.create_wallet(1, sixteen, 99, 10, 0, 0), Err(Error::TooManyOwners));
}

#[test]
fn create_wallet_indexes_the_creator_only() {
    let mut m = Module::new();
    assert_eq!(m.create_wallet(ACCOUNT1, vec![ACCOUNT1, ACCOUNT2], 1, 20, 0, 0), Ok(20));
    assert_eq!(m.create_wallet(ACCOUNT1, vec![ACCOUNT2, ACCOUNT3], 2, 21, 0, 0), Ok(21));
    assert_eq!(m.wallet_ids_by_account_id(ACCOUNT1), vec![20, 21]);
    assert!(m.wallet_ids_by_account_id(ACCOUNT2).is_empty());
    assert_eq!(m.transaction_count_by_wallet_id(20), 0);
    assert!(m.transactions_by_wallet_id(21).unwrap().is_empty());
    assert_eq!(
        m.events(),
        &vec![Event::WalletCreated(ACCOUNT1, 20), Event::WalletCreated(ACCOUNT1, 21)]
    );
}

#[test]
fn create_transaction_rejects_long_notes_whatever_the_wallet() {
    let mut m = Module::new();
    assert_eq!(
        m.create_transaction(ACCOUNT1, 99, ACCOUNT4, 5, vec![0u8; 129], 0, 0),
        Err(Error::NotesTooLong)
    );
    _create_default_wallet(&mut m).unwrap();
    assert_eq!(
        m.create_transaction(ACCOUNT1, 1, ACCOUNT4, 5, vec![0u8; 129], 0, 0),
        Err(Error::NotesTooLong)
    );
    assert_eq!(m.create_transaction(ACCOUNT1, 1, ACCOUNT4, 5, vec![0u8; 128], 0, 0), Ok(0));
}

#[test]
fn create_transaction_rejects_unknown_wallet() {
    let mut m = Module::new();
    _create_default_wallet(&mut m).unwrap();
    assert_eq!(
        m.create_transaction(ACCOUNT1, 2, ACCOUNT4, 5, vec![], 0, 0),
        Err(Error::WalletNotFound)
    );
    assert!(m.transactions_by_wallet_id(2).is_none());
}

#[test]
fn create_transaction_by_non_owner_changes_nothing() {
    let mut m = Module::new();
    _create_default_wallet(&mut m).unwrap();
    assert_eq!(
        m.create_transaction(ACCOUNT4, 1, ACCOUNT2, 5, vec![], 0, 0),
        Err(Error::NotAnOwner)
    );
    assert_eq!(m.transaction_count_by_wallet_id(1), 0);
    assert!(m.transactions_by_wallet_id(1).unwrap().is_empty());
    assert_eq!(m.events().len(), 1);
}

#[test]
fn create_transaction_by_owner_is_confirmed_by_caller() {
    let mut m = Module::new();
    _create_default_wallet(&mut m).unwrap();
    assert_eq!(m.create_transaction(ACCOUNT3, 1, ACCOUNT4, 70, vec![1, 2], 8, 800), Ok(0));
    let txs = m.transactions_by_wallet_id(1).unwrap();
    assert_eq!(txs.len(), 1);
    assert_eq!(txs[0].confirmed_by, vec![ACCOUNT3]);
    assert!(!txs[0].executed);
    assert_eq!(txs[0].destination, ACCOUNT4);
    assert_eq!(txs[0].value, 70);
    assert_eq!(txs[0].notes, vec![1, 2]);
    assert_eq!(txs[0].created, Change { account: ACCOUNT3, block: 8, time: 800 });
    assert_eq!(m.transaction_count_by_wallet_id(1), 1);
    assert_eq!(
        m.events()[1],
        Event::TransactionCreated(ACCOUNT3, 1, ACCOUNT4, 70)
    );
}

#[test]
fn successive_transactions_count_up_in_order() {
    let mut m = Module::new();
    _create_default_wallet(&mut m).unwrap();
    for k in 0..5u32 {
        let caller = [ACCOUNT1, ACCOUNT2, ACCOUNT3][(k % 3) as usize];
        assert_eq!(m.create_transaction(caller, 1, ACCOUNT4, k as u64 * 10, vec![], 0, 0), Ok(k));
    }
    assert_eq!(m.transaction_count_by_wallet_id(1), 5);
    let txs = m.transactions_by_wallet_id(1).unwrap();
    assert_eq!(txs.len(), 5);
    for (k, t) in txs.iter().enumerate() {
        assert_eq!(t.value, k as u64 * 10);
    }
}

#[test]
fn wallet_then_transaction_scenario() {
    let mut m = Module::new();
    let w = m.create_wallet(1, vec![1, 2, 3], 2, 77, 0, 0).unwrap();
    assert_eq!(w, 77);
    let wallet = m.wallet_by_id(w).unwrap();
    assert_eq!(wallet.owners, vec![1, 2, 3]);
    assert_eq!(wallet.confirms_required, 2);
    assert_eq!(m.create_transaction(2, w, 9, 50, b"pay".to_vec(), 0, 0), Ok(0));
    let txs = m.transactions_by_wallet_id(w).unwrap();
    assert_eq!(txs[0].confirmed_by, vec![2]);
    assert!(!txs[0].executed);
    assert_eq!(m.transaction_count_by_wallet_id(w), 1);
}

#[test]
fn dedup_owners_keeps_first_occurrences() {
    assert_eq!(dedup_owners(&vec![4, 4, 2, 9, 2, 4]), vec![4, 2, 9]);
    assert!(dedup_owners(&vec![]).is_empty());
}

#[test]
fn new_change_stamps_its_arguments() {
    assert_eq!(Module::new_change(3, 4, 5), Change { account: 3, block: 4, time: 5 });
}

#[test]
fn owner_limits_are_two_and_fifteen() {
    let m = Module::new();
    assert_eq!(m.min_multisig_wallet_owners(), 2);
    assert_eq!(m.max_multisig_wallet_owners(), 15);
}

#[test]
fn error_messages() {
    assert_eq!(Error::NotEnoughOwners.message(), "There can not be less owners than allowed");
    assert_eq!(Error::NotAnOwner.message(), "Account is not a wallet owner");
    assert_eq!(
        Error::TransactionCountOverflow.message(),
        "Transactions count overflow creating new transaction"
    );
}
