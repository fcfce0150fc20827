use lucky::ids::{Account, PrincipalId};
use lucky::ledger::{LedgerState, TransferArg, TransferError as LedgerError, ICP_FEE_E8S};
use lucky::staking::STAKE_LOCK_NANOS;
use lucky::token::{
    generic_error, icrc1_metadata, icrc1_supported_standards, MetadataValue, TokenError, TokenState,
    TransferArgs, TransferError, DEV_RESERVE, MAX_SUPPLY, REWARD_POOL, TRANSFER_FEE,
};

fn p(b: u8) -> PrincipalId {
    PrincipalId::from_bytes(vec![b, b, b])
}

fn acct(b: u8) -> Account {
    Account::default_of(p(b))
}

fn token() -> TokenState {
    let mut t = TokenState::new(p(1), p(2));
    assert!(t.set_minting_account(&p(1), p(9)));
    t
}

#[test]
fn new_token_credits_the_dev_reserve() {
    let t = TokenState::new(p(1), p(2));
    assert_eq!(t.balance_of(&acct(2)), DEV_RESERVE);
    assert_eq!(t.total_minted, DEV_RESERVE);
    assert_eq!(t.balance_of(&acct(3)), 0);
    assert!(t.minting_account_of().is_none());
}

#[test]
fn only_the_owner_sets_the_minting_account() {
    let mut t = TokenState::new(p(1), p(2));
    assert!(!t.set_minting_account(&p(5), p(9)));
    assert!(t.minting_account.is_none());
    assert!(t.set_minting_account(&p(1), p(9)));
    assert_eq!(t.minting_account_of().unwrap().owner.bytes, vec![9, 9, 9]);
}

#[test]
fn transfer_moves_amount_and_burns_the_fee() {
    let mut t = token();
    let r = t.transfer(acct(2), acct(3), 1_000, None);
    assert_eq!(r.ok(), Some(0));
    assert_eq!(t.balance_of(&acct(3)), 1_000);
    assert_eq!(t.balance_of(&acct(2)), DEV_RESERVE - 1_000 - TRANSFER_FEE);
    assert_eq!(t.total_minted, DEV_RESERVE - TRANSFER_FEE);
    assert_eq!(t.next_block_index, 1);
}

#[test]
fn transfer_errors() {
    let mut t = token();
    match t.transfer(acct(2), acct(3), 1, Some(1)) {
        Err(TransferError::BadFee { expected_fee }) => assert_eq!(expected_fee, TRANSFER_FEE),
        _ => panic!("expected a bad fee"),
    }
    match t.transfer(acct(3), acct(2), 1, None) {
        Err(TransferError::InsufficientFunds { balance }) => assert_eq!(balance, 0),
        _ => panic!("expected insufficient funds"),
    }
    assert_eq!(t.next_block_index, 0);
    assert_eq!(t.total_minted, DEV_RESERVE);
}

#[test]
fn transfer_to_oneself_only_costs_the_fee() {
    let mut t = token();
    assert!(t.transfer(acct(2), acct(2), 5_000, Some(TRANSFER_FEE)).is_ok());
    assert_eq!(t.balance_of(&acct(2)), DEV_RESERVE - TRANSFER_FEE);
}

#[test]
fn icrc1_transfer_from_a_subaccount() {
    let mut t = token();
    let sub = Account { owner: p(2), subaccount: Some(vec![1; 32]) };
    assert!(t.transfer(acct(2), Account { owner: p(2), subaccount: Some(vec![1; 32]) }, 50_000, None).is_ok());
    let args = TransferArgs {
        from_subaccount: Some(vec![1; 32]),
        to: acct(4),
        amount: 20_000,
        fee: None,
        memo: None,
        created_at_time: None,
    };
    assert_eq!(t.icrc1_transfer(p(2), args).ok(), Some(1));
    assert_eq!(t.balance_of(&sub), 20_000);
    assert_eq!(t.balance_of(&acct(4)), 20_000);
}

#[test]
fn minting_rewards() {
    let mut t = token();
    assert!(matches!(t.mint(&p(5), p(3), 10), Err(TokenError::NotMinter)));
    assert!(t.mint(&p(9), p(3), 700).is_ok());
    assert_eq!(t.balance_of(&acct(3)), 700);
    assert_eq!(t.rewards_minted, 700);
    assert_eq!(t.total_minted, DEV_RESERVE + 700);
    assert!(matches!(t.mint(&p(9), p(3), REWARD_POOL), Err(TokenError::RewardPoolExhausted)));
    let mut unset = TokenState::new(p(1), p(2));
    assert!(matches!(unset.mint(&p(9), p(3), 1), Err(TokenError::MintingAccountNotSet)));
    assert!(t.total_minted <= MAX_SUPPLY);
}

#[test]
fn burning_reduces_the_supply() {
    let mut t = token();
    assert_eq!(t.burn(&p(2), 1_000).ok(), Some(0));
    assert_eq!(t.balance_of(&acct(2)), DEV_RESERVE - 1_000);
    assert_eq!(t.total_minted, DEV_RESERVE - 1_000);
    match t.burn(&p(3), 1) {
        Err(TransferError::InsufficientFunds { balance }) => assert_eq!(balance, 0),
        _ => panic!("expected insufficient funds"),
    }
}

#[test]
fn staking_locks_for_a_day_and_unstakes_oldest_first() {
    let mut t = token();
    let info = t.stake(p(2), 1_000, 100).ok().unwrap();
    assert_eq!(info.staked, 1_000);
    assert_eq!(info.locked, 1_000);
    assert_eq!(info.unlockable, 0);
    assert_eq!(info.liquid, DEV_RESERVE - 1_000);
    assert_eq!(info.total, DEV_RESERVE);
    assert!(t.stake(p(2), 500, 200).is_ok());
    assert_eq!(t.staked_balance_of(&p(2)), 1_500);
    assert_eq!(t.total_balance_of(&p(2)), DEV_RESERVE);
    assert_eq!(t.total_minted, DEV_RESERVE);
    match t.unstake(p(2), 1, 100 + STAKE_LOCK_NANOS - 1) {
        Err(TokenError::InsufficientUnlocked { unlockable, requested }) => {
            assert_eq!(unlockable, 0);
            assert_eq!(requested, 1);
        },
        _ => panic!("expected locked stake"),
    }
    let info = t.unstake(p(2), 1_200, 200 + STAKE_LOCK_NANOS).ok().unwrap();
    assert_eq!(info.staked, 300);
    assert_eq!(info.liquid, DEV_RESERVE - 300);
    let batches = t.stake_batches(&p(2), 200 + STAKE_LOCK_NANOS);
    assert_eq!(batches.len(), 1);
    assert_eq!(batches[0].amount, 300);
    assert_eq!(batches[0].staked_at, 200);
    assert_eq!(batches[0].unlocks_at, 200 + STAKE_LOCK_NANOS);
    assert!(batches[0].unlocked);
    assert!(matches!(t.stake(p(2), 0, 5), Err(TokenError::ZeroAmount)));
    assert!(matches!(t.stake(p(3), 1, 5), Err(TokenError::InsufficientLiquid)));
    assert!(matches!(t.unstake(p(2), 0, 5), Err(TokenError::ZeroAmount)));
}

#[test]
fn stake_boost_follows_the_staked_amount() {
    let mut t = token();
    assert_eq!(t.boost_of(&p(2)), 10_000);
    assert!(t.stake(p(2), 5_000 * 100_000_000, 0).is_ok());
    assert_eq!(t.boost_of(&p(2)), 12_500);
    assert_eq!(t.boost_of_each(&vec![p(2), p(3)]), vec![12_500, 10_000]);
}

#[test]
fn metadata_and_standards() {
    let m = icrc1_metadata();
    assert_eq!(m.len(), 4);
    assert_eq!(m[0].0, "icrc1:name");
    assert!(matches!(&m[0].1, MetadataValue::Text(t) if t == "Lucky"));
    assert_eq!(m[1].0, "icrc1:symbol");
    assert!(matches!(&m[1].1, MetadataValue::Text(t) if t == "LUCKY"));
    assert!(matches!(m[2].1, MetadataValue::Nat(8)));
    assert!(matches!(m[3].1, MetadataValue::Nat(10_000)));
    let s = icrc1_supported_standards();
    assert_eq!(s.len(), 1);
    assert_eq!(s[0].name, "ICRC-1");
    assert_eq!(s[0].url, "https://github.com/dfinity/ICRC-1/tree/main/standards/ICRC-1");
    match generic_error("Amount is too large") {
        TransferError::GenericError { error_code, message } => {
            assert_eq!(error_code, 1);
            assert_eq!(message, "Amount is too large");
        },
        _ => panic!("expected a generic error"),
    }
}

#[test]
fn ledger_faucet_and_transfers() {
    let mut l = LedgerState::new(p(1));
    let source = Account::default_of(PrincipalId::anonymous());
    assert_eq!(l.faucet(source, acct(2), 1_000_000, 5), 0);
    assert_eq!(l.balance_of(&acct(2)), 1_000_000);
    let args = TransferArg { from_subaccount: None, to: acct(3), amount: 400_000, fee: None, memo: None, created_at_time: None };
    assert_eq!(l.icrc1_transfer(p(2), args, 7).ok(), Some(1));
    assert_eq!(l.balance_of(&acct(2)), 1_000_000 - 400_000 - ICP_FEE_E8S);
    assert_eq!(l.balance_of(&acct(3)), 400_000);
    match l.transfer(acct(3), acct(2), 400_000, None, 8) {
        Err(LedgerError::InsufficientFunds { balance }) => assert_eq!(balance, 400_000),
        _ => panic!("expected insufficient funds"),
    }
    assert!(matches!(l.transfer(acct(3), acct(2), 1, Some(0), 8), Err(LedgerError::BadFee { .. })));
    let log = l.transactions();
    assert_eq!(log.len(), 2);
    assert_eq!(log[0].fee, 0);
    assert_eq!(log[0].timestamp, 5);
    assert_eq!(log[1].index, 1);
    assert_eq!(log[1].amount, 400_000);
    assert_eq!(log[1].fee, ICP_FEE_E8S);
    assert_eq!(log[1].from.owner.bytes, vec![2, 2, 2]);
}
