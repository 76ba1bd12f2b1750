use capital_pool::account::AccountId;
use capital_pool::kinds::ErrorKind;
use capital_pool::stake::{
    Add, CapitalStake, Claim, EDeposit, PoolFacts, SetCapacityMax, SetOperator, SetPool,
    SetSigner, SetUserCapacityMax, StakeError, SwitchDeposit, Unstake, UpdateBlockReward,
    UpdateWithdrawPending, Withdraw,
};

const RATE: u128 = 180_000_000_000;

fn owner() -> AccountId {
    AccountId::new([0x0a; 32])
}

fn alice() -> AccountId {
    AccountId::new([0x01; 32])
}

fn bob() -> AccountId {
    AccountId::new([0x02; 32])
}

fn signer() -> AccountId {
    AccountId::new([0x05; 32])
}

fn reward_token() -> AccountId {
    AccountId::new([0x06; 32])
}

fn stake_token() -> AccountId {
    AccountId::new([0x07; 32])
}

fn other_token() -> AccountId {
    AccountId::new([0x08; 32])
}

fn idle() -> PoolFacts {
    PoolFacts { lp_supply: 0, minted: true }
}

fn holding(lp_supply: u128) -> PoolFacts {
    PoolFacts { lp_supply, minted: true }
}

fn stake() -> CapitalStake {
    CapitalStake::new(owner(), signer(), reward_token(), 0)
}

fn one_pool(limit: u128) -> CapitalStake {
    let mut s = stake();
    assert_eq!(
        s.add(owner(), 0, 100, stake_token(), false, limit, &Vec::new()),
        Ok(Add { point: 100, token: stake_token(), update: false })
    );
    s
}

fn staked(amount: u128) -> CapitalStake {
    let mut s = one_pool(1_000_000);
    assert_eq!(
        s.deposit(alice(), 10, 0, amount, idle(), true, 0),
        Ok((EDeposit { user: alice(), pid: 0, amount }, 0))
    );
    s
}

#[test]
fn new_accumulator_is_empty() {
    let s = stake();
    assert_eq!(s.pool_length(), 0);
    assert_eq!(s.owner(), Some(owner()));
    assert_eq!(s.get_pool_info(0), None);
    assert_eq!(s.show_pooinfo(0), None);
    assert_eq!(s.get_user_info(0, alice()), (0, 0, 0, 0, 0));
    assert_eq!(s.show_user_info_amount(0, alice()), None);
    assert_eq!(s.only_owner(owner()), Ok(()));
    assert_eq!(s.only_owner(alice()), Err(StakeError::NotOwner));
    assert_eq!(s.only_operator(AccountId::zero()), Ok(()));
    assert_eq!(s.only_operator(alice()), Err(StakeError::NotOperator));
    assert!(!s.has_pool_for(stake_token()));
}

#[test]
fn add_appends_a_pool() {
    let mut s = one_pool(500);
    assert_eq!(s.pool_length(), 1);
    assert_eq!(s.get_pool_info(0), Some((0, stake_token(), 100, 0, 0, 0)));
    assert!(s.has_pool_for(stake_token()));
    assert_eq!(
        s.add(owner(), 42, 300, other_token(), false, 9, &Vec::new()),
        Ok(Add { point: 300, token: other_token(), update: false })
    );
    assert_eq!(s.pool_length(), 2);
    assert_eq!(s.get_pool_info(1), Some((0, other_token(), 300, 42, 0, 0)));
    assert_eq!(s.show_pooinfo(1), Some(42));
    assert_eq!(s.get_pool_info(2), None);
}

#[test]
fn a_pool_earns_from_the_start_block_at_the_earliest() {
    let mut s = CapitalStake::new(owner(), signer(), reward_token(), 50);
    assert!(s.add(owner(), 20, 1, stake_token(), false, 9, &Vec::new()).is_ok());
    assert!(s.add(owner(), 50, 1, other_token(), false, 9, &Vec::new()).is_ok());
    assert!(s.add(owner(), 51, 1, reward_token(), false, 9, &Vec::new()).is_ok());
    assert_eq!(s.show_pooinfo(0), Some(50));
    assert_eq!(s.show_pooinfo(1), Some(50));
    assert_eq!(s.show_pooinfo(2), Some(51));
}

#[test]
fn add_rejects_a_second_pool_for_the_same_asset() {
    let mut s = one_pool(500);
    assert!(s.add(owner(), 0, 300, other_token(), false, 9, &Vec::new()).is_ok());
    assert_eq!(
        s.add(owner(), 5, 50, stake_token(), false, 9, &Vec::new()),
        Err(StakeError::DuplicateToken)
    );
    assert_eq!(
        s.add(owner(), 5, 50, other_token(), true, 9, &vec![idle(), idle()]),
        Err(StakeError::DuplicateToken)
    );
    assert_eq!(s.pool_length(), 2);
    assert_eq!(s.show_pooinfo(0), Some(0));
    assert!(s.deposit(alice(), 10, 0, 100, idle(), true, 0).is_ok());
    assert_eq!(s.reward_due(0, 20, 100), Ok(Some(10 * RATE * 100 / 400)));
}

#[test]
fn add_rejects_strangers_and_the_zero_asset() {
    let mut s = stake();
    assert_eq!(
        s.add(alice(), 0, 1, stake_token(), false, 9, &Vec::new()),
        Err(StakeError::NotOwner)
    );
    assert_eq!(
        s.add(owner(), 0, 1, AccountId::zero(), false, 9, &Vec::new()),
        Err(StakeError::ZeroAccount)
    );
    assert!(s.add(owner(), 0, u128::MAX, stake_token(), false, 9, &Vec::new()).is_ok());
    assert_eq!(
        s.add(owner(), 0, 1, other_token(), false, 9, &Vec::new()),
        Err(StakeError::Overflow)
    );
    assert_eq!(s.pool_length(), 1);
}

#[test]
fn add_with_update_brings_the_pools_up_first() {
    let mut s = staked(1000);
    assert_eq!(
        s.add(owner(), 20, 300, other_token(), true, 9, &Vec::new()),
        Err(StakeError::FactsMismatch)
    );
    assert_eq!(
        s.add(owner(), 20, 300, other_token(), true, 9, &vec![holding(1000)]),
        Ok(Add { point: 300, token: other_token(), update: true })
    );
    assert_eq!(
        s.get_pool_info(0),
        Some((1000, stake_token(), 100, 20, 1_800_000_000_000_000_000_000, 0))
    );
    assert_eq!(s.get_pool_info(1), Some((0, other_token(), 300, 20, 0, 0)));
    assert_eq!(s.reward_due(0, 30, 1000), Ok(Some(10 * RATE * 100 / 400)));
}

#[test]
fn set_moves_the_weight_and_the_total() {
    let mut s = one_pool(500);
    assert!(s.add(owner(), 0, 300, other_token(), false, 9, &Vec::new()).is_ok());
    assert_eq!(s.set(alice(), 0, 0, 5, false, &Vec::new()), Err(StakeError::NotOwner));
    assert_eq!(s.set(owner(), 0, 2, 5, false, &Vec::new()), Err(StakeError::InvalidPool));
    assert_eq!(
        s.set(owner(), 0, 0, 700, false, &Vec::new()),
        Ok(SetPool { pid: 0, point: 700, update: false })
    );
    assert_eq!(s.get_pool_info(0), Some((0, stake_token(), 700, 0, 0, 0)));
    assert!(s.deposit(alice(), 10, 1, 9, idle(), true, 0).is_ok());
    assert_eq!(s.reward_due(1, 20, 9), Ok(Some(10 * RATE * 300 / 1000)));
    assert_eq!(
        s.set(owner(), 0, 0, u128::MAX, false, &Vec::new()),
        Err(StakeError::Overflow)
    );
    assert_eq!(s.set(owner(), 0, 0, u128::MAX - 300, false, &Vec::new()).is_ok(), true);
}

#[test]
fn set_with_update_brings_the_pools_up_first() {
    let mut s = staked(1000);
    assert_eq!(
        s.set(owner(), 20, 0, 50, true, &vec![idle(), idle()]),
        Err(StakeError::FactsMismatch)
    );
    assert_eq!(
        s.set(owner(), 20, 0, 50, true, &vec![holding(1000)]),
        Ok(SetPool { pid: 0, point: 50, update: true })
    );
    assert_eq!(
        s.get_pool_info(0),
        Some((1000, stake_token(), 50, 20, 1_800_000_000_000_000_000_000, 0))
    );
}

#[test]
fn update_pool_does_nothing_at_or_before_the_last_height() {
    let mut s = staked(1000);
    assert_eq!(s.update_pool(0, 10, holding(1000)), Ok(()));
    assert_eq!(s.update_pool(0, 3, holding(1000)), Ok(()));
    assert_eq!(s.get_pool_info(0), Some((1000, stake_token(), 100, 10, 0, 0)));
    assert_eq!(s.reward_due(0, 10, 1000), Ok(None));
}

#[test]
fn update_pool_without_stake_in_custody_only_moves_the_height() {
    let mut s = staked(1000);
    assert_eq!(s.reward_due(0, 25, 0), Ok(None));
    assert_eq!(s.update_pool(0, 25, PoolFacts { lp_supply: 0, minted: false }), Ok(()));
    assert_eq!(s.get_pool_info(0), Some((1000, stake_token(), 100, 25, 0, 0)));
}

#[test]
fn update_pool_adds_the_reward_per_unit_of_stake() {
    let mut s = staked(1000);
    assert_eq!(s.reward_due(0, 20, 1000), Ok(Some(1_800_000_000_000)));
    assert_eq!(s.update_pool(0, 20, holding(1000)), Ok(()));
    assert_eq!(
        s.get_pool_info(0),
        Some((1000, stake_token(), 100, 20, 1_800_000_000_000_000_000_000, 0))
    );
    assert_eq!(s.update_pool(0, 21, holding(7)), Ok(()));
    assert_eq!(
        s.get_pool_info(0),
        Some((
            1000,
            stake_token(),
            100,
            21,
            1_800_000_000_000_000_000_000 + 25_714_285_714_285_714_285_714,
            0
        ))
    );
}

#[test]
fn update_pool_fails_as_a_whole() {
    let mut s = staked(1000);
    assert_eq!(s.update_pool(1, 20, holding(1000)), Err(StakeError::InvalidPool));
    assert_eq!(s.reward_due(1, 20, 1000), Err(StakeError::InvalidPool));
    assert_eq!(
        s.update_pool(0, 20, PoolFacts { lp_supply: 1000, minted: false }),
        Err(StakeError::TransferFailed)
    );
    assert_eq!(s.get_pool_info(0), Some((1000, stake_token(), 100, 10, 0, 0)));
    assert!(s.update_block_reward(owner(), u128::MAX).is_ok());
    assert!(s.set(owner(), 10, 0, u128::MAX, false, &Vec::new()).is_ok());
    assert_eq!(s.reward_due(0, 20, 1000), Err(StakeError::Overflow));
    assert_eq!(s.update_pool(0, 20, holding(1000)), Err(StakeError::Overflow));
    assert_eq!(s.get_pool_info(0), Some((1000, stake_token(), u128::MAX, 10, 0, 0)));
    assert!(s.update_block_reward(owner(), u128::MAX / 20).is_ok());
    assert!(s.set(owner(), 10, 0, 1, false, &Vec::new()).is_ok());
    assert_eq!(s.update_pool(0, 20, holding(1)), Err(StakeError::Overflow));
    assert!(s.set(owner(), 10, 0, 0, false, &Vec::new()).is_ok());
    assert_eq!(s.update_pool(0, 20, holding(1)), Err(StakeError::Overflow));
}

#[test]
fn the_accumulator_never_falls() {
    let mut s = staked(1000);
    let mut last = 0;
    for height in [11u32, 12, 12, 15, 14, 30, 31] {
        assert!(s.update_pool(0, height, holding(1000)).is_ok());
        let acc = s.get_pool_info(0).unwrap().4;
        assert!(acc >= last);
        last = acc;
    }
    assert_eq!(last, 21 * 180_000_000_000_000_000_000);
}

#[test]
fn the_pending_reward_grows_with_the_heights() {
    let s = staked(1000);
    assert_eq!(s.pending_nsure(0, alice(), 10, 1000), Ok(0));
    assert_eq!(s.pending_nsure(0, alice(), 20, 1000), Ok(1_800_000_000_000));
    assert_eq!(s.pending_nsure(0, alice(), 30, 1000), Ok(3_600_000_000_000));
    assert_eq!(s.pending_nsure(0, alice(), 40, 1000), Ok(5_400_000_000_000));
    assert_eq!(s.pending_nsure(0, alice(), 40, 0), Ok(0));
    assert_eq!(s.pending_nsure(0, bob(), 40, 1000), Ok(0));
    assert_eq!(s.pending_nsure(1, alice(), 40, 1000), Err(StakeError::InvalidPool));
}

#[test]
fn the_pending_reward_is_rounded_down() {
    let mut s = one_pool(1_000_000);
    assert!(s.update_block_reward(owner(), 10).is_ok());
    assert!(s.deposit(alice(), 10, 0, 2, idle(), true, 0).is_ok());
    assert!(s.deposit(bob(), 10, 0, 1, holding(2), true, 0).is_ok());
    assert_eq!(s.pending_nsure(0, alice(), 11, 3), Ok(6));
    assert_eq!(s.pending_nsure(0, bob(), 11, 3), Ok(3));
    assert_eq!(s.pending_nsure(0, alice(), 12, 3), Ok(13));
    assert_eq!(s.pending_nsure(0, bob(), 12, 3), Ok(6));
}

#[test]
fn mass_update_brings_every_pool_up_or_none() {
    let mut s = staked(1000);
    assert!(s.add(owner(), 10, 300, other_token(), false, 50, &Vec::new()).is_ok());
    assert_eq!(s.mass_update_pools(20, &vec![holding(1000)]), Err(StakeError::FactsMismatch));
    assert_eq!(
        s.mass_update_pools(20, &vec![holding(1000), PoolFacts { lp_supply: 5, minted: false }]),
        Err(StakeError::TransferFailed)
    );
    assert_eq!(s.get_pool_info(0), Some((1000, stake_token(), 100, 10, 0, 0)));
    assert_eq!(s.get_pool_info(1), Some((0, other_token(), 300, 10, 0, 0)));
    assert_eq!(s.mass_update_pools(20, &vec![holding(1000), holding(5)]), Ok(()));
    assert_eq!(
        s.get_pool_info(0),
        Some((1000, stake_token(), 100, 20, 450_000_000_000_000_000_000, 0))
    );
    assert_eq!(
        s.get_pool_info(1),
        Some((0, other_token(), 300, 20, 270_000_000_000_000_000_000_000, 0))
    );
}

#[test]
fn deposit_records_stake_and_settles_the_reward() {
    let mut s = staked(1000);
    assert_eq!(s.get_user_info(0, alice()), (1000, 0, 0, 0, 0));
    assert_eq!(s.show_user_info_amount(0, alice()), Some(1000));
    assert_eq!(s.show_user_info_amount(0, bob()), None);
    assert_eq!(
        s.deposit(alice(), 20, 0, 500, holding(1000), true, 9_000_000_000_000),
        Ok((EDeposit { user: alice(), pid: 0, amount: 500 }, 1_800_000_000_000))
    );
    assert_eq!(s.get_user_info(0, alice()), (1500, 2_700_000_000_000, 0, 0, 0));
    assert_eq!(
        s.get_pool_info(0),
        Some((1500, stake_token(), 100, 20, 1_800_000_000_000_000_000_000, 0))
    );
    assert_eq!(s.pending_nsure(0, alice(), 20, 1500), Ok(0));
}

#[test]
fn the_reward_paid_is_capped_by_what_custody_holds() {
    let mut s = staked(1000);
    assert_eq!(
        s.deposit(alice(), 20, 0, 500, holding(1000), true, 1_000),
        Ok((EDeposit { user: alice(), pid: 0, amount: 500 }, 1_000))
    );
    assert_eq!(CapitalStake::safe_nsure_transfer(alice(), 50, 20), Ok(20));
    assert_eq!(CapitalStake::safe_nsure_transfer(alice(), 50, 50), Ok(50));
    assert_eq!(CapitalStake::safe_nsure_transfer(alice(), 50, 80), Ok(50));
    assert_eq!(
        CapitalStake::safe_nsure_transfer(AccountId::zero(), 50, 80),
        Err(StakeError::ZeroAccount)
    );
}

#[test]
fn deposit_over_the_limit_changes_nothing() {
    let mut s = one_pool(1000);
    assert!(s.deposit(alice(), 10, 0, 600, idle(), true, 0).is_ok());
    let before = (s.get_pool_info(0), s.get_user_info(0, alice()), s.get_user_info(0, bob()));
    assert_eq!(
        s.deposit(bob(), 20, 0, 401, holding(600), true, 0),
        Err(StakeError::ExceedsCapacity)
    );
    assert_eq!(StakeError::ExceedsCapacity.kind(), ErrorKind::ValidationError);
    assert_eq!(
        s.deposit(alice(), 20, 0, u128::MAX, holding(600), true, 0),
        Err(StakeError::ExceedsCapacity)
    );
    let after = (s.get_pool_info(0), s.get_user_info(0, alice()), s.get_user_info(0, bob()));
    assert_eq!(before, after);
    assert!(s.deposit(bob(), 20, 0, 400, holding(600), true, 0).is_ok());
    assert_eq!(s.deposit(bob(), 20, 0, 1, holding(1000), true, 0), Err(StakeError::ExceedsCapacity));
}

#[test]
fn a_pool_without_a_limit_takes_no_stake() {
    let mut s = one_pool(0);
    assert_eq!(s.deposit(alice(), 10, 0, 1, idle(), true, 0), Err(StakeError::ExceedsCapacity));
    assert_eq!(
        s.set_capacity_max(owner(), 0, 5),
        Ok(SetCapacityMax { pid: 0, max: 5 })
    );
    assert!(s.deposit(alice(), 10, 0, 5, idle(), true, 0).is_ok());
}

#[test]
fn deposit_rejects_before_it_changes_anything() {
    let mut s = staked(1000);
    assert_eq!(
        s.deposit(alice(), 20, 1, 5, holding(1000), true, 0),
        Err(StakeError::InvalidPool)
    );
    assert_eq!(
        s.deposit(alice(), 20, 0, 5, holding(1000), false, 0),
        Err(StakeError::TransferFailed)
    );
    assert_eq!(
        s.deposit(alice(), 20, 0, 5, PoolFacts { lp_supply: 1000, minted: false }, true, 0),
        Err(StakeError::TransferFailed)
    );
    assert_eq!(s.switch_deposit(owner()), Ok(SwitchDeposit { swi: false }));
    assert_eq!(
        s.deposit(alice(), 20, 0, 5, holding(1000), true, 0),
        Err(StakeError::DepositsDisabled)
    );
    assert_eq!(s.get_pool_info(0), Some((1000, stake_token(), 100, 10, 0, 0)));
    assert_eq!(s.get_user_info(0, alice()), (1000, 0, 0, 0, 0));
    assert_eq!(s.switch_deposit(owner()), Ok(SwitchDeposit { swi: true }));
    assert!(s.deposit(alice(), 20, 0, 5, holding(1000), true, 0).is_ok());
}

#[test]
fn deposit_fails_closed_when_the_reward_does_not_fit() {
    let mut s = one_pool(u128::MAX);
    assert!(s.deposit(alice(), 10, 0, 1, idle(), true, 0).is_ok());
    assert!(s.update_pool(0, 20, holding(1)).is_ok());
    assert_eq!(s.get_pool_info(0).unwrap().4, 1_800_000_000_000_000_000_000_000);
    assert_eq!(
        s.deposit(alice(), 20, 0, u128::MAX / 1000, holding(1), true, 0),
        Err(StakeError::Overflow)
    );
    assert_eq!(s.get_user_info(0, alice()), (1, 0, 0, 0, 0));
}

#[test]
fn positions_are_kept_per_pool() {
    let mut s = staked(1000);
    assert!(s.add(owner(), 10, 100, other_token(), false, 1000, &Vec::new()).is_ok());
    assert!(s.deposit(alice(), 10, 1, 7, idle(), true, 0).is_ok());
    assert_eq!(s.get_user_info(0, alice()), (1000, 0, 0, 0, 0));
    assert_eq!(s.get_user_info(1, alice()), (7, 0, 0, 0, 0));
    assert_eq!(s.get_pool_info(1), Some((7, other_token(), 100, 10, 0, 0)));
}

#[test]
fn unstake_moves_stake_into_pending_and_pays_the_reward() {
    let mut s = staked(1000);
    assert_eq!(
        s.unstake(alice(), 20, 5000, 0, 400, holding(1000), 9_000_000_000_000),
        Ok((Unstake { user: alice(), pid: 0, amount: 400 }, 1_800_000_000_000))
    );
    assert_eq!(s.get_user_info(0, alice()), (600, 1_080_000_000_000, 400, 0, 5000));
    assert_eq!(
        s.get_pool_info(0),
        Some((1000, stake_token(), 100, 20, 1_800_000_000_000_000_000_000, 400))
    );
    assert_eq!(
        s.unstake(alice(), 20, 6000, 0, 600, holding(1000), 4),
        Ok((Unstake { user: alice(), pid: 0, amount: 600 }, 0))
    );
    assert_eq!(s.get_user_info(0, alice()), (0, 0, 1000, 0, 6000));
    assert_eq!(s.get_pool_info(0).unwrap().5, 1000);
}

#[test]
fn unstake_rejects_more_than_the_stake() {
    let mut s = staked(1000);
    assert_eq!(
        s.unstake(alice(), 20, 5000, 0, 1001, holding(1000), 0),
        Err(StakeError::InsufficientStake)
    );
    assert_eq!(
        s.unstake(bob(), 20, 5000, 0, 1, holding(1000), 0),
        Err(StakeError::InsufficientStake)
    );
    assert_eq!(
        s.unstake(alice(), 20, 5000, 1, 1, holding(1000), 0),
        Err(StakeError::InvalidPool)
    );
    assert_eq!(
        s.unstake(AccountId::zero(), 20, 5000, 0, 0, holding(1000), 0),
        Err(StakeError::ZeroAccount)
    );
    assert_eq!(s.get_pool_info(0), Some((1000, stake_token(), 100, 10, 0, 0)));
    assert_eq!(s.get_user_info(0, alice()), (1000, 0, 0, 0, 0));
}

#[test]
fn withdraw_waits_for_the_delay() {
    let mut s = staked(1000);
    assert!(s.unstake(alice(), 20, 5000, 0, 400, holding(1000), 0).is_ok());
    assert_eq!(s.is_pending(alice(), 5000, 0), (true, 10));
    assert_eq!(s.is_pending(alice(), 5009, 0), (true, 1));
    assert_eq!(s.is_pending(alice(), 5010, 0), (false, 0));
    assert_eq!(s.is_pending(alice(), 9999, 0), (false, 0));
    assert_eq!(s.withdraw(alice(), 5009, 0), Err(StakeError::StillPending));
    assert_eq!(s.get_user_info(0, alice()), (600, 1_080_000_000_000, 400, 0, 5000));
    assert_eq!(s.withdraw(alice(), 5010, 1), Err(StakeError::InvalidPool));
    assert_eq!(s.withdraw(alice(), 5010, 0), Ok(Withdraw { user: alice(), pid: 0, amount: 400 }));
    assert_eq!(s.get_user_info(0, alice()), (600, 1_080_000_000_000, 0, 0, 5000));
    assert_eq!(
        s.get_pool_info(0),
        Some((600, stake_token(), 100, 20, 1_800_000_000_000_000_000_000, 0))
    );
    assert_eq!(s.withdraw(alice(), 5011, 0), Ok(Withdraw { user: alice(), pid: 0, amount: 0 }));
}

#[test]
fn the_delay_can_be_changed() {
    let mut s = staked(1000);
    assert_eq!(s.update_withdraw_pending(alice(), 1), Err(StakeError::NotOwner));
    assert_eq!(
        s.update_withdraw_pending(owner(), u64::MAX),
        Ok(UpdateWithdrawPending { seconds: u64::MAX })
    );
    assert!(s.unstake(alice(), 20, 5000, 0, 400, holding(1000), 0).is_ok());
    assert_eq!(s.is_pending(alice(), 0, 0), (true, u64::MAX));
    assert_eq!(s.is_pending(alice(), 5000, 0), (true, u64::MAX));
    assert_eq!(s.is_pending(alice(), 5001, 0), (true, u64::MAX - 1));
    assert_eq!(s.withdraw(alice(), u64::MAX, 0), Err(StakeError::StillPending));
    assert!(s.update_withdraw_pending(owner(), 0).is_ok());
    assert_eq!(s.is_pending(alice(), 5000, 0), (false, 0));
    assert_eq!(s.is_pending(alice(), 4999, 0), (true, 1));
    assert!(s.withdraw(alice(), 5000, 0).is_ok());
}

#[test]
fn claim_pays_once_per_height() {
    let mut s = staked(1000);
    assert_eq!(
        s.claim(alice(), 20, 0, holding(1000), 9_000_000_000_000),
        Ok((Claim { user: alice(), pid: 0, amount: 1_800_000_000_000 }, 1_800_000_000_000))
    );
    assert_eq!(s.get_user_info(0, alice()), (1000, 1_800_000_000_000, 0, 0, 0));
    let settled = (s.get_pool_info(0), s.get_user_info(0, alice()));
    assert_eq!(
        s.claim(alice(), 20, 0, holding(1000), 9_000_000_000_000),
        Ok((Claim { user: alice(), pid: 0, amount: 0 }, 0))
    );
    assert_eq!(
        s.claim(alice(), 20, 0, PoolFacts { lp_supply: 4, minted: false }, 1),
        Ok((Claim { user: alice(), pid: 0, amount: 0 }, 0))
    );
    assert_eq!((s.get_pool_info(0), s.get_user_info(0, alice())), settled);
    assert_eq!(
        s.claim(alice(), 21, 0, holding(1000), 100),
        Ok((Claim { user: alice(), pid: 0, amount: 180_000_000_000 }, 100))
    );
}

#[test]
fn claim_rejects_before_it_changes_anything() {
    let mut s = staked(1000);
    assert_eq!(s.claim(alice(), 20, 1, holding(1000), 0), Err(StakeError::InvalidPool));
    assert_eq!(
        s.claim(alice(), 20, 0, PoolFacts { lp_supply: 1000, minted: false }, 0),
        Err(StakeError::TransferFailed)
    );
    assert_eq!(
        s.claim(AccountId::zero(), 20, 0, holding(1000), 0),
        Err(StakeError::ZeroAccount)
    );
    assert_eq!(s.get_pool_info(0), Some((1000, stake_token(), 100, 10, 0, 0)));
    assert_eq!(
        s.claim(bob(), 20, 0, holding(1000), 50),
        Ok((Claim { user: bob(), pid: 0, amount: 0 }, 0))
    );
    assert_eq!(s.get_user_info(0, bob()), (0, 0, 0, 0, 0));
    assert_eq!(s.show_user_info_amount(0, bob()), Some(0));
}

#[test]
fn two_stakers_share_by_their_stake() {
    let mut s = staked(1000);
    assert!(s.deposit(bob(), 20, 0, 3000, holding(1000), true, 0).is_ok());
    assert_eq!(s.get_user_info(0, bob()), (3000, 5_400_000_000_000, 0, 0, 0));
    assert_eq!(s.pending_nsure(0, alice(), 30, 4000), Ok(1_800_000_000_000 + 450_000_000_000));
    assert_eq!(s.pending_nsure(0, bob(), 30, 4000), Ok(1_350_000_000_000));
}

#[test]
fn the_owner_administers() {
    let mut s = stake();
    assert_eq!(s.set_operator(alice(), bob()), Err(StakeError::NotOwner));
    assert_eq!(s.set_operator(owner(), AccountId::zero()), Err(StakeError::ZeroAccount));
    assert_eq!(s.set_operator(owner(), bob()), Ok(SetOperator { operator: bob() }));
    assert_eq!(s.only_operator(bob()), Ok(()));
    assert_eq!(s.set_signer(alice(), bob()), Err(StakeError::NotOwner));
    assert_eq!(s.set_signer(owner(), AccountId::zero()), Err(StakeError::ZeroAccount));
    assert_eq!(s.set_signer(owner(), bob()), Ok(SetSigner { signer: bob() }));
    assert_eq!(s.switch_deposit(alice()), Err(StakeError::NotOwner));
    assert_eq!(s.set_user_capacity_max(alice(), 0, 1), Err(StakeError::NotOwner));
    assert_eq!(
        s.set_user_capacity_max(owner(), 0, 1),
        Ok(SetUserCapacityMax { pid: 0, max: 1 })
    );
    assert_eq!(s.set_capacity_max(alice(), 0, 1), Err(StakeError::NotOwner));
    assert_eq!(s.update_block_reward(alice(), 1), Err(StakeError::NotOwner));
    assert_eq!(s.update_block_reward(owner(), 7), Ok(UpdateBlockReward { reward: 7 }));
    assert_eq!(s.set_default(alice()), Err(StakeError::NotOwner));
    assert_eq!(s.transfer_ownership(alice(), Some(alice())), Err(StakeError::NotOwner));
    assert_eq!(s.transfer_ownership(owner(), None), Ok(()));
    assert_eq!(s.owner(), Some(owner()));
    assert_eq!(s.transfer_ownership(owner(), Some(alice())), Ok(()));
    assert_eq!(s.owner(), Some(alice()));
    assert_eq!(s.set_default(owner()), Err(StakeError::NotOwner));
}

#[test]
fn set_default_files_the_limit_of_the_first_pool() {
    let mut s = one_pool(0);
    assert_eq!(s.set_default(owner()), Ok(()));
    assert_eq!(
        s.deposit(alice(), 10, 0, 99_999_999_999_999, idle(), true, 0),
        Ok((EDeposit { user: alice(), pid: 0, amount: 99_999_999_999_999 }, 0))
    );
    assert_eq!(s.deposit(alice(), 10, 0, 1, idle(), true, 0), Err(StakeError::ExceedsCapacity));
}

#[test]
fn the_multiplier_counts_heights() {
    assert_eq!(CapitalStake::get_multiplier(10, 10), 0);
    assert_eq!(CapitalStake::get_multiplier(10, 25), 15);
    assert_eq!(CapitalStake::get_multiplier(0, u32::MAX), 4_294_967_295);
}

#[test]
fn stake_errors_fall_into_their_classes() {
    assert_eq!(StakeError::DepositsDisabled.kind(), ErrorKind::ValidationError);
    assert_eq!(StakeError::InvalidPool.kind(), ErrorKind::ValidationError);
    assert_eq!(StakeError::ExceedsCapacity.kind(), ErrorKind::ValidationError);
    assert_eq!(StakeError::InsufficientStake.kind(), ErrorKind::ValidationError);
    assert_eq!(StakeError::DuplicateToken.kind(), ErrorKind::ValidationError);
    assert_eq!(StakeError::ZeroAccount.kind(), ErrorKind::ValidationError);
    assert_eq!(StakeError::StillPending.kind(), ErrorKind::ValidationError);
    assert_eq!(StakeError::FactsMismatch.kind(), ErrorKind::ValidationError);
    assert_eq!(StakeError::TooManyPools.kind(), ErrorKind::ValidationError);
    assert_eq!(StakeError::NotOwner.kind(), ErrorKind::AuthorizationError);
    assert_eq!(StakeError::NotOperator.kind(), ErrorKind::AuthorizationError);
    assert_eq!(StakeError::TransferFailed.kind(), ErrorKind::ExternalTransferFailure);
    assert_eq!(StakeError::Overflow.kind(), ErrorKind::ArithmeticError);
}

#[test]
fn a_snapshot_restores_to_the_same_accumulator() {
    let mut s = staked(1000);
    assert!(s.add(owner(), 10, 300, other_token(), false, 50, &Vec::new()).is_ok());
    assert!(s.deposit(bob(), 20, 0, 3000, holding(1000), true, 0).is_ok());
    assert!(s.unstake(alice(), 30, 700, 0, 250, holding(4000), 0).is_ok());
    let record = s.snapshot();
    assert_eq!(record.pools.len(), 2);
    assert_eq!(record.users.len(), 2);
    assert_eq!(record.total_alloc_point, 400);
    assert_eq!(record.nsure, reward_token());
    let mut back = CapitalStake::restore(record).unwrap();
    assert_eq!(back.pool_length(), 2);
    assert_eq!(back.nsure(), reward_token());
    assert_eq!(back.get_pool_info(0), s.get_pool_info(0));
    assert_eq!(back.get_pool_info(1), s.get_pool_info(1));
    assert_eq!(back.get_user_info(0, alice()), s.get_user_info(0, alice()));
    assert_eq!(back.get_user_info(0, bob()), s.get_user_info(0, bob()));
    assert_eq!(back.is_pending(alice(), 705, 0), (true, 5));
    assert_eq!(back.withdraw(alice(), 710, 0), Ok(Withdraw { user: alice(), pid: 0, amount: 250 }));
    assert_eq!(
        back.deposit(bob(), 40, 1, 51, idle(), true, 0),
        Err(StakeError::ExceedsCapacity)
    );
}

#[test]
fn a_record_that_is_no_accumulator_is_not_restored() {
    let mut s = staked(1000);
    assert!(s.unstake(alice(), 20, 700, 0, 250, holding(1000), 0).is_ok());
    let good = s.snapshot();
    assert!(CapitalStake::restore(good.clone()).is_some());
    let mut weights = good.clone();
    weights.total_alloc_point = 99;
    assert!(CapitalStake::restore(weights).is_none());
    let mut held = good.clone();
    held.pools[0].amount = 999;
    assert!(CapitalStake::restore(held).is_none());
    let mut pending = good.clone();
    pending.pools[0].pending = 251;
    assert!(CapitalStake::restore(pending).is_none());
    let mut debt = good.clone();
    debt.users[0].1.reward_debt += 1;
    assert!(CapitalStake::restore(debt).is_none());
    let mut stray = good.clone();
    stray.users[0].0.pid = 1;
    assert!(CapitalStake::restore(stray).is_none());
    let mut twice = good.clone();
    twice.capacity_max = vec![(0, 1), (0, 2)];
    assert!(CapitalStake::restore(twice).is_none());
    let mut less = good;
    less.users[0].1.reward_debt -= 1;
    assert!(CapitalStake::restore(less).is_some());
}

#[test]
fn a_stake_can_be_tested_before_any_asset_moves() {
    let mut s = one_pool(1000);
    assert_eq!(s.check_deposit(0, 1000), Ok(()));
    assert_eq!(s.check_deposit(0, 1001), Err(StakeError::ExceedsCapacity));
    assert_eq!(s.check_deposit(0, u128::MAX), Err(StakeError::ExceedsCapacity));
    assert_eq!(s.check_deposit(1, 1), Err(StakeError::InvalidPool));
    assert!(s.deposit(alice(), 10, 0, 600, idle(), true, 0).is_ok());
    assert_eq!(s.check_deposit(0, 400), Ok(()));
    assert_eq!(s.check_deposit(0, 401), Err(StakeError::ExceedsCapacity));
    assert!(s.switch_deposit(owner()).is_ok());
    assert_eq!(s.check_deposit(0, 1), Err(StakeError::DepositsDisabled));
    assert_eq!(s.check_deposit(1, 1), Err(StakeError::DepositsDisabled));
    assert_eq!(
        s.deposit(alice(), 20, 1, 1, holding(600), false, 0),
        Err(StakeError::DepositsDisabled)
    );
}

#[test]
fn pool_changes_can_be_tested_before_any_ledger_is_touched() {
    let s = one_pool(1000);
    assert_eq!(s.check_add(alice(), other_token()), Err(StakeError::NotOwner));
    assert_eq!(s.check_add(owner(), AccountId::zero()), Err(StakeError::ZeroAccount));
    assert_eq!(s.check_add(owner(), stake_token()), Err(StakeError::DuplicateToken));
    assert_eq!(s.check_add(owner(), other_token()), Ok(()));
    assert_eq!(s.check_set(alice(), 0), Err(StakeError::NotOwner));
    assert_eq!(s.check_set(owner(), 1), Err(StakeError::InvalidPool));
    assert_eq!(s.check_set(owner(), 0), Ok(()));
}

#[test]
fn a_record_with_two_pools_for_one_asset_is_not_restored() {
    let mut s = one_pool(1000);
    assert!(s.add(owner(), 0, 300, other_token(), false, 50, &Vec::new()).is_ok());
    let good = s.snapshot();
    assert!(CapitalStake::restore(good.clone()).is_some());
    let mut twice = good.clone();
    twice.pools[1].lp_token = stake_token();
    assert!(CapitalStake::restore(twice).is_none());
    let mut thrice = good;
    thrice.pools.push(thrice.pools[0]);
    thrice.total_alloc_point += 100;
    assert!(CapitalStake::restore(thrice).is_none());
}
