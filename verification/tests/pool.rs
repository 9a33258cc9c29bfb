use hybrid_amm::{AmmError, Direction, Identity, Pool, PoolState, PoolUpdate};

fn owner() -> Identity {
    Identity::new([7u8; 32])
}

fn stranger() -> Identity {
    let mut bytes = [7u8; 32];
    bytes[31] = 8;
    Identity::new(bytes)
}

fn reference_pool() -> Pool {
    Pool::initialize(owner(), 1_000, 1_000, 30).unwrap()
}

fn product(pool: &Pool) -> u128 {
    pool.reserve_a as u128 * pool.reserve_b as u128
}

#[test]
fn initialize_sets_reserves_shares_fee_and_authority() {
    let pool = Pool::initialize(owner(), 1_000, 2_000, 30).unwrap();
    assert_eq!(pool.reserve_a, 1_000);
    assert_eq!(pool.reserve_b, 2_000);
    assert_eq!(pool.total_shares, 1_000_000);
    assert_eq!(pool.fee_bps, 30);
    assert!(!pool.locked);
    assert_eq!(pool.authority, owner());
    assert_eq!(pool.current_state(), PoolState::Active);
}

#[test]
fn initialize_rejects_zero_amounts() {
    assert_eq!(Pool::initialize(owner(), 0, 1_000, 30), Err(AmmError::InvalidAmount));
    assert_eq!(Pool::initialize(owner(), 1_000, 0, 30), Err(AmmError::InvalidAmount));
    assert_eq!(Pool::initialize(owner(), 0, 0, 10_001), Err(AmmError::InvalidAmount));
}

#[test]
fn initialize_rejects_an_invalid_fee() {
    assert_eq!(Pool::initialize(owner(), 1_000, 1_000, 10_001), Err(AmmError::InvalidFee));
    assert!(Pool::initialize(owner(), 1_000, 1_000, 10_000).is_ok());
    assert!(Pool::initialize(owner(), 1_000, 1_000, 0).is_ok());
}

#[test]
fn initialize_rejects_shares_that_do_not_fit() {
    assert_eq!(Pool::initialize(owner(), u64::MAX, 1, 30), Err(AmmError::Overflow));
}

#[test]
fn swap_with_the_exact_output_as_minimum_succeeds() {
    let mut pool = reference_pool();
    assert_eq!(pool.swap(100, Direction::AToB, 90), Ok(90));
    assert_eq!(pool.reserve_a, 1_100);
    assert_eq!(pool.reserve_b, 910);
    assert_eq!(pool.total_shares, 1_000_000);
}

#[test]
fn swap_with_one_unit_more_as_minimum_fails_for_slippage() {
    let mut pool = reference_pool();
    let before = pool;
    assert_eq!(pool.swap(100, Direction::AToB, 91), Err(AmmError::SlippageExceeded));
    assert_eq!(pool, before);
}

#[test]
fn swap_in_the_other_direction() {
    let mut pool = Pool::initialize(owner(), 1_000_000, 2_000_000, 30).unwrap();
    assert_eq!(pool.swap(10_000, Direction::BToA, 0), Ok(4_960));
    assert_eq!(pool.reserve_a, 995_040);
    assert_eq!(pool.reserve_b, 2_010_000);
}

#[test]
fn swap_keeps_the_fee_in_the_pool() {
    let mut pool = Pool::initialize(owner(), 1_000_000, 2_000_000, 30).unwrap();
    assert_eq!(pool.swap(10_000, Direction::AToB, 19_743), Ok(19_743));
    assert_eq!(pool.reserve_a, 1_010_000);
    assert_eq!(pool.reserve_b, 1_980_257);
}

#[test]
fn swap_never_lowers_the_product() {
    let mut pool = Pool::initialize(owner(), 123_456, 7_890_123, 30).unwrap();
    let trades = [
        (1u64, Direction::AToB),
        (1_000, Direction::BToA),
        (333, Direction::AToB),
        (50_000, Direction::AToB),
        (4_000_000, Direction::BToA),
        (7, Direction::BToA),
    ];
    for (amount, direction) in trades {
        let before = product(&pool);
        let fee = amount as u128 * 30 / 10_000;
        pool.swap(amount, direction, 0).unwrap();
        assert!(product(&pool) >= before);
        if fee > 0 {
            assert!(product(&pool) > before);
        }
        assert!(pool.reserve_a > 0 && pool.reserve_b > 0);
    }
}

#[test]
fn swap_without_fee_and_without_rounding_keeps_the_product() {
    let mut pool = Pool::initialize(owner(), 1, 2, 0).unwrap();
    assert_eq!(pool.swap(1, Direction::AToB, 1), Ok(1));
    assert_eq!((pool.reserve_a, pool.reserve_b), (2, 1));
}

#[test]
fn swap_whose_fee_rounds_to_zero_can_keep_the_product() {
    let mut pool = Pool::initialize(owner(), 1, 2, 30).unwrap();
    assert_eq!(pool.swap(1, Direction::AToB, 0), Ok(1));
    assert_eq!(product(&pool), 2);
}

#[test]
fn swap_failures_leave_the_pool_unchanged() {
    let mut pool = reference_pool();
    let before = pool;
    assert_eq!(pool.swap(0, Direction::AToB, 0), Err(AmmError::InvalidAmount));
    assert_eq!(pool, before);
    assert_eq!(pool.swap(u64::MAX, Direction::BToA, 0), Err(AmmError::Overflow));
    assert_eq!(pool, before);
    assert_eq!(pool.swap(10, Direction::AToB, u64::MAX), Err(AmmError::SlippageExceeded));
    assert_eq!(pool, before);
}

#[test]
fn swap_on_an_empty_pool_is_zero_balance() {
    let mut pool = reference_pool();
    pool.withdraw(1_000_000, 0, 0).unwrap();
    let before = pool;
    assert_eq!(pool.swap(10, Direction::AToB, 0), Err(AmmError::ZeroBalance));
    assert_eq!(pool, before);
}

#[test]
fn swap_with_a_corrupt_fee_is_invalid_fee() {
    let mut pool = reference_pool();
    pool.fee_bps = 10_001;
    let before = pool;
    assert_eq!(pool.swap(10, Direction::AToB, 0), Err(AmmError::InvalidFee));
    assert_eq!(pool, before);
}

#[test]
fn deposit_mints_shares_in_proportion() {
    let mut pool = reference_pool();
    assert_eq!(pool.deposit(100, 100, 100, 100), Ok(100_000));
    assert_eq!(pool.reserve_a, 1_100);
    assert_eq!(pool.reserve_b, 1_100);
    assert_eq!(pool.total_shares, 1_100_000);
}

#[test]
fn deposit_takes_no_more_than_the_pool_ratio_allows() {
    let mut pool = Pool::initialize(owner(), 1_000, 500, 30).unwrap();
    assert_eq!(pool.deposit(100, 100, 0, 0), Ok(100_000));
    assert_eq!(pool.reserve_a, 1_100);
    assert_eq!(pool.reserve_b, 550);
    assert_eq!(pool.total_shares, 1_100_000);
}

#[test]
fn deposit_below_the_minimum_fails_for_slippage() {
    let mut pool = Pool::initialize(owner(), 1_000, 500, 30).unwrap();
    let before = pool;
    assert_eq!(pool.deposit(100, 100, 0, 51), Err(AmmError::SlippageExceeded));
    assert_eq!(pool, before);
    assert_eq!(pool.deposit(100, 100, 101, 0), Err(AmmError::SlippageExceeded));
    assert_eq!(pool, before);
    assert_eq!(pool.deposit(100, 100, 100, 50), Ok(100_000));
}

#[test]
fn deposit_failures_leave_the_pool_unchanged() {
    let mut pool = reference_pool();
    let before = pool;
    assert_eq!(pool.deposit(0, 100, 0, 0), Err(AmmError::InvalidAmount));
    assert_eq!(pool, before);
    assert_eq!(pool.deposit(100, 0, 0, 0), Err(AmmError::InvalidAmount));
    assert_eq!(pool, before);
}

#[test]
fn deposit_that_the_pool_cannot_hold_overflows() {
    let mut pool = Pool::initialize(owner(), 1_000, 1_000, 30).unwrap();
    pool.reserve_a = u64::MAX - 10;
    pool.reserve_b = u64::MAX - 10;
    pool.total_shares = 1_000;
    let before = pool;
    assert_eq!(pool.deposit(u64::MAX, u64::MAX, 0, 0), Err(AmmError::Overflow));
    assert_eq!(pool, before);
}

#[test]
fn deposit_into_an_emptied_pool_starts_over() {
    let mut pool = reference_pool();
    pool.withdraw(1_000_000, 1_000, 1_000).unwrap();
    assert_eq!(pool.total_shares, 0);
    assert_eq!(pool.deposit(5, 8, 5, 8), Ok(5_000));
    assert_eq!((pool.reserve_a, pool.reserve_b, pool.total_shares), (5, 8, 5_000));
}

#[test]
fn withdraw_pays_the_share_of_each_reserve() {
    let mut pool = reference_pool();
    assert_eq!(pool.withdraw(250_000, 250, 250), Ok((250, 250)));
    assert_eq!(pool.reserve_a, 750);
    assert_eq!(pool.reserve_b, 750);
    assert_eq!(pool.total_shares, 750_000);
}

#[test]
fn withdraw_of_all_shares_returns_the_full_reserves() {
    let mut pool = reference_pool();
    assert_eq!(pool.withdraw(1_000_000, 0, 0), Ok((1_000, 1_000)));
    assert_eq!((pool.reserve_a, pool.reserve_b, pool.total_shares), (0, 0, 0));
}

#[test]
fn withdraw_of_all_shares_after_trading_returns_what_the_pool_holds() {
    let mut pool = reference_pool();
    pool.swap(100, Direction::AToB, 0).unwrap();
    pool.swap(37, Direction::BToA, 0).unwrap();
    pool.swap(5, Direction::AToB, 0).unwrap();
    let (held_a, held_b) = (pool.reserve_a, pool.reserve_b);
    assert_eq!(pool.withdraw(1_000_000, 0, 0), Ok((held_a, held_b)));
    assert_eq!((pool.reserve_a, pool.reserve_b, pool.total_shares), (0, 0, 0));
}

#[test]
fn withdraw_below_the_minimum_fails_for_slippage() {
    let mut pool = reference_pool();
    let before = pool;
    assert_eq!(pool.withdraw(250_000, 251, 0), Err(AmmError::SlippageExceeded));
    assert_eq!(pool, before);
    assert_eq!(pool.withdraw(250_000, 0, 251), Err(AmmError::SlippageExceeded));
    assert_eq!(pool, before);
}

#[test]
fn withdraw_failures_leave_the_pool_unchanged() {
    let mut pool = reference_pool();
    let before = pool;
    assert_eq!(pool.withdraw(0, 0, 0), Err(AmmError::InvalidAmount));
    assert_eq!(pool, before);
    assert_eq!(pool.withdraw(1_000_001, 0, 0), Err(AmmError::Insufficientbalance));
    assert_eq!(pool, before);
    assert_eq!(pool.withdraw(999, 0, 0), Err(AmmError::Insufficientbalance));
    assert_eq!(pool, before);
}

#[test]
fn deposit_then_withdraw_gains_nothing() {
    let mut pool = Pool::initialize(owner(), 123_456, 789, 30).unwrap();
    pool.swap(1_000, Direction::AToB, 0).unwrap();
    let (before_a, before_b) = (pool.reserve_a, pool.reserve_b);
    let shares = pool.deposit(10_000, 10_000, 0, 0).unwrap();
    let (paid_a, paid_b) = (pool.reserve_a - before_a, pool.reserve_b - before_b);
    let (back_a, back_b) = pool.withdraw(shares, 0, 0).unwrap();
    assert!(back_a <= paid_a);
    assert!(back_b <= paid_b);
    assert!(pool.reserve_a >= before_a);
    assert!(pool.reserve_b >= before_b);
}

#[test]
fn locked_pool_refuses_deposit_swap_and_withdraw() {
    let mut pool = reference_pool();
    pool.update(&owner(), PoolUpdate::ToggleLock).unwrap();
    assert_eq!(pool.current_state(), PoolState::Locked);
    let before = pool;
    assert_eq!(pool.deposit(100, 100, 0, 0), Err(AmmError::PoolLocked));
    assert_eq!(pool, before);
    assert_eq!(pool.swap(100, Direction::AToB, 0), Err(AmmError::PoolLocked));
    assert_eq!(pool, before);
    assert_eq!(pool.swap(100, Direction::BToA, 0), Err(AmmError::PoolLocked));
    assert_eq!(pool, before);
    assert_eq!(pool.withdraw(1_000, 0, 0), Err(AmmError::PoolLocked));
    assert_eq!(pool, before);
}

#[test]
fn locked_pool_reports_the_lock_before_any_other_error() {
    let mut pool = reference_pool();
    pool.update(&owner(), PoolUpdate::ToggleLock).unwrap();
    assert_eq!(pool.deposit(0, 0, 0, 0), Err(AmmError::PoolLocked));
    assert_eq!(pool.swap(0, Direction::AToB, 0), Err(AmmError::PoolLocked));
    assert_eq!(pool.withdraw(0, 0, 0), Err(AmmError::PoolLocked));
}

#[test]
fn unlocking_reopens_the_pool() {
    let mut pool = reference_pool();
    pool.update(&owner(), PoolUpdate::ToggleLock).unwrap();
    pool.update(&owner(), PoolUpdate::ToggleLock).unwrap();
    assert_eq!(pool.current_state(), PoolState::Active);
    assert_eq!(pool.swap(100, Direction::AToB, 90), Ok(90));
}

#[test]
fn update_changes_the_fee() {
    let mut pool = reference_pool();
    assert_eq!(pool.update(&owner(), PoolUpdate::SetFee(100)), Ok(()));
    assert_eq!(pool.fee_bps, 100);
    assert_eq!(pool.update(&owner(), PoolUpdate::SetFee(10_000)), Ok(()));
    assert_eq!(pool.fee_bps, 10_000);
    assert_eq!((pool.reserve_a, pool.reserve_b, pool.total_shares), (1_000, 1_000, 1_000_000));
}

#[test]
fn update_rejects_an_invalid_fee() {
    let mut pool = reference_pool();
    let before = pool;
    assert_eq!(pool.update(&owner(), PoolUpdate::SetFee(10_001)), Err(AmmError::InvalidFee));
    assert_eq!(pool, before);
}

#[test]
fn update_by_a_stranger_is_refused() {
    let mut pool = reference_pool();
    let before = pool;
    assert_eq!(pool.update(&stranger(), PoolUpdate::ToggleLock), Err(AmmError::InvalidAuthority));
    assert_eq!(pool, before);
    assert_eq!(pool.update(&stranger(), PoolUpdate::SetFee(0)), Err(AmmError::InvalidAuthority));
    assert_eq!(pool, before);
    assert_eq!(
        pool.update(&stranger(), PoolUpdate::SetFee(10_001)),
        Err(AmmError::InvalidAuthority)
    );
    assert_eq!(pool, before);
}

#[test]
fn update_works_on_a_locked_pool() {
    let mut pool = reference_pool();
    pool.update(&owner(), PoolUpdate::ToggleLock).unwrap();
    assert_eq!(pool.update(&owner(), PoolUpdate::SetFee(5)), Ok(()));
    assert_eq!(pool.fee_bps, 5);
    assert!(pool.locked);
}

#[test]
fn identities_compare_byte_for_byte() {
    assert!(owner().same_as(&owner()));
    assert!(!owner().same_as(&stranger()));
    let mut bytes = [7u8; 32];
    bytes[0] = 0;
    assert!(!owner().same_as(&Identity::new(bytes)));
    assert_eq!(Identity::new(bytes).bytes, bytes);
}

#[test]
fn repeating_an_operation_has_a_new_effect() {
    let mut pool = reference_pool();
    assert_eq!(pool.swap(100, Direction::AToB, 0), Ok(90));
    assert_eq!(pool.swap(100, Direction::AToB, 0), Ok(75));
    assert_eq!((pool.reserve_a, pool.reserve_b), (1_200, 835));
}
