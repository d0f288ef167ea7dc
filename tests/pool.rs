use stake_pool::error::PoolError;
use stake_pool::instruction::{decode_instruction, read_u64_le, Instruction};
use stake_pool::ledger::find_user;
use stake_pool::processor::{
    add_liquidity, calculate_rewards, claim_rewards, create_stake_pool, is_strictly_increasing,
    prepare_add_liquidity, prepare_claim, prepare_remove_liquidity, prepare_stake,
    prepare_unstake, remove_liquidity, stake_tokens, unstake_tokens, update_pool_rewards,
};
use stake_pool::schedule::nearest_index;
use stake_pool::state::{PoolData, StakeAmount};

const T0: i64 = 1_000;

fn s(x: &str) -> String {
    x.to_string()
}

fn empty_slot() -> PoolData {
    PoolData {
        id: String::new(),
        token: String::new(),
        reward_timelines: vec![],
        reward_percentages: vec![],
        total_stakes: vec![],
        total_liquidity: 0,
        available_rewards: 0,
        owner: String::new(),
    }
}

fn config(timelines: Vec<u8>, percentages: Vec<u8>) -> PoolData {
    PoolData {
        id: s("pool-1"),
        token: s("mint"),
        reward_timelines: timelines,
        reward_percentages: percentages,
        total_stakes: vec![],
        total_liquidity: 0,
        available_rewards: 0,
        owner: s("admin"),
    }
}

fn created_pool() -> PoolData {
    let mut pool = empty_slot();
    create_stake_pool(&mut pool, &s("admin"), config(vec![30, 90, 180], vec![5, 10, 20])).unwrap();
    pool
}

fn sum_of_stakes(pool: &PoolData) -> u64 {
    pool.total_stakes.iter().map(|r| r.amount).sum()
}

/// Pool with the schedule 30/90/180 and 5/10/20 %, a reserve of 1000 funded
/// by the owner, and alice staking 1000 at `T0`.
fn funded_pool_with_alice() -> PoolData {
    let mut pool = created_pool();
    add_liquidity(&mut pool, &s("admin"), 1000, true).unwrap();
    stake_tokens(&mut pool, &s("alice"), 1000, T0, true).unwrap();
    pool
}

#[test]
fn create_sets_configuration_and_empty_ledger() {
    let mut pool = empty_slot();
    let mut cfg = config(vec![30, 90, 180], vec![5, 10, 20]);
    cfg.total_liquidity = 77;
    cfg.available_rewards = 88;
    cfg.total_stakes.push(StakeAmount {
        amount: 5,
        user: s("x"),
        starts_at: 0,
        rewards_claimed_upto: None,
    });
    assert_eq!(create_stake_pool(&mut pool, &s("admin"), cfg), Ok(()));
    assert_eq!(pool.id, "pool-1");
    assert_eq!(pool.token, "mint");
    assert_eq!(pool.owner, "admin");
    assert_eq!(pool.reward_timelines, vec![30, 90, 180]);
    assert_eq!(pool.reward_percentages, vec![5, 10, 20]);
    assert!(pool.total_stakes.is_empty());
    assert_eq!(pool.total_liquidity, 0);
    assert_eq!(pool.available_rewards, 0);
}

#[test]
fn create_twice_is_already_initialized() {
    let mut pool = created_pool();
    let before = pool.clone();
    let r = create_stake_pool(&mut pool, &s("admin"), config(vec![1], vec![1]));
    assert_eq!(r, Err(PoolError::AlreadyInitialized));
    assert_eq!(pool, before);
}

#[test]
fn create_rejects_bad_schedules() {
    let mut pool = empty_slot();
    let r = create_stake_pool(&mut pool, &s("admin"), config(vec![30, 30], vec![5, 10]));
    assert_eq!(r, Err(PoolError::InvalidScheduleConfig));
    let r = create_stake_pool(&mut pool, &s("admin"), config(vec![90, 30], vec![5, 10]));
    assert_eq!(r, Err(PoolError::InvalidScheduleConfig));
    let r = create_stake_pool(&mut pool, &s("admin"), config(vec![30, 90], vec![5]));
    assert_eq!(r, Err(PoolError::InvalidScheduleConfig));
    assert_eq!(pool, empty_slot());
}

#[test]
fn non_owner_is_unauthorized_and_pool_unchanged() {
    let mut slot = empty_slot();
    let r = create_stake_pool(&mut slot, &s("mallory"), config(vec![30], vec![5]));
    assert_eq!(r, Err(PoolError::Unauthorized));
    assert_eq!(slot, empty_slot());

    let mut pool = funded_pool_with_alice();
    let before = pool.clone();
    assert_eq!(add_liquidity(&mut pool, &s("mallory"), 10, true), Err(PoolError::Unauthorized));
    assert_eq!(remove_liquidity(&mut pool, &s("mallory"), true), Err(PoolError::Unauthorized));
    assert_eq!(update_pool_rewards(&mut pool, &s("mallory"), 10), Err(PoolError::Unauthorized));
    assert_eq!(prepare_add_liquidity(&pool, &s("mallory"), 10), Err(PoolError::Unauthorized));
    assert_eq!(prepare_remove_liquidity(&pool, &s("mallory")), Err(PoolError::Unauthorized));
    assert_eq!(pool, before);
}

#[test]
fn claim_at_second_tier_pays_ten_percent() {
    let mut pool = funded_pool_with_alice();
    assert_eq!(pool.available_rewards, 1000);
    assert_eq!(prepare_claim(&pool, &s("alice"), T0 + 100), Ok(100));
    assert_eq!(claim_rewards(&mut pool, &s("alice"), T0 + 100, true), Ok(()));
    assert_eq!(pool.available_rewards, 900);
    let rec = &pool.total_stakes[0];
    assert_eq!(rec.rewards_claimed_upto, Some(1));
    assert_eq!(rec.amount, 1000);
    assert_eq!(rec.starts_at, T0);
}

#[test]
fn claim_again_without_new_tier_is_already_claimed() {
    let mut pool = funded_pool_with_alice();
    claim_rewards(&mut pool, &s("alice"), T0 + 100, true).unwrap();
    let before = pool.clone();
    let r = claim_rewards(&mut pool, &s("alice"), T0 + 95, true);
    assert_eq!(r, Err(PoolError::AlreadyClaimed));
    assert_eq!(pool.available_rewards, 900);
    assert_eq!(pool, before);
}

#[test]
fn claim_twice_at_same_time_is_already_claimed() {
    let mut pool = funded_pool_with_alice();
    claim_rewards(&mut pool, &s("alice"), T0 + 200, true).unwrap();
    assert_eq!(pool.available_rewards, 800);
    let r = claim_rewards(&mut pool, &s("alice"), T0 + 200, true);
    assert_eq!(r, Err(PoolError::AlreadyClaimed));
    assert_eq!(pool.available_rewards, 800);
}

#[test]
fn claim_at_later_tier_pays_again() {
    let mut pool = funded_pool_with_alice();
    claim_rewards(&mut pool, &s("alice"), T0 + 30, true).unwrap();
    assert_eq!(pool.available_rewards, 950);
    claim_rewards(&mut pool, &s("alice"), T0 + 180, true).unwrap();
    assert_eq!(pool.available_rewards, 750);
    assert_eq!(pool.total_stakes[0].rewards_claimed_upto, Some(2));
}

#[test]
fn claim_before_first_tier_is_no_tier_reached() {
    let mut pool = funded_pool_with_alice();
    assert_eq!(claim_rewards(&mut pool, &s("alice"), T0 + 29, true), Err(PoolError::NoTierReached));
    assert_eq!(claim_rewards(&mut pool, &s("alice"), T0 - 5, true), Err(PoolError::NoTierReached));
    assert_eq!(pool.available_rewards, 1000);
}

#[test]
fn claim_with_empty_schedule_is_invalid_schedule() {
    let mut pool = empty_slot();
    create_stake_pool(&mut pool, &s("admin"), config(vec![], vec![])).unwrap();
    add_liquidity(&mut pool, &s("admin"), 10, true).unwrap();
    stake_tokens(&mut pool, &s("alice"), 10, T0, true).unwrap();
    let r = claim_rewards(&mut pool, &s("alice"), T0 + 1000, true);
    assert_eq!(r, Err(PoolError::InvalidScheduleConfig));
}

#[test]
fn claim_beyond_reserve_is_insufficient_reserve() {
    let mut pool = created_pool();
    stake_tokens(&mut pool, &s("alice"), 1000, T0, true).unwrap();
    add_liquidity(&mut pool, &s("admin"), 99, true).unwrap();
    let before = pool.clone();
    let r = claim_rewards(&mut pool, &s("alice"), T0 + 100, true);
    assert_eq!(r, Err(PoolError::InsufficientReserve));
    assert_eq!(pool, before);
}

#[test]
fn claim_by_stranger_is_not_found() {
    let mut pool = funded_pool_with_alice();
    assert_eq!(claim_rewards(&mut pool, &s("bob"), T0 + 100, true), Err(PoolError::NotFound));
}

#[test]
fn claim_with_failed_transfer_changes_nothing_and_can_retry() {
    let mut pool = funded_pool_with_alice();
    let before = pool.clone();
    let r = claim_rewards(&mut pool, &s("alice"), T0 + 100, false);
    assert_eq!(r, Err(PoolError::TransferFailed));
    assert_eq!(pool, before);
    assert_eq!(claim_rewards(&mut pool, &s("alice"), T0 + 100, true), Ok(()));
    assert_eq!(pool.available_rewards, 900);
}

#[test]
fn stake_zero_is_invalid_amount() {
    let mut pool = funded_pool_with_alice();
    let before = pool.clone();
    assert_eq!(stake_tokens(&mut pool, &s("bob"), 0, T0, true), Err(PoolError::InvalidAmount));
    assert_eq!(prepare_stake(&pool, &s("bob"), 0), Err(PoolError::InvalidAmount));
    assert_eq!(pool, before);
}

#[test]
fn stake_records_position_and_liquidity() {
    let mut pool = created_pool();
    assert_eq!(prepare_stake(&pool, &s("alice"), 250), Ok(250));
    assert_eq!(stake_tokens(&mut pool, &s("alice"), 250, T0, true), Ok(()));
    assert_eq!(stake_tokens(&mut pool, &s("bob"), 750, T0 + 1, true), Ok(()));
    assert_eq!(pool.total_liquidity, 1000);
    assert_eq!(
        pool.total_stakes[1],
        StakeAmount { amount: 750, user: s("bob"), starts_at: T0 + 1, rewards_claimed_upto: None }
    );
}

#[test]
fn second_stake_is_duplicate_position() {
    let mut pool = funded_pool_with_alice();
    let before = pool.clone();
    let r = stake_tokens(&mut pool, &s("alice"), 5, T0 + 1, true);
    assert_eq!(r, Err(PoolError::DuplicatePosition));
    assert_eq!(pool, before);
}

#[test]
fn stake_overflowing_liquidity_is_invalid_amount() {
    let mut pool = created_pool();
    stake_tokens(&mut pool, &s("alice"), u64::MAX, T0, true).unwrap();
    let r = stake_tokens(&mut pool, &s("bob"), 1, T0, true);
    assert_eq!(r, Err(PoolError::InvalidAmount));
    assert_eq!(pool.total_liquidity, u64::MAX);
}

#[test]
fn stake_with_failed_transfer_is_transfer_failed() {
    let mut pool = created_pool();
    let before = pool.clone();
    assert_eq!(stake_tokens(&mut pool, &s("alice"), 5, T0, false), Err(PoolError::TransferFailed));
    assert_eq!(pool, before);
}

#[test]
fn stake_then_unstake_restores_pool() {
    let mut pool = funded_pool_with_alice();
    let before = pool.clone();
    stake_tokens(&mut pool, &s("bob"), 300, T0 + 7, true).unwrap();
    assert_eq!(pool.total_liquidity, before.total_liquidity + 300);
    assert_eq!(prepare_unstake(&pool, &s("bob")), Ok(300));
    assert_eq!(unstake_tokens(&mut pool, &s("bob"), true), Ok(()));
    assert_eq!(pool, before);
    assert_eq!(find_user(&pool.total_stakes, &s("bob")), None);
}

#[test]
fn unstake_unknown_is_not_found() {
    let mut pool = funded_pool_with_alice();
    assert_eq!(unstake_tokens(&mut pool, &s("bob"), true), Err(PoolError::NotFound));
}

#[test]
fn unstake_after_sweep_is_invalid_amount() {
    let mut pool = funded_pool_with_alice();
    remove_liquidity(&mut pool, &s("admin"), true).unwrap();
    let r = unstake_tokens(&mut pool, &s("alice"), true);
    assert_eq!(r, Err(PoolError::InvalidAmount));
    assert_eq!(pool.total_stakes.len(), 1);
}

#[test]
fn unstake_with_failed_transfer_keeps_position() {
    let mut pool = funded_pool_with_alice();
    let before = pool.clone();
    assert_eq!(unstake_tokens(&mut pool, &s("alice"), false), Err(PoolError::TransferFailed));
    assert_eq!(pool, before);
}

#[test]
fn liquidity_tracks_stakes_through_stake_unstake_and_claim() {
    let mut pool = created_pool();
    stake_tokens(&mut pool, &s("alice"), 400, T0, true).unwrap();
    stake_tokens(&mut pool, &s("bob"), 600, T0, true).unwrap();
    stake_tokens(&mut pool, &s("carol"), 50, T0, true).unwrap();
    assert_eq!(pool.total_liquidity, sum_of_stakes(&pool));
    unstake_tokens(&mut pool, &s("bob"), true).unwrap();
    assert_eq!(pool.total_liquidity, sum_of_stakes(&pool));
    assert_eq!(pool.total_liquidity, 450);
    update_pool_rewards(&mut pool, &s("admin"), 1000).unwrap();
    claim_rewards(&mut pool, &s("carol"), T0 + 90, true).unwrap();
    assert_eq!(pool.total_liquidity, sum_of_stakes(&pool));
    assert_eq!(pool.available_rewards, 995);
}

#[test]
fn add_liquidity_grows_liquidity_and_reserve() {
    let mut pool = created_pool();
    assert_eq!(prepare_add_liquidity(&pool, &s("admin"), 500), Ok(500));
    assert_eq!(add_liquidity(&mut pool, &s("admin"), 500, true), Ok(()));
    assert_eq!(pool.total_liquidity, 500);
    assert_eq!(pool.available_rewards, 500);
    assert_eq!(add_liquidity(&mut pool, &s("admin"), 0, true), Err(PoolError::InvalidAmount));
    assert_eq!(
        add_liquidity(&mut pool, &s("admin"), u64::MAX, true),
        Err(PoolError::InvalidAmount)
    );
    assert_eq!(add_liquidity(&mut pool, &s("admin"), 5, false), Err(PoolError::TransferFailed));
    assert_eq!(pool.total_liquidity, 500);
}

#[test]
fn remove_liquidity_zeroes_counters_and_keeps_positions() {
    let mut pool = funded_pool_with_alice();
    assert_eq!(prepare_remove_liquidity(&pool, &s("admin")), Ok(2000));
    assert_eq!(remove_liquidity(&mut pool, &s("admin"), false), Err(PoolError::TransferFailed));
    assert_eq!(pool.total_liquidity, 2000);
    assert_eq!(remove_liquidity(&mut pool, &s("admin"), true), Ok(()));
    assert_eq!(pool.total_liquidity, 0);
    assert_eq!(pool.available_rewards, 0);
    assert_eq!(pool.total_stakes.len(), 1);
}

#[test]
fn update_pool_rewards_raises_reserve() {
    let mut pool = created_pool();
    assert_eq!(update_pool_rewards(&mut pool, &s("admin"), 40), Ok(()));
    assert_eq!(pool.available_rewards, 40);
    assert_eq!(pool.total_liquidity, 0);
    assert_eq!(
        update_pool_rewards(&mut pool, &s("admin"), u64::MAX),
        Err(PoolError::InvalidAmount)
    );
    assert_eq!(pool.available_rewards, 40);
}

#[test]
fn nearest_index_picks_largest_reached_threshold() {
    let t: Vec<u8> = vec![30, 90, 180];
    assert_eq!(nearest_index(&t, 0), Err(PoolError::NoTierReached));
    assert_eq!(nearest_index(&t, 29), Err(PoolError::NoTierReached));
    assert_eq!(nearest_index(&t, 30), Ok(0));
    assert_eq!(nearest_index(&t, 89), Ok(0));
    assert_eq!(nearest_index(&t, 90), Ok(1));
    assert_eq!(nearest_index(&t, 100), Ok(1));
    assert_eq!(nearest_index(&t, 179), Ok(1));
    assert_eq!(nearest_index(&t, 180), Ok(2));
    assert_eq!(nearest_index(&t, u64::MAX), Ok(2));
    assert_eq!(nearest_index(&[], 500), Err(PoolError::InvalidScheduleConfig));
}

#[test]
fn tiers_never_decrease_with_elapsed_time() {
    let t: Vec<u8> = vec![30, 90, 180];
    let tier = |e: u64| match nearest_index(&t, e) {
        Ok(i) => i as i64,
        Err(_) => -1,
    };
    for e1 in 0..260u64 {
        for e2 in e1..260u64 {
            assert!(tier(e1) <= tier(e2));
        }
    }
}

#[test]
fn calculate_rewards_takes_percentage_rounded_down() {
    let pool = created_pool();
    assert_eq!(calculate_rewards(&pool, 1000, 1), 100);
    assert_eq!(calculate_rewards(&pool, 999, 0), 49);
    assert_eq!(calculate_rewards(&pool, 0, 2), 0);
    assert_eq!(calculate_rewards(&pool, u64::MAX, 2), (u64::MAX as u128) * 20 / 100);
}

#[test]
fn strictly_increasing_check() {
    assert!(is_strictly_increasing(&vec![]));
    assert!(is_strictly_increasing(&vec![7]));
    assert!(is_strictly_increasing(&vec![30, 90, 180]));
    assert!(!is_strictly_increasing(&vec![30, 30]));
    assert!(!is_strictly_increasing(&vec![30, 90, 80]));
}

#[test]
fn find_user_locates_position() {
    let mut pool = created_pool();
    stake_tokens(&mut pool, &s("alice"), 1, T0, true).unwrap();
    stake_tokens(&mut pool, &s("bob"), 2, T0, true).unwrap();
    assert_eq!(find_user(&pool.total_stakes, &s("bob")), Some(1));
    assert_eq!(find_user(&pool.total_stakes, &s("alice")), Some(0));
    assert_eq!(find_user(&pool.total_stakes, &s("carol")), None);
}

#[test]
fn decode_instruction_frames_each_opcode() {
    assert_eq!(decode_instruction(&[]), Err(PoolError::InvalidCommand));
    assert_eq!(decode_instruction(&[7]), Err(PoolError::InvalidCommand));
    assert_eq!(decode_instruction(&[0, 1]), Err(PoolError::InvalidCommand));
    assert_eq!(
        decode_instruction(&[1, 9, 8]),
        Ok(Instruction::CreatePool { config: vec![9, 8] })
    );
    assert_eq!(decode_instruction(&[2, 4]), Ok(Instruction::StakeTokens { stake: vec![4] }));
    assert_eq!(decode_instruction(&[3, 254]), Ok(Instruction::UnstakeTokens { bump_seed: 254 }));
    assert_eq!(decode_instruction(&[3]), Err(PoolError::MalformedInput));
    assert_eq!(decode_instruction(&[4]), Ok(Instruction::ClaimRewards));
    assert_eq!(
        decode_instruction(&[5, 0xe8, 0x03, 0, 0, 0, 0, 0, 0]),
        Ok(Instruction::AddLiquidity { amount: 1000 })
    );
    assert_eq!(decode_instruction(&[5, 1, 2, 3]), Err(PoolError::MalformedInput));
    assert_eq!(decode_instruction(&[6, 9]), Ok(Instruction::RemoveLiquidity { bump_seed: 9 }));
    assert_eq!(decode_instruction(&[6]), Err(PoolError::MalformedInput));
}

#[test]
fn read_u64_le_matches_std() {
    let bytes = [0x01, 0x23, 0x45, 0x67, 0x89, 0xab, 0xcd, 0xef];
    assert_eq!(read_u64_le(&bytes), u64::from_le_bytes(bytes));
    assert_eq!(read_u64_le(&[0xff; 8]), u64::MAX);
    assert_eq!(read_u64_le(&[0; 8]), 0);
}

#[test]
fn unstake_of_zero_position_is_a_no_op() {
    let mut pool = created_pool();
    pool.total_stakes.push(StakeAmount {
        amount: 0,
        user: s("ghost"),
        starts_at: T0,
        rewards_claimed_upto: None,
    });
    let before = pool.clone();
    assert_eq!(prepare_unstake(&pool, &s("ghost")), Ok(0));
    assert_eq!(unstake_tokens(&mut pool, &s("ghost"), false), Ok(()));
    assert_eq!(pool, before);
}
