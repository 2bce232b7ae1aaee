use amm::Amm;
use amm::AmmError;

#[test]
fn new_works() {
    let alice: u64 = 1;
    let contract = Amm::new();
    assert_eq!(contract.getMyHoldings(alice), (0, 0, 0));
    assert_eq!(contract.getPoolDetails(), (0, 0, 0));
}

#[test]
fn faucet_works() {
    let alice: u64 = 1;
    let mut contract = Amm::new();
    contract.faucet(alice, 100, 200);
    assert_eq!(contract.getMyHoldings(alice), (100, 200, 0));
}

#[test]
fn zero_liquidity_test() {
    let contract = Amm::new();
    let res = contract.getEquivalentToken1Estimate(5);
    assert_eq!(res, Err(AmmError::ZeroLiquidity));
}

#[test]
fn provide_works() {
    let alice: u64 = 1;
    let mut contract = Amm::new();
    contract.faucet(alice, 100, 200);
    let share = contract.provide(alice, 10, 20).unwrap();
    assert_eq!(share, 100_000_000);
    assert_eq!(contract.getPoolDetails(), (10, 20, share));
    assert_eq!(contract.getMyHoldings(alice), (90, 180, share));
}

#[test]
fn withdraw_works() {
    let alice: u64 = 1;
    let mut contract = Amm::new();
    contract.faucet(alice, 100, 200);
    let share = contract.provide(alice, 10, 20).unwrap();
    assert_eq!(contract.withdraw(alice, share / 5).unwrap(), (2, 4));
    assert_eq!(contract.getMyHoldings(alice), (92, 184, 4 * share / 5));
    assert_eq!(contract.getPoolDetails(), (8, 16, 4 * share / 5));
}

#[test]
fn swap_works() {
    let alice: u64 = 1;
    let mut contract = Amm::new();
    contract.faucet(alice, 100, 200);
    let share = contract.provide(alice, 50, 100).unwrap();
    let amount_token2 = contract.swapToken1(alice, 50).unwrap();
    assert_eq!(amount_token2, 50);
    assert_eq!(contract.getMyHoldings(alice), (0, 150, share));
    assert_eq!(contract.getPoolDetails(), (100, 50, share));
}

#[test]
fn swap_token2_mirror() {
    let alice: u64 = 1;
    let mut contract = Amm::new();
    contract.faucet(alice, 100, 200);
    let share = contract.provide(alice, 50, 100).unwrap();
    let amount_token1 = contract.swapToken2(alice, 100).unwrap();
    assert_eq!(amount_token1, 25);
    assert_eq!(contract.getMyHoldings(alice), (75, 0, share));
    assert_eq!(contract.getPoolDetails(), (25, 200, share));
}

#[test]
fn equivalent_estimates_exact() {
    let alice: u64 = 1;
    let mut contract = Amm::new();
    contract.faucet(alice, 100, 200);
    contract.provide(alice, 10, 20).unwrap();
    assert_eq!(contract.getEquivalentToken1Estimate(5), Ok(2));
    assert_eq!(contract.getEquivalentToken2Estimate(5), Ok(10));
}

#[test]
fn quotes_are_pure() {
    let alice: u64 = 1;
    let mut contract = Amm::new();
    contract.faucet(alice, 100, 200);
    contract.provide(alice, 10, 20).unwrap();
    assert_eq!(
        contract.getEquivalentToken1Estimate(7),
        contract.getEquivalentToken1Estimate(7)
    );
    assert_eq!(
        contract.getSwapToken1Estimate(3),
        contract.getSwapToken1Estimate(3)
    );
    assert_eq!(
        contract.getWithdrawEstimate(50_000_000),
        contract.getWithdrawEstimate(50_000_000)
    );
    assert_eq!(
        contract.getSwapToken1EstimateGivenToken2(5),
        contract.getSwapToken1EstimateGivenToken2(5)
    );
}

#[test]
fn provide_zero_amount_rejected() {
    let alice: u64 = 1;
    let mut contract = Amm::new();
    contract.faucet(alice, 100, 200);
    assert_eq!(contract.provide(alice, 0, 20), Err(AmmError::ZeroAmount));
    assert_eq!(contract.provide(alice, 10, 0), Err(AmmError::ZeroAmount));
    assert_eq!(contract.getPoolDetails(), (0, 0, 0));
}

#[test]
fn provide_insufficient_amount_rejected() {
    let alice: u64 = 1;
    let mut contract = Amm::new();
    contract.faucet(alice, 100, 200);
    assert_eq!(
        contract.provide(alice, 101, 20),
        Err(AmmError::InsufficientAmount)
    );
    assert_eq!(
        contract.provide(alice, 10, 201),
        Err(AmmError::InsufficientAmount)
    );
    assert_eq!(contract.getMyHoldings(alice), (100, 200, 0));
}

#[test]
fn provide_unequal_value_rejected() {
    let alice: u64 = 1;
    let mut contract = Amm::new();
    contract.faucet(alice, 100, 200);
    contract.provide(alice, 10, 20).unwrap();
    assert_eq!(
        contract.provide(alice, 5, 7),
        Err(AmmError::UnequalTokenValue)
    );
    assert_eq!(contract.getPoolDetails(), (10, 20, 100_000_000));
}

#[test]
fn provide_too_small_contribution_rejected() {
    let alice: u64 = 1;
    let mut contract = Amm::new();
    contract.faucet(alice, 2_000_000_000, 4_000_000_000);
    contract.provide(alice, 1_000_000_000, 2_000_000_000).unwrap();
    assert_eq!(
        contract.provide(alice, 1, 2),
        Err(AmmError::InsufficientLiquidityMinted)
    );
}

#[test]
fn withdraw_validation_errors() {
    let alice: u64 = 1;
    let mut contract = Amm::new();
    contract.faucet(alice, 100, 200);
    let share = contract.provide(alice, 10, 20).unwrap();
    assert_eq!(contract.withdraw(alice, 0), Err(AmmError::ZeroAmount));
    assert_eq!(
        contract.withdraw(alice, share + 1),
        Err(AmmError::InsufficientAmount)
    );
    assert_eq!(contract.getPoolDetails(), (10, 20, share));
}

#[test]
fn withdraw_estimate_share_exceeds_total() {
    let alice: u64 = 1;
    let mut contract = Amm::new();
    assert_eq!(
        contract.getWithdrawEstimate(1),
        Err(AmmError::ZeroLiquidity)
    );
    contract.faucet(alice, 100, 200);
    let share = contract.provide(alice, 10, 20).unwrap();
    assert_eq!(
        contract.getWithdrawEstimate(share + 1),
        Err(AmmError::ShareExceedsTotal)
    );
    assert_eq!(contract.getWithdrawEstimate(share), Ok((10, 20)));
}

#[test]
fn swap_on_empty_pool_rejected() {
    let alice: u64 = 1;
    let mut contract = Amm::new();
    contract.faucet(alice, 100, 200);
    assert_eq!(contract.swapToken1(alice, 0), Err(AmmError::ZeroAmount));
    assert_eq!(
        contract.swapToken1(alice, 101),
        Err(AmmError::InsufficientAmount)
    );
    assert_eq!(contract.swapToken1(alice, 50), Err(AmmError::ZeroLiquidity));
    assert_eq!(contract.swapToken2(alice, 50), Err(AmmError::ZeroLiquidity));
}

#[test]
fn reverse_swap_pool_balance_boundary() {
    let alice: u64 = 1;
    let mut contract = Amm::new();
    contract.faucet(alice, 100, 200);
    contract.provide(alice, 10, 20).unwrap();
    // Equality with the pool total is rejected as well as exceeding it.
    assert_eq!(
        contract.getSwapToken1EstimateGivenToken2(20),
        Err(AmmError::InsufficientPoolBalance)
    );
    assert_eq!(
        contract.getSwapToken1EstimateGivenToken2(25),
        Err(AmmError::InsufficientPoolBalance)
    );
    assert_eq!(contract.getSwapToken1EstimateGivenToken2(5), Ok(3));
    assert_eq!(
        contract.getSwapToken2EstimateGivenToken1(10),
        Err(AmmError::InsufficientPoolBalance)
    );
    assert_eq!(contract.getSwapToken2EstimateGivenToken1(5), Ok(20));
}

#[test]
fn swap_degenerate_output_bumped() {
    let alice: u64 = 1;
    let mut contract = Amm::new();
    contract.faucet(alice, 10, 10);
    contract.provide(alice, 1, 1).unwrap();
    // The raw quote would drain the whole token2 reserve; the ledger keeps
    // a margin of one token, leaving a zero payout here.
    assert_eq!(contract.getSwapToken1Estimate(5), Ok(0));
    assert_eq!(contract.swapToken1(alice, 5), Ok(0));
    assert_eq!(contract.getPoolDetails(), (6, 1, 100_000_000));
    assert_eq!(contract.getMyHoldings(alice), (4, 9, 100_000_000));
}

#[test]
fn provide_withdraw_round_trip_exact() {
    let alice: u64 = 1;
    let mut contract = Amm::new();
    contract.faucet(alice, 100, 200);
    let share = contract.provide(alice, 10, 20).unwrap();
    assert_eq!(contract.withdraw(alice, share).unwrap(), (10, 20));
    assert_eq!(contract.getMyHoldings(alice), (100, 200, 0));
    assert_eq!(contract.getPoolDetails(), (0, 0, 0));
    // The emptied pool is inactive again.
    assert_eq!(
        contract.getEquivalentToken1Estimate(5),
        Err(AmmError::ZeroLiquidity)
    );
}

#[test]
fn shares_sum_across_accounts() {
    let alice: u64 = 1;
    let bob: u64 = 2;
    let mut contract = Amm::new();
    contract.faucet(alice, 100, 200);
    contract.faucet(bob, 100, 200);
    let share_a = contract.provide(alice, 10, 20).unwrap();
    let share_b = contract.provide(bob, 5, 10).unwrap();
    assert_eq!(share_a, 100_000_000);
    assert_eq!(share_b, 50_000_000);
    assert_eq!(contract.getPoolDetails(), (15, 30, share_a + share_b));
    assert_eq!(contract.getMyHoldings(alice), (90, 180, share_a));
    assert_eq!(contract.getMyHoldings(bob), (95, 190, share_b));
    assert_eq!(contract.withdraw(bob, share_b).unwrap(), (5, 10));
    assert_eq!(contract.getPoolDetails(), (10, 20, share_a));
    assert_eq!(contract.getMyHoldings(bob), (100, 200, 0));
}
