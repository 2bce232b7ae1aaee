use vstd::prelude::*;

use crate::account_map::BalanceMap;
use crate::types::AccountId;
use crate::types::Balance;
use crate::types::PRECISION;

verus! {

/// A positive quantity covered by the owned balance: demanded before any
/// operation that debits a caller-owned quantity.
pub open spec fn has_amount(qty: Balance, owned: Balance) -> bool {
    qty != 0 && qty <= owned
}

/// The typed failures of the pool ledger.  Every operation either succeeds
/// or returns one of these; no operation mutates state before failing.
#[derive(Clone, Copy, Debug, PartialEq, Eq, Structural)]
pub enum AmmError {
    /// The pool holds no liquidity (`K == 0`), so nothing can be priced.
    ZeroLiquidity,
    /// A zero quantity was supplied where a positive one is required.
    ZeroAmount,
    /// The caller's relevant balance is smaller than the requested quantity.
    InsufficientAmount,
    /// A liquidity contribution's two amounts do not match the pool ratio.
    UnequalTokenValue,
    /// A liquidity contribution rounds down to zero mintable shares.
    InsufficientLiquidityMinted,
    /// A withdrawal estimate asks for more shares than exist in total.
    ShareExceedsTotal,
    /// A reverse-swap estimate asks for an output at or above the pool's
    /// total of that token.
    InsufficientPoolBalance,
}

/// The pool ledger: custody balances, pooled totals, ownership shares, and
/// the product invariant `K`.
pub struct Amm {
    pub totalShares: Balance,
    pub totalToken1: Balance,
    pub totalToken2: Balance,
    pub K: Balance,
    pub shares: BalanceMap,
    pub token1Balance: BalanceMap,
    pub token2Balance: BalanceMap,
}

impl Amm {
    /// Well-formedness of the ledger: shares sum to `totalShares`, each map
    /// keeps one entry per account, and `K` is zero exactly when the pool is
    /// empty.
    pub open spec fn wf(self) -> bool {
        &&& self.shares.map_wf()
        &&& self.token1Balance.map_wf()
        &&& self.token2Balance.map_wf()
        &&& self.shares.total() == self.totalShares as int
        &&& (self.K == 0 <==> self.totalShares == 0)
        &&& (self.K == 0 <==> self.totalToken1 == 0)
        &&& (self.K == 0 <==> self.totalToken2 == 0)
    }

    /// Amount of token1 implied by `amountToken2` at the current pool ratio.
    pub open spec fn equivalent_token1(self, amountToken2: Balance) -> int {
        self.totalToken1 * amountToken2 / (self.totalToken2 as int)
    }

    /// Amount of token2 implied by `amountToken1` at the current pool ratio.
    pub open spec fn equivalent_token2(self, amountToken1: Balance) -> int {
        self.totalToken2 * amountToken1 / (self.totalToken1 as int)
    }

    /// Shares worth of a token1 contribution at the current pool ratio.
    pub open spec fn share1_of(self, amountToken1: Balance) -> int {
        self.totalShares * amountToken1 / (self.totalToken1 as int)
    }

    /// Shares worth of a token2 contribution at the current pool ratio.
    pub open spec fn share2_of(self, amountToken2: Balance) -> int {
        self.totalShares * amountToken2 / (self.totalToken2 as int)
    }

    /// The share a successful contribution mints: a fixed large denomination
    /// for the first provider, else the contribution's worth in shares.
    pub open spec fn minted_share(self, amountToken1: Balance, amountToken2: Balance) -> int {
        if self.totalShares == 0 {
            100 * (PRECISION as int)
        } else {
            self.share1_of(amountToken1)
        }
    }

    /// Token1 paid out for `share` ownership units.
    pub open spec fn withdraw_amount1(self, share: Balance) -> int {
        share * self.totalToken1 / (self.totalShares as int)
    }

    /// Token2 paid out for `share` ownership units.
    pub open spec fn withdraw_amount2(self, share: Balance) -> int {
        share * self.totalToken2 / (self.totalShares as int)
    }

    /// Token2 reserve after a swap that deposits `amountToken1`, priced off
    /// the stored invariant `K`.
    pub open spec fn swap1_reserve2_after(self, amountToken1: Balance) -> int {
        (self.K as int) / (self.totalToken1 + amountToken1)
    }

    /// Token2 paid out when `amountToken1` is swapped in.  A swap that would
    /// pay nothing pays the pool's margin of one token instead.
    pub open spec fn swap1_output(self, amountToken1: Balance) -> int {
        if self.swap1_reserve2_after(amountToken1) == 0 {
            self.totalToken2 - 1
        } else {
            self.totalToken2 - self.swap1_reserve2_after(amountToken1)
        }
    }

    /// Token1 that must be swapped in to draw `amountToken2` out.
    pub open spec fn swap1_given2_input(self, amountToken2: Balance) -> int {
        (self.K as int) / (self.totalToken2 - amountToken2) - self.totalToken1
    }

    /// Token1 reserve after a swap that deposits `amountToken2`.
    pub open spec fn swap2_reserve1_after(self, amountToken2: Balance) -> int {
        (self.K as int) / (self.totalToken2 + amountToken2)
    }

    /// Token1 paid out when `amountToken2` is swapped in.
    pub open spec fn swap2_output(self, amountToken2: Balance) -> int {
        if self.swap2_reserve1_after(amountToken2) == 0 {
            self.totalToken1 - 1
        } else {
            self.totalToken1 - self.swap2_reserve1_after(amountToken2)
        }
    }

    /// Token2 that must be swapped in to draw `amountToken1` out.
    pub open spec fn swap2_given1_input(self, amountToken1: Balance) -> int {
        (self.K as int) / (self.totalToken1 - amountToken1) - self.totalToken2
    }

    /// A contribution is accepted when both amounts are positive, covered by
    /// the caller's custody, and (once the pool is seeded) worth the same
    /// nonzero number of shares.
    pub open spec fn provide_accepted(
        self,
        caller: AccountId,
        amountToken1: Balance,
        amountToken2: Balance,
    ) -> bool {
        &&& has_amount(amountToken1, self.token1Balance.balance_of(caller))
        &&& has_amount(amountToken2, self.token2Balance.balance_of(caller))
        &&& (self.totalShares != 0 ==> {
            &&& self.share1_of(amountToken1) == self.share2_of(amountToken2)
            &&& self.share1_of(amountToken1) != 0
        })
    }

    /// The machine-width bounds under which a contribution runs without
    /// overflow.  Each bound binds only where the operation would otherwise
    /// reach the arithmetic.
    pub open spec fn provide_safe(
        self,
        caller: AccountId,
        amountToken1: Balance,
        amountToken2: Balance,
    ) -> bool {
        (has_amount(amountToken1, self.token1Balance.balance_of(caller)) && has_amount(
            amountToken2,
            self.token2Balance.balance_of(caller),
        )) ==> {
            &&& self.totalShares * amountToken1 <= u128::MAX
            &&& self.totalShares * amountToken2 <= u128::MAX
            &&& (self.provide_accepted(caller, amountToken1, amountToken2) ==> {
                &&& self.totalToken1 + amountToken1 <= u128::MAX
                &&& self.totalToken2 + amountToken2 <= u128::MAX
                &&& (self.totalToken1 + amountToken1) * (self.totalToken2 + amountToken2)
                    <= u128::MAX
                &&& self.totalShares + self.minted_share(amountToken1, amountToken2) <= u128::MAX
            })
        }
    }

    /// The machine-width bounds under which a withdrawal runs without
    /// overflow.
    pub open spec fn withdraw_safe(self, caller: AccountId, share: Balance) -> bool {
        has_amount(share, self.shares.balance_of(caller)) ==> {
            &&& share * self.totalToken1 <= u128::MAX
            &&& share * self.totalToken2 <= u128::MAX
            &&& (self.totalToken1 - self.withdraw_amount1(share)) * (self.totalToken2
                - self.withdraw_amount2(share)) <= u128::MAX
            &&& self.token1Balance.balance_of(caller) + self.withdraw_amount1(share) <= u128::MAX
            &&& self.token2Balance.balance_of(caller) + self.withdraw_amount2(share) <= u128::MAX
        }
    }

    /// The machine-width bounds under which a token1 swap runs without
    /// overflow or underflow.
    pub open spec fn swap1_safe(self, caller: AccountId, amountToken1: Balance) -> bool {
        (has_amount(amountToken1, self.token1Balance.balance_of(caller)) && self.K != 0) ==> {
            &&& self.totalToken1 + amountToken1 <= u128::MAX
            &&& self.swap1_reserve2_after(amountToken1) <= self.totalToken2
            &&& self.token2Balance.balance_of(caller) + self.swap1_output(amountToken1)
                <= u128::MAX
        }
    }

    /// The machine-width bounds under which a token2 swap runs without
    /// overflow or underflow.
    pub open spec fn swap2_safe(self, caller: AccountId, amountToken2: Balance) -> bool {
        (has_amount(amountToken2, self.token2Balance.balance_of(caller)) && self.K != 0) ==> {
            &&& self.totalToken2 + amountToken2 <= u128::MAX
            &&& self.swap2_reserve1_after(amountToken2) <= self.totalToken1
            &&& self.token1Balance.balance_of(caller) + self.swap2_output(amountToken2)
                <= u128::MAX
        }
    }

    /// A ledger with no liquidity, no shares and no custody balances.
    pub fn new() -> (r: Amm)
        ensures
            r.wf(),
            r.totalShares == 0,
            r.totalToken1 == 0,
            r.totalToken2 == 0,
            r.K == 0,
            forall|a: AccountId| r.shares.balance_of(a) == 0,
            forall|a: AccountId| r.token1Balance.balance_of(a) == 0,
            forall|a: AccountId| r.token2Balance.balance_of(a) == 0,
    {
        Amm {
            totalShares: 0,
            totalToken1: 0,
            totalToken2: 0,
            K: 0,
            shares: BalanceMap::new(),
            token1Balance: BalanceMap::new(),
            token2Balance: BalanceMap::new(),
        }
    }

    /// The caller's custody balances and share balance; absent entries read
    /// as zero.
    pub fn getMyHoldings(&self, caller: AccountId) -> (r: (Balance, Balance, Balance))
        ensures
            r.0 == self.token1Balance.balance_of(caller),
            r.1 == self.token2Balance.balance_of(caller),
            r.2 == self.shares.balance_of(caller),
    {
        let token1 = self.token1Balance.get(caller);
        let token2 = self.token2Balance.get(caller);
        let myShares = self.shares.get(caller);
        (token1, token2, myShares)
    }

    /// The pool totals: locked token1, locked token2, shares outstanding.
    pub fn getPoolDetails(&self) -> (r: (Balance, Balance, Balance))
        ensures
            r.0 == self.totalToken1,
            r.1 == self.totalToken2,
            r.2 == self.totalShares,
    {
        (self.totalToken1, self.totalToken2, self.totalShares)
    }

    /// The pool is active exactly when liquidity has been provided.
    fn activePool(&self) -> (r: Result<(), AmmError>)
        ensures
            r == Ok::<(), AmmError>(()) <==> self.K != 0,
            r == Err::<(), AmmError>(AmmError::ZeroLiquidity) <==> self.K == 0,
    {
        if self.K == 0 {
            Err(AmmError::ZeroLiquidity)
        } else {
            Ok(())
        }
    }

    /// Validation before any debit of a caller-owned quantity: the quantity
    /// must be positive and covered by the caller's balance in `balance`.
    fn validAmountCheck(balance: &BalanceMap, qty: Balance, caller: AccountId) -> (r: Result<
        (),
        AmmError,
    >)
        ensures
            r == Ok::<(), AmmError>(()) <==> has_amount(qty, balance.balance_of(caller)),
            r == Err::<(), AmmError>(AmmError::ZeroAmount) <==> qty == 0,
            r == Err::<(), AmmError>(AmmError::InsufficientAmount) <==> (qty != 0 && qty
                > balance.balance_of(caller)),
    {
        let my_balance = balance.get(caller);
        if qty == 0 {
            Err(AmmError::ZeroAmount)
        } else if qty > my_balance {
            Err(AmmError::InsufficientAmount)
        } else {
            Ok(())
        }
    }

    /// Quote: the token1 worth of `_amountToken2` at the current ratio,
    /// multiplied before dividing, truncating.
    pub fn getEquivalentToken1Estimate(&self, _amountToken2: Balance) -> (r: Result<
        Balance,
        AmmError,
    >)
        requires
            self.wf(),
            self.K != 0 ==> self.totalToken1 * _amountToken2 <= u128::MAX,
        ensures
            r == Err::<Balance, AmmError>(AmmError::ZeroLiquidity) <==> self.K == 0,
            self.K != 0 ==> r == Ok::<Balance, AmmError>(
                self.equivalent_token1(_amountToken2) as Balance,
            ),
    {
        match self.activePool() {
            Err(e) => Err(e),
            Ok(()) => Ok(self.totalToken1 * _amountToken2 / self.totalToken2),
        }
    }

    /// Quote: the token2 worth of `_amountToken1` at the current ratio.
    pub fn getEquivalentToken2Estimate(&self, _amountToken1: Balance) -> (r: Result<
        Balance,
        AmmError,
    >)
        requires
            self.wf(),
            self.K != 0 ==> self.totalToken2 * _amountToken1 <= u128::MAX,
        ensures
            r == Err::<Balance, AmmError>(AmmError::ZeroLiquidity) <==> self.K == 0,
            self.K != 0 ==> r == Ok::<Balance, AmmError>(
                self.equivalent_token2(_amountToken1) as Balance,
            ),
    {
        match self.activePool() {
            Err(e) => Err(e),
            Ok(()) => Ok(self.totalToken2 * _amountToken1 / self.totalToken1),
        }
    }

    /// Quote: the token amounts released by burning `_share` ownership
    /// units, truncating in the pool's favour.
    pub fn getWithdrawEstimate(&self, _share: Balance) -> (r: Result<(Balance, Balance), AmmError>)
        requires
            self.wf(),
            (self.K != 0 && _share <= self.totalShares) ==> {
                &&& _share * self.totalToken1 <= u128::MAX
                &&& _share * self.totalToken2 <= u128::MAX
            },
        ensures
            r == Err::<(Balance, Balance), AmmError>(AmmError::ZeroLiquidity) <==> self.K == 0,
            r == Err::<(Balance, Balance), AmmError>(AmmError::ShareExceedsTotal) <==> (self.K != 0
                && _share > self.totalShares),
            (self.K != 0 && _share <= self.totalShares) ==> r == Ok::<(Balance, Balance), AmmError>(
                ((self.withdraw_amount1(_share) as Balance, self.withdraw_amount2(
                    _share,
                ) as Balance)),
            ),
    {
        match self.activePool() {
            Err(e) => Err(e),
            Ok(()) => {
                if _share > self.totalShares {
                    return Err(AmmError::ShareExceedsTotal);
                }
                let amountToken1 = _share * self.totalToken1 / self.totalShares;
                let amountToken2 = _share * self.totalToken2 / self.totalShares;
                Ok((amountToken1, amountToken2))
            },
        }
    }

    /// Quote: token2 received for swapping `_amountToken1` in, priced so the
    /// stored `K` is approximately preserved; a degenerate zero output is
    /// bumped to one token.
    pub fn getSwapToken1Estimate(&self, _amountToken1: Balance) -> (r: Result<Balance, AmmError>)
        requires
            self.wf(),
            self.K != 0 ==> {
                &&& self.totalToken1 + _amountToken1 <= u128::MAX
                &&& self.swap1_reserve2_after(_amountToken1) <= self.totalToken2
            },
        ensures
            r == Err::<Balance, AmmError>(AmmError::ZeroLiquidity) <==> self.K == 0,
            self.K != 0 ==> r == Ok::<Balance, AmmError>(
                self.swap1_output(_amountToken1) as Balance,
            ),
    {
        match self.activePool() {
            Err(e) => Err(e),
            Ok(()) => {
                let token1After = self.totalToken1 + _amountToken1;
                let token2After = self.K / token1After;
                let mut amountToken2 = self.totalToken2 - token2After;
                if amountToken2 == self.totalToken2 {
                    amountToken2 = amountToken2 - 1;
                }
                Ok(amountToken2)
            },
        }
    }

    /// Quote: token1 that must be swapped in to draw `_amountToken2` out;
    /// the pool cannot be drained to or below zero of a token.
    pub fn getSwapToken1EstimateGivenToken2(&self, _amountToken2: Balance) -> (r: Result<
        Balance,
        AmmError,
    >)
        requires
            self.wf(),
            (self.K != 0 && _amountToken2 < self.totalToken2) ==> self.swap1_given2_input(
                _amountToken2,
            ) >= 0,
        ensures
            r == Err::<Balance, AmmError>(AmmError::ZeroLiquidity) <==> self.K == 0,
            r == Err::<Balance, AmmError>(AmmError::InsufficientPoolBalance) <==> (self.K != 0
                && _amountToken2 >= self.totalToken2),
            (self.K != 0 && _amountToken2 < self.totalToken2) ==> r == Ok::<Balance, AmmError>(
                self.swap1_given2_input(_amountToken2) as Balance,
            ),
    {
        match self.activePool() {
            Err(e) => Err(e),
            Ok(()) => {
                if _amountToken2 >= self.totalToken2 {
                    return Err(AmmError::InsufficientPoolBalance);
                }
                let token2After = self.totalToken2 - _amountToken2;
                let token1After = self.K / token2After;
                let amountToken1 = token1After - self.totalToken1;
                Ok(amountToken1)
            },
        }
    }

    /// Quote: token1 received for swapping `_amountToken2` in; the mirror
    /// image of the token1 swap quote.
    pub fn getSwapToken2Estimate(&self, _amountToken2: Balance) -> (r: Result<Balance, AmmError>)
        requires
            self.wf(),
            self.K != 0 ==> {
                &&& self.totalToken2 + _amountToken2 <= u128::MAX
                &&& self.swap2_reserve1_after(_amountToken2) <= self.totalToken1
            },
        ensures
            r == Err::<Balance, AmmError>(AmmError::ZeroLiquidity) <==> self.K == 0,
            self.K != 0 ==> r == Ok::<Balance, AmmError>(
                self.swap2_output(_amountToken2) as Balance,
            ),
    {
        match self.activePool() {
            Err(e) => Err(e),
            Ok(()) => {
                let token2After = self.totalToken2 + _amountToken2;
                let token1After = self.K / token2After;
                let mut amountToken1 = self.totalToken1 - token1After;
                if amountToken1 == self.totalToken1 {
                    amountToken1 = amountToken1 - 1;
                }
                Ok(amountToken1)
            },
        }
    }

    /// Quote: token2 that must be swapped in to draw `_amountToken1` out.
    pub fn getSwapToken2EstimateGivenToken1(&self, _amountToken1: Balance) -> (r: Result<
        Balance,
        AmmError,
    >)
        requires
            self.wf(),
            (self.K != 0 && _amountToken1 < self.totalToken1) ==> self.swap2_given1_input(
                _amountToken1,
            ) >= 0,
        ensures
            r == Err::<Balance, AmmError>(AmmError::ZeroLiquidity) <==> self.K == 0,
            r == Err::<Balance, AmmError>(AmmError::InsufficientPoolBalance) <==> (self.K != 0
                && _amountToken1 >= self.totalToken1),
            (self.K != 0 && _amountToken1 < self.totalToken1) ==> r == Ok::<Balance, AmmError>(
                self.swap2_given1_input(_amountToken1) as Balance,
            ),
    {
        match self.activePool() {
            Err(e) => Err(e),
            Ok(()) => {
                if _amountToken1 >= self.totalToken1 {
                    return Err(AmmError::InsufficientPoolBalance);
                }
                let token1After = self.totalToken1 - _amountToken1;
                let token2After = self.K / token1After;
                let amountToken2 = token2After - self.totalToken2;
                Ok(amountToken2)
            },
        }
    }

    /// Credits the caller's custody balances unconditionally: a top-up
    /// convenience, not a real asset transfer.  Creates absent entries.
    pub fn faucet(&mut self, caller: AccountId, _amountToken1: Balance, _amountToken2: Balance)
        requires
            old(self).wf(),
            old(self).token1Balance.balance_of(caller) + _amountToken1 <= u128::MAX,
            old(self).token2Balance.balance_of(caller) + _amountToken2 <= u128::MAX,
        ensures
            final(self).wf(),
            final(self).token1Balance.balance_of(caller) == old(self).token1Balance.balance_of(
                caller,
            ) + _amountToken1,
            final(self).token2Balance.balance_of(caller) == old(self).token2Balance.balance_of(
                caller,
            ) + _amountToken2,
            forall|x: AccountId|
                x != caller ==> final(self).token1Balance.balance_of(x) == old(
                    self,
                ).token1Balance.balance_of(x),
            forall|x: AccountId|
                x != caller ==> final(self).token2Balance.balance_of(x) == old(
                    self,
                ).token2Balance.balance_of(x),
            final(self).shares == old(self).shares,
            final(self).totalShares == old(self).totalShares,
            final(self).totalToken1 == old(self).totalToken1,
            final(self).totalToken2 == old(self).totalToken2,
            final(self).K == old(self).K,
    {
        self.token1Balance.credit(caller, _amountToken1);
        self.token2Balance.credit(caller, _amountToken2);
    }

    /// Moves a matched contribution from the caller's custody into the pool
    /// and mints the corresponding shares.
    pub fn provide(
        &mut self,
        caller: AccountId,
        _amountToken1: Balance,
        _amountToken2: Balance,
    ) -> (r: Result<Balance, AmmError>)
        requires
            old(self).wf(),
            old(self).provide_safe(caller, _amountToken1, _amountToken2),
        ensures
            final(self).wf(),
            r is Err ==> *final(self) == *old(self),
            r == Err::<Balance, AmmError>(AmmError::ZeroAmount) <==> (_amountToken1 == 0 || (
            has_amount(_amountToken1, old(self).token1Balance.balance_of(caller)) && _amountToken2
                == 0)),
            r == Err::<Balance, AmmError>(AmmError::InsufficientAmount) <==> ((_amountToken1 != 0
                && _amountToken1 > old(self).token1Balance.balance_of(caller)) || (has_amount(
                _amountToken1,
                old(self).token1Balance.balance_of(caller),
            ) && _amountToken2 != 0 && _amountToken2 > old(self).token2Balance.balance_of(caller))),
            r == Err::<Balance, AmmError>(AmmError::UnequalTokenValue) <==> (has_amount(
                _amountToken1,
                old(self).token1Balance.balance_of(caller),
            ) && has_amount(_amountToken2, old(self).token2Balance.balance_of(caller)) && old(
                self,
            ).totalShares != 0 && old(self).share1_of(_amountToken1) != old(self).share2_of(
                _amountToken2,
            )),
            r == Err::<Balance, AmmError>(AmmError::InsufficientLiquidityMinted) <==> (has_amount(
                _amountToken1,
                old(self).token1Balance.balance_of(caller),
            ) && has_amount(_amountToken2, old(self).token2Balance.balance_of(caller)) && old(
                self,
            ).totalShares != 0 && old(self).share1_of(_amountToken1) == old(self).share2_of(
                _amountToken2,
            ) && old(self).share1_of(_amountToken1) == 0),
            r is Ok <==> old(self).provide_accepted(caller, _amountToken1, _amountToken2),
            old(self).provide_accepted(caller, _amountToken1, _amountToken2) ==> ({
                let minted = old(self).minted_share(_amountToken1, _amountToken2);
                &&& r == Ok::<Balance, AmmError>(minted as Balance)
                &&& final(self).totalToken1 == old(self).totalToken1 + _amountToken1
                &&& final(self).totalToken2 == old(self).totalToken2 + _amountToken2
                &&& final(self).K == final(self).totalToken1 * final(self).totalToken2
                &&& final(self).totalShares == old(self).totalShares + minted
                &&& final(self).shares.balance_of(caller) == old(self).shares.balance_of(caller)
                    + minted
                &&& final(self).token1Balance.balance_of(caller) == old(
                    self,
                ).token1Balance.balance_of(caller) - _amountToken1
                &&& final(self).token2Balance.balance_of(caller) == old(
                    self,
                ).token2Balance.balance_of(caller) - _amountToken2
                &&& forall|x: AccountId|
                    x != caller ==> final(self).shares.balance_of(x) == old(
                        self,
                    ).shares.balance_of(x)
                &&& forall|x: AccountId|
                    x != caller ==> final(self).token1Balance.balance_of(x) == old(
                        self,
                    ).token1Balance.balance_of(x)
                &&& forall|x: AccountId|
                    x != caller ==> final(self).token2Balance.balance_of(x) == old(
                        self,
                    ).token2Balance.balance_of(x)
            }),
    {
        match Self::validAmountCheck(&self.token1Balance, _amountToken1, caller) {
            Err(e) => {
                return Err(e);
            },
            Ok(()) => {},
        }
        match Self::validAmountCheck(&self.token2Balance, _amountToken2, caller) {
            Err(e) => {
                return Err(e);
            },
            Ok(()) => {},
        }
        let share: Balance;
        if self.totalShares == 0 {
            share = 100 * PRECISION;
        } else {
            let share1 = self.totalShares * _amountToken1 / self.totalToken1;
            let share2 = self.totalShares * _amountToken2 / self.totalToken2;
            if share1 != share2 {
                return Err(AmmError::UnequalTokenValue);
            }
            share = share1;
        }
        if share == 0 {
            return Err(AmmError::InsufficientLiquidityMinted);
        }
        proof {
            self.shares.lemma_balance_le_total(caller);
        }
        self.token1Balance.debit(caller, _amountToken1);
        self.token2Balance.debit(caller, _amountToken2);
        self.totalToken1 = self.totalToken1 + _amountToken1;
        self.totalToken2 = self.totalToken2 + _amountToken2;
        self.K = self.totalToken1 * self.totalToken2;
        self.totalShares = self.totalShares + share;
        self.shares.credit(caller, share);
        proof {
            crate::math::lemma_mul_pos(self.totalToken1 as int, self.totalToken2 as int);
        }
        Ok(share)
    }

    /// Burns `_share` ownership units and releases the proportional token
    /// amounts into the caller's custody.
    pub fn withdraw(&mut self, caller: AccountId, _share: Balance) -> (r: Result<
        (Balance, Balance),
        AmmError,
    >)
        requires
            old(self).wf(),
            old(self).withdraw_safe(caller, _share),
        ensures
            final(self).wf(),
            r is Err ==> *final(self) == *old(self),
            r == Err::<(Balance, Balance), AmmError>(AmmError::ZeroAmount) <==> _share == 0,
            r == Err::<(Balance, Balance), AmmError>(AmmError::InsufficientAmount) <==> (_share != 0
                && _share > old(self).shares.balance_of(caller)),
            r is Ok <==> has_amount(_share, old(self).shares.balance_of(caller)),
            has_amount(_share, old(self).shares.balance_of(caller)) ==> ({
                let w1 = old(self).withdraw_amount1(_share);
                let w2 = old(self).withdraw_amount2(_share);
                &&& r == Ok::<(Balance, Balance), AmmError>(((w1 as Balance, w2 as Balance)))
                &&& final(self).totalShares == old(self).totalShares - _share
                &&& final(self).totalToken1 == old(self).totalToken1 - w1
                &&& final(self).totalToken2 == old(self).totalToken2 - w2
                &&& final(self).K == final(self).totalToken1 * final(self).totalToken2
                &&& final(self).shares.balance_of(caller) == old(self).shares.balance_of(caller)
                    - _share
                &&& final(self).token1Balance.balance_of(caller) == old(
                    self,
                ).token1Balance.balance_of(caller) + w1
                &&& final(self).token2Balance.balance_of(caller) == old(
                    self,
                ).token2Balance.balance_of(caller) + w2
                &&& forall|x: AccountId|
                    x != caller ==> final(self).shares.balance_of(x) == old(
                        self,
                    ).shares.balance_of(x)
                &&& forall|x: AccountId|
                    x != caller ==> final(self).token1Balance.balance_of(x) == old(
                        self,
                    ).token1Balance.balance_of(x)
                &&& forall|x: AccountId|
                    x != caller ==> final(self).token2Balance.balance_of(x) == old(
                        self,
                    ).token2Balance.balance_of(x)
            }),
    {
        match Self::validAmountCheck(&self.shares, _share, caller) {
            Err(e) => {
                return Err(e);
            },
            Ok(()) => {},
        }
        proof {
            self.shares.lemma_balance_le_total(caller);
        }
        let (amountToken1, amountToken2) = match self.getWithdrawEstimate(_share) {
            Ok(v) => v,
            Err(e) => {
                return Err(e);
            },
        };
        self.shares.debit(caller, _share);
        self.totalShares = self.totalShares - _share;
        proof {
            crate::math::lemma_part_le_whole(
                _share as int,
                old(self).totalToken1 as int,
                old(self).totalShares as int,
            );
            crate::math::lemma_part_le_whole(
                _share as int,
                old(self).totalToken2 as int,
                old(self).totalShares as int,
            );
        }
        self.totalToken1 = self.totalToken1 - amountToken1;
        self.totalToken2 = self.totalToken2 - amountToken2;
        self.K = self.totalToken1 * self.totalToken2;
        self.token1Balance.credit(caller, amountToken1);
        self.token2Balance.credit(caller, amountToken2);
        proof {
            if _share < old(self).totalShares {
                crate::math::lemma_part_lt_whole(
                    _share as int,
                    old(self).totalToken1 as int,
                    old(self).totalShares as int,
                );
                crate::math::lemma_part_lt_whole(
                    _share as int,
                    old(self).totalToken2 as int,
                    old(self).totalShares as int,
                );
                crate::math::lemma_mul_pos(self.totalToken1 as int, self.totalToken2 as int);
            } else {
                crate::math::lemma_mul_div_exact(
                    old(self).totalToken1 as int,
                    old(self).totalShares as int,
                );
                crate::math::lemma_mul_div_exact(
                    old(self).totalToken2 as int,
                    old(self).totalShares as int,
                );
            }
        }
        Ok((amountToken1, amountToken2))
    }

    /// Swaps `_amountToken1` out of the caller's custody into the pool for
    /// token2 at the invariant price.  The stored `K` is left as it is.
    pub fn swapToken1(&mut self, caller: AccountId, _amountToken1: Balance) -> (r: Result<
        Balance,
        AmmError,
    >)
        requires
            old(self).wf(),
            old(self).swap1_safe(caller, _amountToken1),
        ensures
            final(self).wf(),
            r is Err ==> *final(self) == *old(self),
            r == Err::<Balance, AmmError>(AmmError::ZeroAmount) <==> _amountToken1 == 0,
            r == Err::<Balance, AmmError>(AmmError::InsufficientAmount) <==> (_amountToken1 != 0
                && _amountToken1 > old(self).token1Balance.balance_of(caller)),
            r == Err::<Balance, AmmError>(AmmError::ZeroLiquidity) <==> (has_amount(
                _amountToken1,
                old(self).token1Balance.balance_of(caller),
            ) && old(self).K == 0),
            r is Ok <==> (has_amount(_amountToken1, old(self).token1Balance.balance_of(caller))
                && old(self).K != 0),
            (has_amount(_amountToken1, old(self).token1Balance.balance_of(caller)) && old(self).K
                != 0) ==> ({
                let out = old(self).swap1_output(_amountToken1);
                &&& r == Ok::<Balance, AmmError>(out as Balance)
                &&& final(self).totalToken1 == old(self).totalToken1 + _amountToken1
                &&& final(self).totalToken2 == old(self).totalToken2 - out
                &&& final(self).K == old(self).K
                &&& final(self).totalShares == old(self).totalShares
                &&& final(self).shares == old(self).shares
                &&& final(self).token1Balance.balance_of(caller) == old(
                    self,
                ).token1Balance.balance_of(caller) - _amountToken1
                &&& final(self).token2Balance.balance_of(caller) == old(
                    self,
                ).token2Balance.balance_of(caller) + out
                &&& forall|x: AccountId|
                    x != caller ==> final(self).token1Balance.balance_of(x) == old(
                        self,
                    ).token1Balance.balance_of(x)
                &&& forall|x: AccountId|
                    x != caller ==> final(self).token2Balance.balance_of(x) == old(
                        self,
                    ).token2Balance.balance_of(x)
            }),
    {
        match Self::validAmountCheck(&self.token1Balance, _amountToken1, caller) {
            Err(e) => {
                return Err(e);
            },
            Ok(()) => {},
        }
        let amountToken2 = match self.getSwapToken1Estimate(_amountToken1) {
            Ok(v) => v,
            Err(e) => {
                return Err(e);
            },
        };
        proof {
            vstd::arithmetic::div_mod::lemma_div_pos_is_pos(
                old(self).K as int,
                old(self).totalToken1 + _amountToken1,
            );
        }
        self.token1Balance.debit(caller, _amountToken1);
        self.totalToken1 = self.totalToken1 + _amountToken1;
        self.totalToken2 = self.totalToken2 - amountToken2;
        self.token2Balance.credit(caller, amountToken2);
        Ok(amountToken2)
    }

    /// Swaps `_amountToken2` out of the caller's custody into the pool for
    /// token1 at the invariant price; the mirror image of `swapToken1`.
    pub fn swapToken2(&mut self, caller: AccountId, _amountToken2: Balance) -> (r: Result<
        Balance,
        AmmError,
    >)
        requires
            old(self).wf(),
            old(self).swap2_safe(caller, _amountToken2),
        ensures
            final(self).wf(),
            r is Err ==> *final(self) == *old(self),
            r == Err::<Balance, AmmError>(AmmError::ZeroAmount) <==> _amountToken2 == 0,
            r == Err::<Balance, AmmError>(AmmError::InsufficientAmount) <==> (_amountToken2 != 0
                && _amountToken2 > old(self).token2Balance.balance_of(caller)),
            r == Err::<Balance, AmmError>(AmmError::ZeroLiquidity) <==> (has_amount(
                _amountToken2,
                old(self).token2Balance.balance_of(caller),
            ) && old(self).K == 0),
            r is Ok <==> (has_amount(_amountToken2, old(self).token2Balance.balance_of(caller))
                && old(self).K != 0),
            (has_amount(_amountToken2, old(self).token2Balance.balance_of(caller)) && old(self).K
                != 0) ==> ({
                let out = old(self).swap2_output(_amountToken2);
                &&& r == Ok::<Balance, AmmError>(out as Balance)
                &&& final(self).totalToken2 == old(self).totalToken2 + _amountToken2
                &&& final(self).totalToken1 == old(self).totalToken1 - out
                &&& final(self).K == old(self).K
                &&& final(self).totalShares == old(self).totalShares
                &&& final(self).shares == old(self).shares
                &&& final(self).token2Balance.balance_of(caller) == old(
                    self,
                ).token2Balance.balance_of(caller) - _amountToken2
                &&& final(self).token1Balance.balance_of(caller) == old(
                    self,
                ).token1Balance.balance_of(caller) + out
                &&& forall|x: AccountId|
                    x != caller ==> final(self).token1Balance.balance_of(x) == old(
                        self,
                    ).token1Balance.balance_of(x)
                &&& forall|x: AccountId|
                    x != caller ==> final(self).token2Balance.balance_of(x) == old(
                        self,
                    ).token2Balance.balance_of(x)
            }),
    {
        match Self::validAmountCheck(&self.token2Balance, _amountToken2, caller) {
            Err(e) => {
                return Err(e);
            },
            Ok(()) => {},
        }
        let amountToken1 = match self.getSwapToken2Estimate(_amountToken2) {
            Ok(v) => v,
            Err(e) => {
                return Err(e);
            },
        };
        proof {
            vstd::arithmetic::div_mod::lemma_div_pos_is_pos(
                old(self).K as int,
                old(self).totalToken2 + _amountToken2,
            );
        }
        self.token2Balance.debit(caller, _amountToken2);
        self.totalToken2 = self.totalToken2 + _amountToken2;
        self.totalToken1 = self.totalToken1 - amountToken1;
        self.token1Balance.credit(caller, amountToken1);
        Ok(amountToken1)
    }
}

proof fn lemma_round_trip_side(t: int, s: int, a: int, m: int)
    requires
        1 <= s,
        1 <= t,
        1 <= a,
        m == s * a / t,
    ensures
        m * (t + a) / (s + m) <= a,
        (m * (t + a) / (s + m) == a) <==> (m * t == s * a),
{
    let w = m * (t + a) / (s + m);
    assert(0 <= s * a) by (nonlinear_arith)
        requires
            1 <= s,
            1 <= a,
    ;
    crate::math::lemma_div_times_divisor_le(s * a, t);
    vstd::arithmetic::div_mod::lemma_div_pos_is_pos(s * a, t);
    assert(m * (t + a) <= a * (s + m)) by (nonlinear_arith)
        requires
            t * m <= s * a,
            0 <= m,
            0 <= a,
    ;
    assert(0 <= m * (t + a)) by (nonlinear_arith)
        requires
            0 <= m,
            1 <= t,
            1 <= a,
    ;
    vstd::arithmetic::div_mod::lemma_div_is_ordered(m * (t + a), a * (s + m), s + m);
    crate::math::lemma_mul_div_exact(a, s + m);
    assert(a * (s + m) == (s + m) * a);
    assert(w <= a);
    if m * t == s * a {
        assert(m * (t + a) == a * (s + m)) by (nonlinear_arith)
            requires
                m * t == s * a,
        ;
        assert(w == a);
    }
    if w == a {
        crate::math::lemma_div_times_divisor_le(m * (t + a), s + m);
        assert(s * a <= m * t) by (nonlinear_arith)
            requires
                (s + m) * a <= m * (t + a),
        ;
    }
}

/// Law: after a successful contribution, withdrawing exactly the minted
/// share from the otherwise-untouched pool releases at most the contributed
/// amounts — and exactly the contributed amounts precisely when the minting
/// lost nothing to rounding.
///
/// `pre` is the ledger before `provide(amountToken1, amountToken2)` and
/// `post` the ledger it leaves behind, as `provide`'s contract describes it;
/// `minted` is the share it returns.  `post.withdraw_amount1(minted)` and
/// `post.withdraw_amount2(minted)` are the amounts `withdraw(minted)`
/// returns on the untouched `post`.
pub proof fn lemma_provide_withdraw_round_trip(
    pre: Amm,
    post: Amm,
    caller: AccountId,
    amountToken1: Balance,
    amountToken2: Balance,
    minted: Balance,
)
    requires
        pre.wf(),
        pre.provide_accepted(caller, amountToken1, amountToken2),
        minted == pre.minted_share(amountToken1, amountToken2),
        post.totalToken1 == pre.totalToken1 + amountToken1,
        post.totalToken2 == pre.totalToken2 + amountToken2,
        post.totalShares == pre.totalShares + minted,
    ensures
        post.withdraw_amount1(minted) <= amountToken1,
        post.withdraw_amount2(minted) <= amountToken2,
        (post.withdraw_amount1(minted) == amountToken1) <==> (minted * pre.totalToken1
            == pre.totalShares * amountToken1),
        (post.withdraw_amount2(minted) == amountToken2) <==> (minted * pre.totalToken2
            == pre.totalShares * amountToken2),
{
    let t1 = pre.totalToken1 as int;
    let t2 = pre.totalToken2 as int;
    let s = pre.totalShares as int;
    let a1 = amountToken1 as int;
    let a2 = amountToken2 as int;
    let m = minted as int;
    if s == 0 {
        assert(t1 == 0 && t2 == 0);
        crate::math::lemma_mul_div_exact(a1, m);
        crate::math::lemma_mul_div_exact(a2, m);
        assert(m * a1 == m * (t1 + a1));
        assert(m * a2 == m * (t2 + a2));
        assert(m * (t1 + a1) / (s + m) == a1);
        assert(m * t1 == 0) by (nonlinear_arith)
            requires
                t1 == 0,
        ;
        assert(s * a1 == 0) by (nonlinear_arith)
            requires
                s == 0,
        ;
        assert(m * t2 == 0) by (nonlinear_arith)
            requires
                t2 == 0,
        ;
        assert(s * a2 == 0) by (nonlinear_arith)
            requires
                s == 0,
        ;
    } else {
        lemma_round_trip_side(t1, s, a1, m);
        lemma_round_trip_side(t2, s, a2, m);
    }
}

} // verus!
