use vstd::prelude::*;

use crate::types::AccountId;
use crate::types::Balance;

verus! {

/// An association table from account identity to a balance.
///
/// Absent accounts read as zero, and at most one entry is kept per account.
/// An entry may hold a zero balance: reaching zero does not remove it.
pub struct BalanceMap {
    entries: Vec<(AccountId, Balance)>,
}

impl BalanceMap {
    /// The balance recorded in `s` for `a`: the first matching entry, or
    /// zero when none exists.
    spec fn lookup(s: Seq<(AccountId, Balance)>, a: AccountId) -> Balance
        decreases s.len(),
    {
        if s.len() == 0 {
            0
        } else if s[0].0 == a {
            s[0].1
        } else {
            Self::lookup(s.drop_first(), a)
        }
    }

    /// The sum of all balances recorded in `s`.
    spec fn amount_total(s: Seq<(AccountId, Balance)>) -> int
        decreases s.len(),
    {
        if s.len() == 0 {
            0
        } else {
            s[0].1 + Self::amount_total(s.drop_first())
        }
    }

    /// Each account owns at most one entry.
    pub closed spec fn map_wf(self) -> bool {
        forall|i: int, j: int|
            0 <= i < j < self.entries@.len() ==> (#[trigger] self.entries@[i]).0 != (
            #[trigger] self.entries@[j]).0
    }

    /// The balance held by `a`; zero when `a` has no entry.
    pub closed spec fn balance_of(self, a: AccountId) -> Balance {
        Self::lookup(self.entries@, a)
    }

    /// The sum of all balances held in the table.
    pub closed spec fn total(self) -> int {
        Self::amount_total(self.entries@)
    }

    proof fn lemma_total_nonneg(s: Seq<(AccountId, Balance)>)
        ensures
            Self::amount_total(s) >= 0,
        decreases s.len(),
    {
        if s.len() > 0 {
            Self::lemma_total_nonneg(s.drop_first());
        }
    }

    proof fn lemma_lookup_le_total(s: Seq<(AccountId, Balance)>, a: AccountId)
        ensures
            Self::lookup(s, a) <= Self::amount_total(s),
            Self::amount_total(s) >= 0,
        decreases s.len(),
    {
        Self::lemma_total_nonneg(s);
        if s.len() > 0 {
            Self::lemma_lookup_le_total(s.drop_first(), a);
        }
    }

    /// No balance can exceed the table's total, and the total is never
    /// negative.
    pub proof fn lemma_balance_le_total(self, a: AccountId)
        ensures
            self.balance_of(a) <= self.total(),
            self.total() >= 0,
    {
        Self::lemma_lookup_le_total(self.entries@, a);
    }

    proof fn lemma_lookup_absent(s: Seq<(AccountId, Balance)>, a: AccountId)
        requires
            forall|j: int| 0 <= j < s.len() ==> (#[trigger] s[j]).0 != a,
        ensures
            Self::lookup(s, a) == 0,
        decreases s.len(),
    {
        if s.len() > 0 {
            assert(forall|j: int|
                0 <= j < s.drop_first().len() ==> (#[trigger] s.drop_first()[j]) == s[j + 1]);
            Self::lemma_lookup_absent(s.drop_first(), a);
        }
    }

    proof fn lemma_lookup_skip(s: Seq<(AccountId, Balance)>, i: int, a: AccountId)
        requires
            0 <= i <= s.len(),
            forall|j: int| 0 <= j < i ==> (#[trigger] s[j]).0 != a,
        ensures
            Self::lookup(s, a) == Self::lookup(s.skip(i), a),
        decreases i,
    {
        if i == 0 {
            assert(s.skip(0) =~= s);
        } else {
            assert(s.len() > 0 && s[0].0 != a);
            assert(forall|j: int|
                0 <= j < s.drop_first().len() ==> (#[trigger] s.drop_first()[j]) == s[j + 1]);
            Self::lemma_lookup_skip(s.drop_first(), i - 1, a);
            assert(s.drop_first().skip(i - 1) =~= s.skip(i));
        }
    }

    proof fn lemma_push(s: Seq<(AccountId, Balance)>, a: AccountId, v: Balance)
        ensures
            Self::amount_total(s.push((a, v))) == Self::amount_total(s) + v,
            forall|x: AccountId|
                x != a ==> Self::lookup(s.push((a, v)), x) == Self::lookup(s, x),
            (forall|j: int| 0 <= j < s.len() ==> (#[trigger] s[j]).0 != a) ==> Self::lookup(
                s.push((a, v)),
                a,
            ) == v,
        decreases s.len(),
    {
        let t = s.push((a, v));
        if s.len() == 0 {
            assert(t.drop_first() =~= s);
            assert(Self::amount_total(t) == t[0].1 + Self::amount_total(t.drop_first()));
            assert forall|x: AccountId| x != a implies Self::lookup(t, x) == Self::lookup(s, x) by {
                assert(Self::lookup(t, x) == Self::lookup(t.drop_first(), x));
            }
        } else {
            assert(t.drop_first() =~= s.drop_first().push((a, v)));
            assert(t[0] == s[0]);
            assert(Self::amount_total(t) == t[0].1 + Self::amount_total(t.drop_first()));
            assert(forall|j: int|
                0 <= j < s.drop_first().len() ==> (#[trigger] s.drop_first()[j]) == s[j + 1]);
            Self::lemma_push(s.drop_first(), a, v);
            assert forall|x: AccountId| x != a implies Self::lookup(t, x) == Self::lookup(s, x) by {
                assert(t[0] == s[0]);
                if s[0].0 != x {
                    assert(Self::lookup(t, x) == Self::lookup(t.drop_first(), x));
                    assert(Self::lookup(s, x) == Self::lookup(s.drop_first(), x));
                }
            }
            if forall|j: int| 0 <= j < s.len() ==> (#[trigger] s[j]).0 != a {
                assert(t[0] == s[0]);
                assert(s[0].0 != a);
                assert(Self::lookup(t, a) == Self::lookup(t.drop_first(), a));
            }
        }
    }

    proof fn lemma_update(s: Seq<(AccountId, Balance)>, i: int, v: Balance)
        requires
            0 <= i < s.len(),
            forall|j: int| 0 <= j < s.len() && j != i ==> (#[trigger] s[j]).0 != s[i].0,
        ensures
            Self::amount_total(s.update(i, (s[i].0, v))) == Self::amount_total(s) - s[i].1 + v,
            Self::lookup(s.update(i, (s[i].0, v)), s[i].0) == v,
            forall|x: AccountId|
                x != s[i].0 ==> Self::lookup(s.update(i, (s[i].0, v)), x) == Self::lookup(s, x),
        decreases i,
    {
        let t = s.update(i, (s[i].0, v));
        if i == 0 {
            assert(t.drop_first() =~= s.drop_first());
            assert forall|x: AccountId|
                x != s[i].0 implies Self::lookup(t, x) == Self::lookup(s, x) by {
                assert(Self::lookup(t, x) == Self::lookup(t.drop_first(), x));
                assert(Self::lookup(s, x) == Self::lookup(s.drop_first(), x));
            }
        } else {
            assert(t[0] == s[0]);
            assert(forall|j: int|
                0 <= j < s.drop_first().len() ==> (#[trigger] s.drop_first()[j]) == s[j + 1]);
            assert(s.drop_first()[i - 1] == s[i]);
            Self::lemma_update(s.drop_first(), i - 1, v);
            assert(t.drop_first() =~= s.drop_first().update(i - 1, (s[i].0, v)));
            assert(s[0].0 != s[i].0);
            assert(Self::lookup(t, s[i].0) == Self::lookup(t.drop_first(), s[i].0));
            assert forall|x: AccountId|
                x != s[i].0 implies Self::lookup(t, x) == Self::lookup(s, x) by {
                if s[0].0 != x {
                    assert(Self::lookup(t, x) == Self::lookup(t.drop_first(), x));
                    assert(Self::lookup(s, x) == Self::lookup(s.drop_first(), x));
                }
            }
        }
    }

    /// An empty table: every account reads as zero.
    pub fn new() -> (r: BalanceMap)
        ensures
            r.map_wf(),
            r.total() == 0,
            forall|a: AccountId| r.balance_of(a) == 0,
    {
        let r = BalanceMap { entries: Vec::new() };
        proof {
            assert(r.entries@ =~= Seq::<(AccountId, Balance)>::empty());
            assert forall|a: AccountId| r.balance_of(a) == 0 by {
                assert(Self::lookup(r.entries@, a) == 0);
            }
        }
        r
    }

    /// Index of the entry for `a`, if one exists.
    fn find(&self, a: AccountId) -> (r: Option<usize>)
        ensures
            match r {
                Some(i) => i < self.entries@.len() && self.entries@[i as int].0 == a && forall|
                    j: int,
                |
                    0 <= j < i ==> (#[trigger] self.entries@[j]).0 != a,
                None => forall|j: int|
                    0 <= j < self.entries@.len() ==> (#[trigger] self.entries@[j]).0 != a,
            },
    {
        let mut i: usize = 0;
        while i < self.entries.len()
            invariant
                i <= self.entries@.len(),
                forall|j: int| 0 <= j < i ==> (#[trigger] self.entries@[j]).0 != a,
            decreases self.entries@.len() - i,
        {
            if self.entries[i].0 == a {
                return Some(i);
            }
            i = i + 1;
        }
        None
    }

    /// The balance held by `a`.
    pub fn get(&self, a: AccountId) -> (r: Balance)
        ensures
            r == self.balance_of(a),
    {
        match self.find(a) {
            Some(i) => {
                proof {
                    Self::lemma_lookup_skip(self.entries@, i as int, a);
                    assert(self.entries@.skip(i as int)[0] == self.entries@[i as int]);
                }
                self.entries[i].1
            },
            None => {
                proof {
                    Self::lemma_lookup_absent(self.entries@, a);
                }
                0
            },
        }
    }

    /// Adds `amount` to the balance of `a`, creating the entry if absent.
    pub fn credit(&mut self, a: AccountId, amount: Balance)
        requires
            old(self).map_wf(),
            old(self).balance_of(a) + amount <= u128::MAX,
        ensures
            final(self).map_wf(),
            final(self).balance_of(a) == old(self).balance_of(a) + amount,
            forall|x: AccountId|
                x != a ==> final(self).balance_of(x) == old(self).balance_of(x),
            final(self).total() == old(self).total() + amount,
    {
        match self.find(a) {
            Some(i) => {
                proof {
                    Self::lemma_lookup_skip(self.entries@, i as int, a);
                    assert(self.entries@.skip(i as int)[0] == self.entries@[i as int]);
                    assert(self.balance_of(a) == self.entries@[i as int].1);
                }
                let updated = self.entries[i].1 + amount;
                proof {
                    Self::lemma_update(self.entries@, i as int, updated);
                }
                self.entries[i] = (a, updated);
            },
            None => {
                proof {
                    Self::lemma_lookup_absent(self.entries@, a);
                    Self::lemma_push(self.entries@, a, amount);
                }
                self.entries.push((a, amount));
            },
        }
    }

    /// Removes `amount` from the balance of `a`.  The entry stays, even at
    /// zero.
    pub fn debit(&mut self, a: AccountId, amount: Balance)
        requires
            old(self).map_wf(),
            amount <= old(self).balance_of(a),
        ensures
            final(self).map_wf(),
            final(self).balance_of(a) == old(self).balance_of(a) - amount,
            forall|x: AccountId|
                x != a ==> final(self).balance_of(x) == old(self).balance_of(x),
            final(self).total() == old(self).total() - amount,
    {
        match self.find(a) {
            Some(i) => {
                proof {
                    Self::lemma_lookup_skip(self.entries@, i as int, a);
                    assert(self.entries@.skip(i as int)[0] == self.entries@[i as int]);
                    assert(self.balance_of(a) == self.entries@[i as int].1);
                }
                let updated = self.entries[i].1 - amount;
                proof {
                    Self::lemma_update(self.entries@, i as int, updated);
                }
                self.entries[i] = (a, updated);
            },
            None => {
                proof {
                    Self::lemma_lookup_absent(self.entries@, a);
                }
            },
        }
    }
}

} // verus!
