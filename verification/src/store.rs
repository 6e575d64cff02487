//! The account balance store: a mapping from account identifier to balance,
//! kept as a vector of entries with pairwise distinct accounts. An account
//! without an entry implicitly holds zero.

use vstd::prelude::*;

use crate::AccountId;
use crate::Balance;

verus! {

/// The sum of the balances of all entries of `s`.
pub open spec fn sum_of(s: Seq<(AccountId, Balance)>) -> int
    decreases s.len(),
{
    if s.len() == 0 {
        0
    } else {
        s[0].1 + sum_of(s.drop_first())
    }
}

/// The balance that `s` records for `account`: the value of the first entry
/// with that account, or zero when there is none.
pub open spec fn balance_in(s: Seq<(AccountId, Balance)>, account: AccountId) -> Balance
    decreases s.len(),
{
    if s.len() == 0 {
        0
    } else if s[0].0 == account {
        s[0].1
    } else {
        balance_in(s.drop_first(), account)
    }
}

/// Every account appears in at most one entry of `s`.
pub open spec fn unique_accounts(s: Seq<(AccountId, Balance)>) -> bool {
    forall|i: int, j: int| 0 <= i < j < s.len() ==> s[i].0 != s[j].0
}

/// Mapping from account identifier to balance; absent accounts hold zero.
pub struct BalanceStore {
    entries: Vec<(AccountId, Balance)>,
}

impl View for BalanceStore {
    type V = Seq<(AccountId, Balance)>;

    closed spec fn view(&self) -> Seq<(AccountId, Balance)> {
        self.entries@
    }
}

impl BalanceStore {
    /// Each account has at most one entry.
    pub open spec fn wf(&self) -> bool {
        unique_accounts(self@)
    }

    /// The balance held by `account`, zero when no entry exists.
    pub open spec fn spec_get(&self, account: AccountId) -> Balance {
        balance_in(self@, account)
    }

    /// The sum of all stored balances.
    pub open spec fn sum(&self) -> int {
        sum_of(self@)
    }

    /// An empty store: every account holds zero.
    pub fn new() -> (r: BalanceStore)
        ensures
            r.wf(),
            r.sum() == 0,
            forall|a: AccountId| r.spec_get(a) == 0,
            r@.len() == 0,
    {
        BalanceStore { entries: Vec::new() }
    }

    /// The position of the entry for `account`, if one exists.
    fn index_of(&self, account: AccountId) -> (r: Option<usize>)
        ensures
            match r {
                Some(i) => i < self@.len() && self@[i as int].0 == account
                    && forall|j: int| 0 <= j < i ==> self@[j].0 != account,
                None => forall|j: int| 0 <= j < self@.len() ==> self@[j].0 != account,
            },
    {
        let n = self.entries.len();
        let mut i: usize = 0;
        while i < n
            invariant
                n == self@.len(),
                i <= n,
                forall|j: int| 0 <= j < i ==> self@[j].0 != account,
            decreases n - i,
        {
            if self.entries[i].0 == account {
                return Some(i);
            }
            i = i + 1;
        }
        None
    }

    /// The balance held by `account`; zero when no entry exists.
    pub fn get(&self, account: AccountId) -> (r: Balance)
        ensures
            r == self.spec_get(account),
    {
        match self.index_of(account) {
            Some(i) => {
                proof {
                    lemma_balance_in_skip(self@, account, i as int);
                    assert(self@.skip(i as int)[0] == self@[i as int]);
                }
                self.entries[i].1
            },
            None => {
                proof {
                    lemma_balance_in_skip(self@, account, self@.len() as int);
                    assert(self@.skip(self@.len() as int).len() == 0);
                }
                0
            },
        }
    }

    /// Records `value` as the balance of `account`, inserting or overwriting
    /// its entry; every other account keeps its balance, and the sum of all
    /// balances changes by the difference.
    pub fn set(&mut self, account: AccountId, value: Balance)
        requires
            old(self).wf(),
        ensures
            final(self).wf(),
            final(self).spec_get(account) == value,
            forall|a: AccountId| a != account ==> final(self).spec_get(a) == old(self).spec_get(a),
            final(self).sum() == old(self).sum() - old(self).spec_get(account) + value,
    {
        let ghost s = self@;
        match self.index_of(account) {
            Some(i) => {
                self.entries[i] = (account, value);
                proof {
                    let t = s.update(i as int, (account, value));
                    assert(self@ =~= t);
                    lemma_sum_update(s, i as int, (account, value));
                    lemma_balance_in_skip(s, account, i as int);
                    assert(s.skip(i as int)[0] == s[i as int]);
                    assert(forall|j: int| 0 <= j < i ==> t[j].0 != account);
                    lemma_balance_in_skip(t, account, i as int);
                    assert(t.skip(i as int)[0] == t[i as int]);
                    assert forall|a: AccountId| a != account implies balance_in(t, a) == balance_in(
                        s,
                        a,
                    ) by {
                        lemma_balance_in_update_other(s, i as int, (account, value), a);
                    }
                    assert forall|k: int, l: int| 0 <= k < l < t.len() implies t[k].0 != t[l].0 by {
                        assert(t[k].0 == s[k].0);
                        assert(t[l].0 == s[l].0);
                    }
                }
            },
            None => {
                self.entries.push((account, value));
                proof {
                    let t = s.push((account, value));
                    assert(self@ =~= t);
                    lemma_sum_push(s, (account, value));
                    lemma_balance_in_skip(s, account, s.len() as int);
                    assert(s.skip(s.len() as int).len() == 0);
                    lemma_balance_in_skip(t, account, s.len() as int);
                    assert(t.skip(s.len() as int) =~= seq![(account, value)]);
                    assert forall|a: AccountId| a != account implies balance_in(t, a) == balance_in(
                        s,
                        a,
                    ) by {
                        lemma_balance_in_push_other(s, (account, value), a);
                    }
                    assert forall|k: int, l: int| 0 <= k < l < t.len() implies t[k].0 != t[l].0 by {
                        assert(t[k] == s[k]);
                        if l < s.len() {
                            assert(t[l] == s[l]);
                        }
                    }
                }
            },
        }
    }
}

/// A prefix of entries that never names `account` does not affect its balance.
proof fn lemma_balance_in_skip(s: Seq<(AccountId, Balance)>, account: AccountId, i: int)
    requires
        0 <= i <= s.len(),
        forall|j: int| 0 <= j < i ==> s[j].0 != account,
    ensures
        balance_in(s, account) == balance_in(s.skip(i), account),
    decreases i,
{
    if i > 0 {
        assert(s[0].0 != account);
        assert(forall|j: int| 0 <= j < i - 1 ==> s.drop_first()[j].0 != account);
        lemma_balance_in_skip(s.drop_first(), account, i - 1);
        assert(s.drop_first().skip(i - 1) =~= s.skip(i));
    } else {
        assert(s.skip(0) =~= s);
    }
}

/// The sum of balances is never negative.
pub proof fn lemma_sum_nonneg(s: Seq<(AccountId, Balance)>)
    ensures
        0 <= sum_of(s),
    decreases s.len(),
{
    if s.len() > 0 {
        lemma_sum_nonneg(s.drop_first());
    }
}

/// No single balance exceeds the sum of all balances.
pub proof fn lemma_balance_le_sum(s: Seq<(AccountId, Balance)>, account: AccountId)
    ensures
        balance_in(s, account) <= sum_of(s),
    decreases s.len(),
{
    if s.len() > 0 {
        lemma_sum_nonneg(s.drop_first());
        lemma_balance_le_sum(s.drop_first(), account);
    }
}

/// Appending an entry adds its balance to the sum.
proof fn lemma_sum_push(s: Seq<(AccountId, Balance)>, e: (AccountId, Balance))
    ensures
        sum_of(s.push(e)) == sum_of(s) + e.1,
    decreases s.len(),
{
    let t = s.push(e);
    if s.len() == 0 {
        assert(t[0] == e);
        assert(t.drop_first() =~= Seq::<(AccountId, Balance)>::empty());
        assert(sum_of(t) == t[0].1 + sum_of(t.drop_first()));
        assert(sum_of(t.drop_first()) == 0);
        assert(sum_of(s) == 0);
    } else {
        assert(t[0] == s[0]);
        lemma_sum_push(s.drop_first(), e);
        assert(t.drop_first() =~= s.drop_first().push(e));
        assert(sum_of(t) == t[0].1 + sum_of(t.drop_first()));
        assert(sum_of(s) == s[0].1 + sum_of(s.drop_first()));
    }
}

/// Appending an entry leaves every other account's balance unchanged.
proof fn lemma_balance_in_push_other(
    s: Seq<(AccountId, Balance)>,
    e: (AccountId, Balance),
    account: AccountId,
)
    requires
        account != e.0,
    ensures
        balance_in(s.push(e), account) == balance_in(s, account),
    decreases s.len(),
{
    let t = s.push(e);
    if s.len() == 0 {
        assert(t[0] == e);
        assert(t.drop_first() =~= Seq::<(AccountId, Balance)>::empty());
        assert(balance_in(t, account) == balance_in(t.drop_first(), account));
        assert(balance_in(t.drop_first(), account) == 0);
        assert(balance_in(s, account) == 0);
    } else {
        assert(t[0] == s[0]);
        lemma_balance_in_push_other(s.drop_first(), e, account);
        assert(t.drop_first() =~= s.drop_first().push(e));
        if s[0].0 == account {
            assert(balance_in(t, account) == t[0].1);
        } else {
            assert(balance_in(t, account) == balance_in(t.drop_first(), account));
            assert(balance_in(s, account) == balance_in(s.drop_first(), account));
        }
    }
}

/// Overwriting the entry at `i` changes the sum by the difference.
proof fn lemma_sum_update(s: Seq<(AccountId, Balance)>, i: int, e: (AccountId, Balance))
    requires
        0 <= i < s.len(),
    ensures
        sum_of(s.update(i, e)) == sum_of(s) - s[i].1 + e.1,
    decreases i,
{
    if i == 0 {
        assert(s.update(0, e)[0] == e);
        assert(s.update(0, e).drop_first() =~= s.drop_first());
    } else {
        assert(s.update(i, e)[0] == s[0]);
        lemma_sum_update(s.drop_first(), i - 1, e);
        assert(s.update(i, e).drop_first() =~= s.drop_first().update(i - 1, e));
    }
}

/// Overwriting an entry in place leaves every other account's balance
/// unchanged.
proof fn lemma_balance_in_update_other(
    s: Seq<(AccountId, Balance)>,
    i: int,
    e: (AccountId, Balance),
    account: AccountId,
)
    requires
        0 <= i < s.len(),
        s[i].0 == e.0,
        account != e.0,
    ensures
        balance_in(s.update(i, e), account) == balance_in(s, account),
    decreases i,
{
    if i == 0 {
        assert(s.update(0, e)[0] == e);
        assert(s.update(0, e).drop_first() =~= s.drop_first());
    } else {
        assert(s.update(i, e)[0] == s[0]);
        lemma_balance_in_update_other(s.drop_first(), i - 1, e, account);
        assert(s.update(i, e).drop_first() =~= s.drop_first().update(i - 1, e));
    }
}

} // verus!
