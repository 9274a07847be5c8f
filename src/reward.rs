use vstd::prelude::*;

use crate::error::RaffleError;
use crate::types::{account_eq, AccountId, Balance};

verus! {

/// The reward ledger: what each winner may claim, and the total of it.
///
/// Each account stands at most once in `pending_rewards`, and
/// `total_pending_rewards` is the sum of the amounts there.
#[derive(Debug)]
pub struct Data {
    pub pending_rewards: Vec<(AccountId, Balance)>,
    pub total_pending_rewards: Balance,
}

/// No account stands twice in `s`.
pub open spec fn keys_unique(s: Seq<(AccountId, Balance)>) -> bool {
    forall|i: int, j: int| 0 <= i < s.len() && 0 <= j < s.len() && #[trigger] s[i].0 == #[trigger] s[j].0 ==> i == j
}

/// `a` stands in `s`.
pub open spec fn has_key(s: Seq<(AccountId, Balance)>, a: AccountId) -> bool {
    exists|i: int| 0 <= i < s.len() && #[trigger] s[i].0 == a
}

/// The ledger as a map from account to pending amount.
pub open spec fn ledger_view(s: Seq<(AccountId, Balance)>) -> Map<AccountId, Balance> {
    Map::new(
        |a: AccountId| has_key(s, a),
        |a: AccountId| s[choose|i: int| 0 <= i < s.len() && #[trigger] s[i].0 == a].1,
    )
}

/// The sum of the amounts in `s`.
pub open spec fn sum_amounts(s: Seq<(AccountId, Balance)>) -> int
    decreases s.len(),
{
    if s.len() == 0 {
        0
    } else {
        sum_amounts(s.drop_last()) + s.last().1
    }
}

/// How many times `a` stands in `s`.
pub open spec fn occurrences(s: Seq<AccountId>, a: AccountId) -> nat
    decreases s.len(),
{
    if s.len() == 0 {
        0
    } else {
        occurrences(s.drop_last(), a) + if s.last() == a {
            1nat
        } else {
            0nat
        }
    }
}

/// What each winner receives when `balance` is shared among `n` winners,
/// once the amounts already pending are set aside; the remainder of the
/// division stays in the pool.
pub open spec fn share_of(balance: int, total: int, n: int) -> int {
    (balance - total) / n
}

/// The amount pending for `a` in `m`, zero when there is none.
pub open spec fn pending_or_zero(m: Map<AccountId, Balance>, a: AccountId) -> int {
    if m.contains_key(a) {
        m[a] as int
    } else {
        0
    }
}

proof fn lemma_view_lookup(s: Seq<(AccountId, Balance)>, i: int)
    requires
        keys_unique(s),
        0 <= i < s.len(),
    ensures
        ledger_view(s).contains_key(s[i].0),
        ledger_view(s)[s[i].0] == s[i].1,
{
    let a = s[i].0;
    assert(has_key(s, a));
    let j = choose|j: int| 0 <= j < s.len() && #[trigger] s[j].0 == a;
    assert(s[j].0 == s[i].0);
}

proof fn lemma_view_push(s: Seq<(AccountId, Balance)>, p: (AccountId, Balance))
    requires
        keys_unique(s),
        !has_key(s, p.0),
    ensures
        keys_unique(s.push(p)),
        ledger_view(s.push(p)) =~= ledger_view(s).insert(p.0, p.1),
{
    let t = s.push(p);
    assert forall|i: int, j: int|
        0 <= i < t.len() && 0 <= j < t.len() && #[trigger] t[i].0 == #[trigger] t[j].0 implies i
        == j by {
        if i < s.len() && j < s.len() {
            assert(s[i].0 == s[j].0);
        } else if i < s.len() {
            assert(s[i].0 == p.0);
        } else if j < s.len() {
            assert(s[j].0 == p.0);
        }
    }
    assert forall|a: AccountId| #[trigger] has_key(t, a) == (has_key(s, a) || a == p.0) by {
        if has_key(s, a) {
            let i = choose|i: int| 0 <= i < s.len() && #[trigger] s[i].0 == a;
            assert(t[i].0 == a);
        }
        if a == p.0 {
            assert(t[s.len() as int].0 == a);
        }
        if has_key(t, a) {
            let i = choose|i: int| 0 <= i < t.len() && #[trigger] t[i].0 == a;
            if i < s.len() {
                assert(s[i].0 == a);
            }
        }
    }
    assert forall|a: AccountId| #[trigger] ledger_view(t).contains_key(a) implies ledger_view(
        t,
    )[a] == ledger_view(s).insert(p.0, p.1)[a] by {
        if a == p.0 {
            lemma_view_lookup(t, s.len() as int);
        } else {
            let i = choose|i: int| 0 <= i < s.len() && #[trigger] s[i].0 == a;
            lemma_view_lookup(s, i);
            lemma_view_lookup(t, i);
        }
    }
}

proof fn lemma_view_remove(s: Seq<(AccountId, Balance)>, k: int)
    requires
        keys_unique(s),
        0 <= k < s.len(),
    ensures
        keys_unique(s.remove(k)),
        ledger_view(s.remove(k)) =~= ledger_view(s).remove(s[k].0),
{
    let t = s.remove(k);
    let key = s[k].0;
    assert forall|i: int| 0 <= i < t.len() implies #[trigger] t[i] == s[if i < k {
        i
    } else {
        i + 1
    }] by {}
    assert forall|i: int, j: int|
        0 <= i < t.len() && 0 <= j < t.len() && #[trigger] t[i].0 == #[trigger] t[j].0 implies i
        == j by {
        let si = if i < k {
            i
        } else {
            i + 1
        };
        let sj = if j < k {
            j
        } else {
            j + 1
        };
        assert(t[i] == s[si]);
        assert(t[j] == s[sj]);
        assert(s[si].0 == s[sj].0);
    }
    assert forall|a: AccountId| #[trigger] has_key(t, a) == (has_key(s, a) && a != key) by {
        if has_key(t, a) {
            let i = choose|i: int| 0 <= i < t.len() && #[trigger] t[i].0 == a;
            let si = if i < k {
                i
            } else {
                i + 1
            };
            assert(t[i] == s[si]);
            assert(s[si].0 == a);
            if a == key {
                assert(s[si].0 == s[k].0);
            }
        }
        if has_key(s, a) && a != key {
            let i = choose|i: int| 0 <= i < s.len() && #[trigger] s[i].0 == a;
            if i < k {
                assert(t[i] == s[i]);
                assert(t[i].0 == a);
            } else {
                assert(i != k);
                assert(t[i - 1] == s[i]);
                assert(t[i - 1].0 == a);
            }
        }
    }
    assert forall|a: AccountId| #[trigger] ledger_view(t).contains_key(a) implies ledger_view(
        t,
    )[a] == ledger_view(s)[a] by {
        let i = choose|i: int| 0 <= i < t.len() && #[trigger] t[i].0 == a;
        let si = if i < k {
            i
        } else {
            i + 1
        };
        assert(t[i] == s[si]);
        lemma_view_lookup(t, i);
        lemma_view_lookup(s, si);
    }
}

proof fn lemma_sum_remove(s: Seq<(AccountId, Balance)>, k: int)
    requires
        0 <= k < s.len(),
    ensures
        sum_amounts(s.remove(k)) == sum_amounts(s) - s[k].1,
    decreases s.len(),
{
    if k == s.len() - 1 {
        assert(s.remove(k) =~= s.drop_last());
    } else {
        lemma_sum_remove(s.drop_last(), k);
        assert(s.remove(k).drop_last() =~= s.drop_last().remove(k));
        assert(s.remove(k).last() == s.last());
    }
}

proof fn lemma_amount_le_sum(s: Seq<(AccountId, Balance)>, k: int)
    requires
        0 <= k < s.len(),
    ensures
        s[k].1 <= sum_amounts(s),
    decreases s.len(),
{
    lemma_sum_nonneg(s.drop_last());
    if k < s.len() - 1 {
        lemma_amount_le_sum(s.drop_last(), k);
    }
}

proof fn lemma_occurrences_absent(s: Seq<AccountId>, a: AccountId)
    requires
        !s.contains(a),
    ensures
        occurrences(s, a) == 0,
    decreases s.len(),
{
    if s.len() > 0 {
        assert(!s.drop_last().contains(a)) by {
            if s.drop_last().contains(a) {
                let j = choose|j: int| 0 <= j < s.len() - 1 && #[trigger] s.drop_last()[j] == a;
                assert(s[j] == a);
            }
        }
        assert(s[s.len() - 1] == s.last());
        lemma_occurrences_absent(s.drop_last(), a);
    }
}

proof fn lemma_sum_nonneg(s: Seq<(AccountId, Balance)>)
    ensures
        sum_amounts(s) >= 0,
    decreases s.len(),
{
    if s.len() > 0 {
        lemma_sum_nonneg(s.drop_last());
    }
}

/// `after` is `before` once each of `accounts` was credited `share`, as
/// many times as it is listed.
pub open spec fn credited(before: Data, after: Data, accounts: Seq<AccountId>, share: int) -> bool {
    &&& after.total_pending_rewards == before.total_pending_rewards + accounts.len() * share
    &&& forall|a: AccountId| #[trigger]
        after.pending().contains_key(a) <==> before.pending().contains_key(a) || accounts.contains(
            a,
        )
    &&& forall|a: AccountId| #[trigger]
        after.pending().contains_key(a) ==> after.pending()[a] == pending_or_zero(
            before.pending(),
            a,
        ) + occurrences(accounts, a) * share
}

/// After a successful claim the account has nothing left to claim, so a
/// second claim is refused with `NoReward`; the total went down by exactly
/// the amount claimed.
pub proof fn lemma_claim_once(before: Data, after: Data, from: AccountId, amount: Balance)
    requires
        before.pending().contains_key(from),
        amount == before.pending()[from],
        after.pending() == before.pending().remove(from),
        after.total_pending_rewards == before.total_pending_rewards - amount,
    ensures
        !after.pending().contains_key(from),
        after.total_pending_rewards + amount == before.total_pending_rewards,
{
}

impl Data {
    pub open spec fn wf(self) -> bool {
        &&& keys_unique(self.pending_rewards@)
        &&& self.total_pending_rewards == sum_amounts(self.pending_rewards@)
    }

    /// What each account may claim.
    pub open spec fn pending(self) -> Map<AccountId, Balance> {
        ledger_view(self.pending_rewards@)
    }

    /// An empty ledger.
    pub fn new() -> (r: Data)
        ensures
            r.wf(),
            r.pending().is_empty(),
            r.total_pending_rewards == 0,
    {
        let r = Data { pending_rewards: Vec::new(), total_pending_rewards: 0 };
        assert(r.pending() =~= Map::empty());
        r
    }

    /// Where `from` stands in the ledger.
    fn find(&self, from: &AccountId) -> (r: Option<usize>)
        requires
            self.wf(),
        ensures
            match r {
                Some(i) => i < self.pending_rewards@.len() && self.pending_rewards@[i as int].0
                    == *from,
                None => !has_key(self.pending_rewards@, *from),
            },
    {
        let mut i: usize = 0;
        while i < self.pending_rewards.len()
            invariant
                i <= self.pending_rewards@.len(),
                forall|j: int| 0 <= j < i ==> self.pending_rewards@[j].0 != *from,
            decreases self.pending_rewards@.len() - i,
        {
            if account_eq(&self.pending_rewards[i].0, from) {
                return Some(i);
            }
            i = i + 1;
        }
        None
    }

    /// Shares what `balance` holds beyond the pending rewards equally among
    /// `accounts`, and returns the share; an account listed twice gets two
    /// shares. The remainder of the division stays unassigned.
    pub fn add_winners(&mut self, accounts: &Vec<AccountId>, balance: Balance) -> (r: Result<
        Balance,
        RaffleError,
    >)
        requires
            old(self).wf(),
        ensures
            final(self).wf(),
            old(self).total_pending_rewards > balance ==> r == Err::<Balance, _>(
                RaffleError::AddOverFlow,
            ),
            old(self).total_pending_rewards <= balance && accounts@.len() == 0 ==> r == Err::<
                Balance,
                _,
            >(RaffleError::DivByZero),
            r is Err ==> *final(self) == *old(self),
            old(self).total_pending_rewards <= balance && accounts@.len() > 0 ==> {
                let share = share_of(
                    balance as int,
                    old(self).total_pending_rewards as int,
                    accounts@.len() as int,
                );
                &&& r == Ok::<Balance, RaffleError>(share as Balance)
                &&& credited(*old(self), *final(self), accounts@, share)
            },
    {
        let total = self.total_pending_rewards;
        if balance < total {
            return Err(RaffleError::AddOverFlow);
        }
        let n = accounts.len();
        if n == 0 {
            return Err(RaffleError::DivByZero);
        }
        let reward: u128 = (balance - total) / (n as u128);
        let ghost old_view = self.pending();
        proof {
            assert(reward * n <= balance - total) by (nonlinear_arith)
                requires
                    reward == (balance - total) / (n as int),
                    n > 0,
                    balance >= total,
            ;
        }
        let mut i: usize = 0;
        while i < n
            invariant
                n == accounts@.len(),
                n > 0,
                i <= n,
                self.wf(),
                reward == share_of(balance as int, total as int, n as int),
                reward * n <= balance - total,
                self.total_pending_rewards == total + i * reward,
                forall|a: AccountId| #[trigger]
                    self.pending().contains_key(a) <==> old_view.contains_key(a)
                        || accounts@.take(i as int).contains(a),
                forall|a: AccountId| #[trigger]
                    self.pending().contains_key(a) ==> self.pending()[a] == pending_or_zero(
                        old_view,
                        a,
                    ) + occurrences(accounts@.take(i as int), a) * reward,
            decreases n - i,
        {
            let account = accounts[i];
            proof {
                assert(i * reward + reward <= n * reward) by (nonlinear_arith)
                    requires
                        i < n,
                        reward >= 0,
                ;
                assert(accounts@.take(i + 1).drop_last() =~= accounts@.take(i as int));
                assert(accounts@.take(i + 1).last() == account);
                assert forall|a: AccountId| #[trigger]
                    accounts@.take(i + 1).contains(a) == (accounts@.take(i as int).contains(a)
                        || a == account) by {
                    if accounts@.take(i + 1).contains(a) {
                        let j = choose|j: int|
                            0 <= j < i + 1 && #[trigger] accounts@.take(i + 1)[j] == a;
                        if j < i {
                            assert(accounts@.take(i as int)[j] == a);
                        }
                    }
                    if accounts@.take(i as int).contains(a) {
                        let j = choose|j: int|
                            0 <= j < i && #[trigger] accounts@.take(i as int)[j] == a;
                        assert(accounts@.take(i + 1)[j] == a);
                    }
                    if a == account {
                        assert(accounts@.take(i + 1)[i as int] == a);
                    }
                }
            }
            let ghost before = self.pending();
            assert(forall|a: AccountId| #[trigger]
                before.contains_key(a) <==> old_view.contains_key(a)
                    || accounts@.take(i as int).contains(a));
            let ghost seq_before = self.pending_rewards@;
            let ghost credited: u128;
            match self.find(&account) {
                Some(k) => {
                    let existing = self.pending_rewards[k].1;
                    proof {
                        lemma_amount_le_sum(seq_before, k as int);
                        lemma_view_lookup(seq_before, k as int);
                        lemma_view_remove(seq_before, k as int);
                        lemma_sum_remove(seq_before, k as int);
                    }
                    self.pending_rewards.remove(k);
                    let ghost removed = self.pending_rewards@;
                    proof {
                        assert(!has_key(removed, account)) by {
                            if has_key(removed, account) {
                                assert(ledger_view(removed).contains_key(account));
                            }
                        }
                        lemma_view_push(removed, (account, (existing + reward) as u128));
                    }
                    self.pending_rewards.push((account, existing + reward));
                    proof {
                        assert(self.pending_rewards@.drop_last() =~= removed);
                        credited = (existing + reward) as u128;
                    }
                },
                None => {
                    proof {
                        lemma_view_push(seq_before, (account, reward));
                        assert(!before.contains_key(account));
                    }
                    self.pending_rewards.push((account, reward));
                    proof {
                        assert(self.pending_rewards@.drop_last() =~= seq_before);
                        credited = reward;
                    }
                },
            }
            self.total_pending_rewards = self.total_pending_rewards + reward;
            proof {
                assert((i + 1) * reward == i * reward + reward) by (nonlinear_arith);
                assert(self.pending() =~= before.insert(account, credited));
                assert(credited == pending_or_zero(before, account) + reward);
                assert forall|a: AccountId| #[trigger]
                    self.pending().contains_key(a) implies self.pending()[a] == pending_or_zero(
                        old_view,
                        a,
                    ) + occurrences(accounts@.take(i + 1), a) * reward by {
                    let o = occurrences(accounts@.take(i as int), a);
                    let t1 = accounts@.take(i + 1);
                    assert(t1.drop_last() =~= accounts@.take(i as int));
                    assert(t1.last() == account);
                    assert(occurrences(t1, a) == o + (if a == account {
                        1nat
                    } else {
                        0nat
                    }));
                    if !before.contains_key(a) {
                        assert(!old_view.contains_key(a));
                        assert(!accounts@.take(i as int).contains(a));
                        lemma_occurrences_absent(accounts@.take(i as int), a);
                        assert(o * reward == 0) by (nonlinear_arith)
                            requires
                                o == 0,
                        ;
                        assert(pending_or_zero(before, a) == pending_or_zero(old_view, a) + o * reward);
                    }
                    if a == account {
                        assert((o + 1) * reward == o * reward + reward) by (nonlinear_arith);
                        assert(self.pending()[a] == credited);
                    } else {
                        assert(self.pending()[a] == before[a]);
                    }
                }
            }
            i = i + 1;
        }
        proof {
            assert(accounts@.take(n as int) =~= accounts@);
        }
        Ok(reward)
    }

    pub fn get_total_pending_rewards(&self) -> (r: Balance)
        ensures
            r == self.total_pending_rewards,
    {
        self.total_pending_rewards
    }

    /// Whether `from` has a reward to claim.
    pub fn has_pending_rewards_from(&self, from: AccountId) -> (r: bool)
        requires
            self.wf(),
        ensures
            r == self.pending().contains_key(from),
    {
        match self.find(&from) {
            Some(k) => {
                proof {
                    lemma_view_lookup(self.pending_rewards@, k as int);
                }
                true
            },
            None => false,
        }
    }

    /// The reward that `from` may claim, if any.
    pub fn get_pending_rewards_from(&self, from: AccountId) -> (r: Option<Balance>)
        requires
            self.wf(),
        ensures
            r == (if self.pending().contains_key(from) {
                Some(self.pending()[from])
            } else {
                None::<Balance>
            }),
    {
        match self.find(&from) {
            Some(k) => {
                proof {
                    lemma_view_lookup(self.pending_rewards@, k as int);
                }
                Some(self.pending_rewards[k].1)
            },
            None => None,
        }
    }

    /// Clears the reward of `from` and returns its amount, which the caller
    /// then transfers to `from`; a failed transfer must revert the call.
    pub fn claim_from(&mut self, from: AccountId) -> (r: Result<Balance, RaffleError>)
        requires
            old(self).wf(),
        ensures
            final(self).wf(),
            !old(self).pending().contains_key(from) ==> r == Err::<Balance, _>(
                RaffleError::NoReward,
            ) && *final(self) == *old(self),
            old(self).pending().contains_key(from) ==> {
                &&& r == Ok::<Balance, RaffleError>(old(self).pending()[from])
                &&& final(self).pending() == old(self).pending().remove(from)
                &&& final(self).total_pending_rewards == old(self).total_pending_rewards
                    - old(self).pending()[from]
            },
    {
        match self.find(&from) {
            Some(k) => {
                let amount = self.pending_rewards[k].1;
                let ghost s = self.pending_rewards@;
                proof {
                    lemma_view_lookup(s, k as int);
                    lemma_view_remove(s, k as int);
                    lemma_sum_remove(s, k as int);
                    lemma_amount_le_sum(s, k as int);
                }
                self.pending_rewards.remove(k);
                self.total_pending_rewards = self.total_pending_rewards - amount;
                Ok(amount)
            },
            None => Err(RaffleError::NoReward),
        }
    }
}

} // verus!
