//! The ledger engine: owner, balances, total supply, display metadata and the
//! append-only event log, with the three mutating operations.

use vstd::prelude::*;

use crate::AccountId;
use crate::Balance;
use crate::store::BalanceStore;
use crate::store::balance_in;
use crate::store::sum_of;
use crate::store::unique_accounts;

verus! {

/// An immutable record of one balance-changing operation. `from == None`
/// denotes a mint, `to == None` a burn; both present denote a transfer.
#[derive(Clone, Copy, PartialEq, Eq, Debug)]
pub struct Transferred {
    pub from: Option<AccountId>,
    pub to: Option<AccountId>,
    pub value: Balance,
}

/// Why a mutating operation was refused. A refused operation changes nothing.
#[derive(Clone, Copy, PartialEq, Eq, Structural, Debug)]
pub enum Error {
    /// A transfer or burn asked for more than the source account holds.
    InsufficientBalance,
    /// Mint or burn was called by an account other than the owner.
    NotAuthorized,
    /// Minting the requested amount would overflow the balance width.
    Overflow,
}

/// The token ledger: a single owner fixed at creation, a balance per account,
/// the total supply, display metadata, and the log of emitted events.
pub struct Erc20 {
    owner: AccountId,
    balances: BalanceStore,
    supply: Balance,
    name: String,
    symbol: String,
    events: Vec<Transferred>,
}

impl Erc20 {
    /// The account fixed at creation as the only one allowed to mint or burn.
    pub closed spec fn spec_owner(&self) -> AccountId {
        self.owner
    }

    /// The balance held by `account`; accounts never seen hold zero.
    pub closed spec fn spec_balance_of(&self, account: AccountId) -> Balance {
        self.balances.spec_get(account)
    }

    /// The recorded total supply.
    pub closed spec fn spec_total_supply(&self) -> Balance {
        self.supply
    }

    /// The display name.
    pub closed spec fn spec_name(&self) -> Seq<char> {
        self.name@
    }

    /// The display symbol.
    pub closed spec fn spec_symbol(&self) -> Seq<char> {
        self.symbol@
    }

    /// The events emitted so far, oldest first.
    pub closed spec fn spec_events(&self) -> Seq<Transferred> {
        self.events@
    }

    /// The stored balance entries, one per account with a recorded balance.
    pub closed spec fn spec_entries(&self) -> Seq<(AccountId, Balance)> {
        self.balances@
    }

    /// Well-formedness: each account has at most one balance entry, and the
    /// total supply equals the sum of all balances.
    pub closed spec fn wf(&self) -> bool {
        &&& self.balances.wf()
        &&& self.balances.sum() == self.supply as int
    }

    /// Creates the ledger: `caller` becomes the owner and receives the entire
    /// initial supply, and one mint-style event is emitted.
    pub fn new(caller: AccountId, total_supply: Balance, name: String, symbol: String) -> (r: Erc20)
        ensures
            r.wf(),
            r.spec_owner() == caller,
            r.spec_total_supply() == total_supply,
            r.spec_balance_of(caller) == total_supply,
            forall|a: AccountId| a != caller ==> r.spec_balance_of(a) == 0,
            r.spec_name() == name@,
            r.spec_symbol() == symbol@,
            r.spec_events() =~= seq![
                (Transferred { from: None, to: Some(caller), value: total_supply }),
            ],
    {
        let mut balances = BalanceStore::new();
        balances.set(caller, total_supply);
        let mut events: Vec<Transferred> = Vec::new();
        events.push(Transferred { from: None, to: Some(caller), value: total_supply });
        Erc20 { owner: caller, balances, supply: total_supply, name, symbol, events }
    }

    /// The display name.
    pub fn name(&self) -> (r: String)
        ensures
            r@ == self.spec_name(),
    {
        self.name.clone()
    }

    /// The display symbol.
    pub fn symbol(&self) -> (r: String)
        ensures
            r@ == self.spec_symbol(),
    {
        self.symbol.clone()
    }

    /// The total supply.
    pub fn total_supply(&self) -> (r: Balance)
        ensures
            r == self.spec_total_supply(),
    {
        self.supply
    }

    /// The balance held by `account`; accounts never seen hold zero.
    pub fn balance_of(&self, account: AccountId) -> (r: Balance)
        ensures
            r == self.spec_balance_of(account),
    {
        self.balances.get(account)
    }

    /// The events emitted so far, oldest first.
    pub fn events(&self) -> (r: &Vec<Transferred>)
        ensures
            r@ == self.spec_events(),
    {
        &self.events
    }

    /// Whether `caller` may mint or burn: true exactly for the owner.
    fn is_authorized(&self, caller: AccountId) -> (r: bool)
        ensures
            r == (caller == self.spec_owner()),
    {
        caller == self.owner
    }

    /// Moves `amount` from `caller` to `to` and emits one event; refused with
    /// `InsufficientBalance`, changing nothing, when `caller` holds less than
    /// `amount`. A transfer of zero and a self-transfer succeed and emit an
    /// event like any other.
    pub fn transfer(&mut self, caller: AccountId, to: AccountId, amount: Balance) -> (r: Result<
        bool,
        Error,
    >)
        requires
            old(self).wf(),
        ensures
            final(self).wf(),
            transfer_step(*old(self), *final(self), caller, to, amount),
            r == (if old(self).spec_balance_of(caller) >= amount {
                Ok::<bool, Error>(true)
            } else {
                Err::<bool, Error>(Error::InsufficientBalance)
            }),
    {
        let from_balance = self.balances.get(caller);
        if from_balance < amount {
            return Err(Error::InsufficientBalance);
        }
        self.balances.set(caller, from_balance - amount);
        let to_balance = self.balances.get(to);
        proof {
            crate::store::lemma_balance_le_sum(self.balances@, to);
        }
        self.balances.set(to, to_balance + amount);
        self.events.push(Transferred { from: Some(caller), to: Some(to), value: amount });
        Ok(true)
    }

    /// Creates `amount` new tokens credited to the caller, which must be the
    /// owner, and emits one mint event. Refused with `NotAuthorized` for any
    /// other caller and with `Overflow` when the supply would exceed the
    /// balance width; a refused call changes nothing.
    pub fn mint(&mut self, caller: AccountId, amount: Balance) -> (r: Result<bool, Error>)
        requires
            old(self).wf(),
        ensures
            final(self).wf(),
            caller != old(self).spec_owner() ==> r == Err::<bool, Error>(Error::NotAuthorized)
                && *final(self) == *old(self),
            caller == old(self).spec_owner() && old(self).spec_total_supply() + amount
                > u128::MAX ==> r == Err::<bool, Error>(Error::Overflow) && *final(self) == *old(
                self,
            ),
            caller == old(self).spec_owner() && old(self).spec_total_supply() + amount
                <= u128::MAX ==> r == Ok::<bool, Error>(true) && mint_step(
                *old(self),
                *final(self),
                caller,
                amount,
            ),
    {
        if !self.is_authorized(caller) {
            return Err(Error::NotAuthorized);
        }
        if amount > u128::MAX - self.supply {
            return Err(Error::Overflow);
        }
        let balance = self.balances.get(caller);
        proof {
            crate::store::lemma_balance_le_sum(self.balances@, caller);
        }
        self.supply = self.supply + amount;
        self.balances.set(caller, balance + amount);
        self.events.push(Transferred { from: None, to: Some(caller), value: amount });
        Ok(true)
    }

    /// Destroys `amount` tokens held by the caller, which must be the owner,
    /// and emits one burn event. Refused with `NotAuthorized` for any other
    /// caller and with `InsufficientBalance` when the caller holds less than
    /// `amount`; a refused call changes nothing.
    pub fn burn(&mut self, caller: AccountId, amount: Balance) -> (r: Result<bool, Error>)
        requires
            old(self).wf(),
        ensures
            final(self).wf(),
            caller != old(self).spec_owner() ==> r == Err::<bool, Error>(Error::NotAuthorized)
                && *final(self) == *old(self),
            caller == old(self).spec_owner() && old(self).spec_balance_of(caller) < amount ==> r
                == Err::<bool, Error>(Error::InsufficientBalance) && *final(self) == *old(self),
            caller == old(self).spec_owner() && old(self).spec_balance_of(caller) >= amount ==> r
                == Ok::<bool, Error>(true) && burn_step(*old(self), *final(self), caller, amount),
    {
        if !self.is_authorized(caller) {
            return Err(Error::NotAuthorized);
        }
        let balance = self.balances.get(caller);
        if balance < amount {
            return Err(Error::InsufficientBalance);
        }
        proof {
            crate::store::lemma_balance_le_sum(self.balances@, caller);
        }
        self.supply = self.supply - amount;
        self.balances.set(caller, balance - amount);
        self.events.push(Transferred { from: Some(caller), to: None, value: amount });
        Ok(true)
    }
}

/// The state change that one `transfer` call with the given arguments makes:
/// when `caller` holds at least `amount` it moves to `to` (a self-transfer
/// nets to no change) and one matching event is appended; otherwise the
/// ledger is exactly as before.
pub open spec fn transfer_step(
    pre: Erc20,
    post: Erc20,
    caller: AccountId,
    to: AccountId,
    amount: Balance,
) -> bool {
    if pre.spec_balance_of(caller) >= amount {
        &&& post.wf()
        &&& post.spec_owner() == pre.spec_owner()
        &&& post.spec_total_supply() == pre.spec_total_supply()
        &&& post.spec_name() == pre.spec_name()
        &&& post.spec_symbol() == pre.spec_symbol()
        &&& post.spec_balance_of(caller) as int == pre.spec_balance_of(caller) - (
        if caller == to {
            0
        } else {
            amount as int
        })
        &&& post.spec_balance_of(to) as int == pre.spec_balance_of(to) + (
        if caller == to {
            0
        } else {
            amount as int
        })
        &&& forall|a: AccountId|
            a != caller && a != to ==> post.spec_balance_of(a) == pre.spec_balance_of(a)
        &&& post.spec_events() == pre.spec_events().push(
            (Transferred { from: Some(caller), to: Some(to), value: amount }),
        )
    } else {
        post == pre
    }
}

/// The state change that one successful `mint` call makes: `amount` joins the
/// supply and the caller's balance, and one mint event is appended.
pub open spec fn mint_step(pre: Erc20, post: Erc20, caller: AccountId, amount: Balance) -> bool {
    &&& post.wf()
    &&& post.spec_owner() == pre.spec_owner()
    &&& post.spec_name() == pre.spec_name()
    &&& post.spec_symbol() == pre.spec_symbol()
    &&& post.spec_total_supply() as int == pre.spec_total_supply() + amount
    &&& post.spec_balance_of(caller) as int == pre.spec_balance_of(caller) + amount
    &&& forall|a: AccountId| a != caller ==> post.spec_balance_of(a) == pre.spec_balance_of(a)
    &&& post.spec_events() == pre.spec_events().push(
        (Transferred { from: None, to: Some(caller), value: amount }),
    )
}

/// The state change that one successful `burn` call makes: `amount` leaves
/// the supply and the caller's balance, and one burn event is appended.
pub open spec fn burn_step(pre: Erc20, post: Erc20, caller: AccountId, amount: Balance) -> bool {
    &&& post.wf()
    &&& post.spec_owner() == pre.spec_owner()
    &&& post.spec_name() == pre.spec_name()
    &&& post.spec_symbol() == pre.spec_symbol()
    &&& post.spec_total_supply() as int == pre.spec_total_supply() - amount
    &&& post.spec_balance_of(caller) as int == pre.spec_balance_of(caller) - amount
    &&& forall|a: AccountId| a != caller ==> post.spec_balance_of(a) == pre.spec_balance_of(a)
    &&& post.spec_events() == pre.spec_events().push(
        (Transferred { from: Some(caller), to: None, value: amount }),
    )
}

/// Whether `post` can be reached from `pre` by one transfer step per entry of
/// `steps`, each a `(caller, to, amount)` triple, in order.
pub open spec fn reachable_by_transfers(
    pre: Erc20,
    post: Erc20,
    steps: Seq<(AccountId, AccountId, Balance)>,
) -> bool
    decreases steps.len(),
{
    if steps.len() == 0 {
        post == pre
    } else {
        exists|mid: Erc20|
            #[trigger] transfer_step(pre, mid, steps[0].0, steps[0].1, steps[0].2)
                && reachable_by_transfers(mid, post, steps.drop_first())
    }
}

/// Conservation: across any sequence of transfers, successful or refused, the
/// total supply is unchanged, and a well-formed ledger stays well-formed.
pub proof fn lemma_transfers_conserve_supply(
    pre: Erc20,
    post: Erc20,
    steps: Seq<(AccountId, AccountId, Balance)>,
)
    requires
        reachable_by_transfers(pre, post, steps),
    ensures
        post.spec_total_supply() == pre.spec_total_supply(),
        pre.wf() ==> post.wf(),
    decreases steps.len(),
{
    if steps.len() > 0 {
        let mid = choose|mid: Erc20|
            #[trigger] transfer_step(pre, mid, steps[0].0, steps[0].1, steps[0].2)
                && reachable_by_transfers(mid, post, steps.drop_first());
        lemma_transfers_conserve_supply(mid, post, steps.drop_first());
    }
}

/// Conservation: in a well-formed ledger the total supply equals the sum of
/// all recorded balances, each account appears in at most one entry, and the
/// balance of every account is the one its entry records.
pub proof fn lemma_supply_equals_sum_of_balances(ledger: &Erc20)
    requires
        ledger.wf(),
    ensures
        ledger.spec_total_supply() as int == sum_of(ledger.spec_entries()),
        unique_accounts(ledger.spec_entries()),
        forall|a: AccountId| ledger.spec_balance_of(a) == balance_in(ledger.spec_entries(), a),
{
}

/// Non-negativity: no account ever holds a negative balance.
pub proof fn lemma_balance_nonnegative(ledger: &Erc20, account: AccountId)
    ensures
        0 <= ledger.spec_balance_of(account),
{
}

/// In a well-formed ledger no single balance exceeds the total supply.
pub proof fn lemma_balance_le_supply(ledger: &Erc20, account: AccountId)
    requires
        ledger.wf(),
    ensures
        ledger.spec_balance_of(account) <= ledger.spec_total_supply(),
{
    crate::store::lemma_balance_le_sum(ledger.spec_entries(), account);
}

} // verus!
