use vstd::prelude::*;
use std::collections::HashMap;
use crate::types::{AccountId, Balance, HoldReason};

verus! {

broadcast use vstd::std_specs::hash::group_hash_axioms;

/// The balances of one account: what it can spend and what is held, by reason.
#[derive(Clone, Copy, Debug, PartialEq, Eq, Structural)]
pub struct AccountData {
    pub free: Balance,
    pub held_swap_amount: Balance,
    pub held_safety_deposit: Balance,
    pub held_intent_amount: Balance,
}

impl AccountData {
    pub open spec fn empty() -> AccountData {
        AccountData { free: 0, held_swap_amount: 0, held_safety_deposit: 0, held_intent_amount: 0 }
    }

    /// What is held under `r`.
    pub open spec fn held(self, r: HoldReason) -> Balance {
        match r {
            HoldReason::SwapAmount => self.held_swap_amount,
            HoldReason::SafetyDeposit => self.held_safety_deposit,
            HoldReason::MakerSwapIntentAmount => self.held_intent_amount,
        }
    }

    /// Sets what is held under `r`.
    pub open spec fn with_held(self, r: HoldReason, x: Balance) -> AccountData {
        match r {
            HoldReason::SwapAmount => AccountData { held_swap_amount: x, ..self },
            HoldReason::SafetyDeposit => AccountData { held_safety_deposit: x, ..self },
            HoldReason::MakerSwapIntentAmount => AccountData { held_intent_amount: x, ..self },
        }
    }

    pub open spec fn with_free(self, x: Balance) -> AccountData {
        AccountData { free: x, ..self }
    }

    /// Everything held, under all reasons.
    pub open spec fn total_held(self) -> int {
        self.held_swap_amount + self.held_safety_deposit + self.held_intent_amount
    }

    /// Free and held together.
    pub open spec fn total(self) -> int {
        self.free + self.total_held()
    }
}

/// The account data of `a`; an account never touched has nothing.
pub open spec fn account_of(m: Map<AccountId, AccountData>, a: AccountId) -> AccountData {
    if m.contains_key(a) {
        m[a]
    } else {
        AccountData::empty()
    }
}

/// Moves `x` of `a`'s free balance on hold under `r`; `None` where less is free.
pub open spec fn hold_spec(m: Map<AccountId, AccountData>, r: HoldReason, a: AccountId, x: Balance) -> Option<
    Map<AccountId, AccountData>,
> {
    let d = account_of(m, a);
    if x <= d.free {
        Some(m.insert(a, d.with_free((d.free - x) as Balance).with_held(r, (d.held(r) + x) as Balance)))
    } else {
        None
    }
}

/// Returns `x` held under `r` to `a`'s free balance; `None` where less is held.
pub open spec fn release_spec(m: Map<AccountId, AccountData>, r: HoldReason, a: AccountId, x: Balance) -> Option<
    Map<AccountId, AccountData>,
> {
    let d = account_of(m, a);
    if x <= d.held(r) {
        Some(m.insert(a, d.with_free((d.free + x) as Balance).with_held(r, (d.held(r) - x) as Balance)))
    } else {
        None
    }
}

/// Moves `x` of free balance from `from` to `to`; `None` where `from` has less free, or
/// where `to`'s total would not fit in a balance.
pub open spec fn transfer_spec(m: Map<AccountId, AccountData>, from: AccountId, to: AccountId, x: Balance) -> Option<
    Map<AccountId, AccountData>,
> {
    let f = account_of(m, from);
    let t = account_of(m, to);
    if x > f.free {
        None
    } else if from == to {
        Some(m)
    } else if t.total() + x > Balance::MAX {
        None
    } else {
        Some(
            m.insert(from, f.with_free((f.free - x) as Balance)).insert(
                to,
                t.with_free((t.free + x) as Balance),
            ),
        )
    }
}

/// A hold adds `x` to what `a` holds under `r0`, and changes no other hold.
pub proof fn lemma_hold_held(
    m: Map<AccountId, AccountData>,
    r0: HoldReason,
    a0: AccountId,
    x: Balance,
    r: HoldReason,
    a: AccountId,
)
    requires
        hold_spec(m, r0, a0, x) is Some,
        account_of(m, a0).total() <= Balance::MAX,
    ensures
        account_of(hold_spec(m, r0, a0, x)->0, a0).total() == account_of(m, a0).total(),
        account_of(hold_spec(m, r0, a0, x)->0, a).held(r) == account_of(m, a).held(r) + (if r
            == r0 && a == a0 {
            x as int
        } else {
            0
        }),
{
}

/// A release takes `x` from what `a` holds under `r0`, and changes no other hold.
pub proof fn lemma_release_held(
    m: Map<AccountId, AccountData>,
    r0: HoldReason,
    a0: AccountId,
    x: Balance,
    r: HoldReason,
    a: AccountId,
)
    requires
        release_spec(m, r0, a0, x) is Some,
    ensures
        account_of(release_spec(m, r0, a0, x)->0, a).held(r) == account_of(m, a).held(r) - (if r
            == r0 && a == a0 {
            x as int
        } else {
            0
        }),
{
}

/// A transfer moves free balance only.
pub proof fn lemma_transfer_held(
    m: Map<AccountId, AccountData>,
    from: AccountId,
    to: AccountId,
    x: Balance,
    r: HoldReason,
    a: AccountId,
)
    requires
        transfer_spec(m, from, to, x) is Some,
    ensures
        account_of(transfer_spec(m, from, to, x)->0, a).held(r) == account_of(m, a).held(r),
{
}

/// Failure of a custody operation.
#[derive(Clone, Copy, Debug, PartialEq, Eq, Structural)]
pub enum LedgerError {
    /// Less is free than the operation takes.
    InsufficientFree,
    /// Less is held under the reason than the release returns.
    InsufficientHeld,
    /// The receiving account's total would not fit in a balance.
    Overflow,
}

/// Custody ledger: free and held balances of each account.
pub struct Balances {
    accounts: HashMap<AccountId, AccountData>,
}

impl View for Balances {
    type V = Map<AccountId, AccountData>;

    closed spec fn view(&self) -> Map<AccountId, AccountData> {
        self.accounts@
    }
}

impl Balances {
    /// Each account's total, free and held, fits in a balance.
    pub open spec fn wf(&self) -> bool {
        forall|a: AccountId| #[trigger] account_of(self@, a).total() <= Balance::MAX
    }

    pub fn new() -> (r: Balances)
        ensures
            r.wf(),
            r@ == Map::<AccountId, AccountData>::empty(),
    {
        Balances { accounts: HashMap::new() }
    }

    /// A copy with the same balances.
    pub fn duplicate(&self) -> (r: Balances)
        ensures
            r@ == self@,
    {
        Balances { accounts: self.accounts.clone() }
    }

    /// The balances of `a`.
    pub fn account(&self, a: AccountId) -> (r: AccountData)
        ensures
            r == account_of(self@, a),
    {
        match self.accounts.get(&a) {
            Some(d) => *d,
            None => AccountData {
                free: 0,
                held_swap_amount: 0,
                held_safety_deposit: 0,
                held_intent_amount: 0,
            },
        }
    }

    /// What `a` can spend.
    pub fn free_balance(&self, a: AccountId) -> (r: Balance)
        ensures
            r == account_of(self@, a).free,
    {
        self.account(a).free
    }

    /// What is held from `a` under `r`.
    pub fn balance_on_hold(&self, reason: HoldReason, a: AccountId) -> (r: Balance)
        ensures
            r == account_of(self@, a).held(reason),
    {
        let d = self.account(a);
        match reason {
            HoldReason::SwapAmount => d.held_swap_amount,
            HoldReason::SafetyDeposit => d.held_safety_deposit,
            HoldReason::MakerSwapIntentAmount => d.held_intent_amount,
        }
    }

    /// What is held from `a` under all reasons together.
    pub fn total_balance_on_hold(&self, a: AccountId) -> (r: Balance)
        requires
            self.wf(),
        ensures
            r == account_of(self@, a).total_held(),
    {
        let d = self.account(a);
        assert(account_of(self@, a).total() <= Balance::MAX);
        d.held_swap_amount + d.held_safety_deposit + d.held_intent_amount
    }

    /// Sets the free balance of `a`, keeping what is held.
    pub fn set_balance(&mut self, a: AccountId, free: Balance)
        requires
            old(self).wf(),
            account_of(old(self)@, a).total_held() + free <= Balance::MAX,
        ensures
            final(self).wf(),
            final(self)@ == old(self)@.insert(a, account_of(old(self)@, a).with_free(free)),
    {
        let d = self.account(a);
        self.accounts.insert(a, AccountData { free, ..d });
        assert forall|b: AccountId| #[trigger] account_of(self@, b).total() <= Balance::MAX by {
            assert(account_of(old(self)@, b).total() <= Balance::MAX);
        }
    }

    /// Puts `x` of `a`'s free balance on hold under `reason`.
    pub fn hold(&mut self, reason: HoldReason, a: AccountId, x: Balance) -> (r: Result<(), LedgerError>)
        requires
            old(self).wf(),
        ensures
            final(self).wf(),
            r is Ok <==> hold_spec(old(self)@, reason, a, x) is Some,
            r is Ok ==> final(self)@ == hold_spec(old(self)@, reason, a, x)->0,
            r is Err ==> final(self)@ == old(self)@ && r == Err::<(), LedgerError>(LedgerError::InsufficientFree),
    {
        let d = self.account(a);
        if x > d.free {
            return Err(LedgerError::InsufficientFree);
        }
        assert(account_of(self@, a).total() <= Balance::MAX);
        let nd = match reason {
            HoldReason::SwapAmount => AccountData { free: d.free - x, held_swap_amount: d.held_swap_amount + x, ..d },
            HoldReason::SafetyDeposit => AccountData { free: d.free - x, held_safety_deposit: d.held_safety_deposit + x, ..d },
            HoldReason::MakerSwapIntentAmount => AccountData { free: d.free - x, held_intent_amount: d.held_intent_amount + x, ..d },
        };
        self.accounts.insert(a, nd);
        assert(self@ == hold_spec(old(self)@, reason, a, x)->0);
        assert forall|b: AccountId| #[trigger] account_of(self@, b).total() <= Balance::MAX by {
            assert(account_of(old(self)@, b).total() <= Balance::MAX);
        }
        Ok(())
    }

    /// Returns `x` held from `a` under `reason` to its free balance.
    pub fn release(&mut self, reason: HoldReason, a: AccountId, x: Balance) -> (r: Result<(), LedgerError>)
        requires
            old(self).wf(),
        ensures
            final(self).wf(),
            r is Ok <==> release_spec(old(self)@, reason, a, x) is Some,
            r is Ok ==> final(self)@ == release_spec(old(self)@, reason, a, x)->0,
            r is Err ==> final(self)@ == old(self)@ && r == Err::<(), LedgerError>(LedgerError::InsufficientHeld),
    {
        let d = self.account(a);
        let held = self.balance_on_hold(reason, a);
        if x > held {
            return Err(LedgerError::InsufficientHeld);
        }
        assert(account_of(self@, a).total() <= Balance::MAX);
        let nd = match reason {
            HoldReason::SwapAmount => AccountData { free: d.free + x, held_swap_amount: d.held_swap_amount - x, ..d },
            HoldReason::SafetyDeposit => AccountData { free: d.free + x, held_safety_deposit: d.held_safety_deposit - x, ..d },
            HoldReason::MakerSwapIntentAmount => AccountData { free: d.free + x, held_intent_amount: d.held_intent_amount - x, ..d },
        };
        self.accounts.insert(a, nd);
        assert(self@ == release_spec(old(self)@, reason, a, x)->0);
        assert forall|b: AccountId| #[trigger] account_of(self@, b).total() <= Balance::MAX by {
            assert(account_of(old(self)@, b).total() <= Balance::MAX);
        }
        Ok(())
    }

    /// Moves `x` of free balance from `from` to `to`.
    pub fn transfer(&mut self, from: AccountId, to: AccountId, x: Balance) -> (r: Result<(), LedgerError>)
        requires
            old(self).wf(),
        ensures
            final(self).wf(),
            r is Ok <==> transfer_spec(old(self)@, from, to, x) is Some,
            r is Ok ==> final(self)@ == transfer_spec(old(self)@, from, to, x)->0,
            r is Err ==> final(self)@ == old(self)@,
            r == Err::<(), LedgerError>(LedgerError::InsufficientFree) <==> x > account_of(old(self)@, from).free,
    {
        let f = self.account(from);
        if x > f.free {
            return Err(LedgerError::InsufficientFree);
        }
        if from == to {
            return Ok(());
        }
        let t = self.account(to);
        assert(account_of(self@, to).total() <= Balance::MAX);
        if x > Balance::MAX - t.free - t.held_swap_amount - t.held_safety_deposit - t.held_intent_amount {
            return Err(LedgerError::Overflow);
        }
        self.accounts.insert(from, AccountData { free: f.free - x, ..f });
        self.accounts.insert(to, AccountData { free: t.free + x, ..t });
        assert(self@ == transfer_spec(old(self)@, from, to, x)->0);
        assert forall|b: AccountId| #[trigger] account_of(self@, b).total() <= Balance::MAX by {
            assert(account_of(old(self)@, b).total() <= Balance::MAX);
        }
        Ok(())
    }
}

} // verus!
