//! Data-credit balances of the payers of packets.
//!
//! A payer's balance is cached together with the amount burned against it
//! but not yet settled. A debit succeeds while the balance covers what was
//! burned plus the new amount. The outcome says whether the payer's
//! organization has to be switched on or off as a result.

use vstd::prelude::*;

verus! {

/// The cached balance of one payer.
#[derive(Clone, Copy, Debug, PartialEq, Eq)]
pub struct Balance {
    /// The balance on chain when it was last looked up.
    pub balance: u64,
    /// What was debited since and is not yet burned on chain.
    pub burned: u64,
    /// Whether the payer's organization is switched on.
    pub enabled: bool,
}

/// The outcome of a debit.
#[derive(Clone, Copy, Debug, PartialEq, Eq, Structural)]
pub enum BalanceSufficiency {
    /// The balance covered the debit. `enable` says that the organization was
    /// off and has to be switched on.
    Sufficient { enable: bool },
    /// The balance did not cover the debit. `disable` says that the
    /// organization was on and has to be switched off.
    Insufficient { disable: bool },
}

/// What to ask of the organization service after a debit.
#[derive(Clone, Copy, Debug, PartialEq, Eq, Structural)]
pub enum OrgChange {
    /// Switch the organization on.
    Enable,
    /// Switch the organization off.
    Disable,
    /// Leave the organization as it is.
    Keep,
}

impl BalanceSufficiency {
    /// The outcome of a debit that was covered. Marks the payer as enabled.
    pub fn sufficient(enabled: &mut bool) -> (outcome: Self)
        ensures
            *final(enabled),
            outcome == (BalanceSufficiency::Sufficient { enable: !*old(enabled) }),
    {
        let was_enabled = *enabled;
        *enabled = true;
        BalanceSufficiency::Sufficient { enable: !was_enabled }
    }

    /// The outcome of a debit that was not covered. Marks the payer as
    /// disabled.
    pub fn insufficient(enabled: &mut bool) -> (outcome: Self)
        ensures
            !*final(enabled),
            outcome == (BalanceSufficiency::Insufficient { disable: *old(enabled) }),
    {
        let was_enabled = *enabled;
        *enabled = false;
        BalanceSufficiency::Insufficient { disable: was_enabled }
    }

    /// Whether the debit was covered.
    pub fn is_sufficient(&self) -> (covered: bool)
        ensures
            covered == (*self is Sufficient),
    {
        match self {
            BalanceSufficiency::Sufficient { .. } => true,
            BalanceSufficiency::Insufficient { .. } => false,
        }
    }

    /// The change to ask of the organization service: one only where the
    /// debit flipped the payer from off to on or from on to off.
    pub open spec fn spec_org_change(self) -> OrgChange {
        match self {
            BalanceSufficiency::Sufficient { enable: true } => OrgChange::Enable,
            BalanceSufficiency::Insufficient { disable: true } => OrgChange::Disable,
            _ => OrgChange::Keep,
        }
    }

    /// The change to ask of the organization service.
    pub fn org_change(self) -> (change: OrgChange)
        ensures
            change == self.spec_org_change(),
    {
        match self {
            BalanceSufficiency::Sufficient { enable: true } => OrgChange::Enable,
            BalanceSufficiency::Insufficient { disable: true } => OrgChange::Disable,
            _ => OrgChange::Keep,
        }
    }
}

impl Balance {
    /// A balance fresh from a lookup: nothing burned, organization on.
    pub fn new(balance: u64) -> (fresh: Self)
        ensures
            fresh.balance == balance,
            fresh.burned == 0,
            fresh.enabled,
    {
        Self { balance, burned: 0, enabled: true }
    }

    /// The burn amount of a pending burn as the cache counts it: the amount
    /// itself, and for a negative amount its two's complement.
    pub open spec fn burn_of(burn_amount: i64) -> int {
        if burn_amount >= 0 {
            burn_amount as int
        } else {
            burn_amount + 0x1_0000_0000_0000_0000
        }
    }

    /// The balance of a payer with a pending burn, as the cache starts out
    /// with it.
    pub fn with_pending_burn(balance: u64, burn_amount: i64) -> (cached: Self)
        ensures
            cached.balance == balance,
            cached.burned == Self::burn_of(burn_amount),
            cached.enabled,
    {
        let burned: u64 = if burn_amount >= 0 {
            burn_amount as u64
        } else {
            (burn_amount as i128 + 0x1_0000_0000_0000_0000i128) as u64
        };
        Self { balance, burned, enabled: true }
    }

    /// Whether the balance covers `amount` on top of what is burned.
    pub open spec fn covers(&self, amount: u64) -> bool {
        self.balance >= amount + self.burned
    }

    /// Whether the balance covers `amount` on top of what is burned. The sum
    /// is taken without overflow.
    pub fn is_covering(&self, amount: u64) -> (covered: bool)
        ensures
            covered == self.covers(amount),
    {
        self.balance as u128 >= amount as u128 + self.burned as u128
    }

    /// Whether the payer's balance has to be looked up before a debit of
    /// `amount` is decided: when nothing is cached, and when what is cached
    /// does not cover the debit and may since have been topped up.
    pub fn needs_lookup(cached: Option<&Balance>, amount: u64) -> (needed: bool)
        ensures
            needed == match cached {
                Some(balance) => !balance.covers(amount),
                None => true,
            },
    {
        match cached {
            Some(balance) => !balance.is_covering(amount),
            None => true,
        }
    }

    /// The cache entry once `balance` was looked up: a fresh entry where
    /// nothing was cached, else the cached entry with its balance replaced.
    pub fn looked_up(cached: Option<Balance>, balance: u64) -> (entry: Balance)
        ensures
            entry == match cached {
                Some(cached) => Balance { balance, ..cached },
                None => Balance { balance, burned: 0, enabled: true },
            },
    {
        match cached {
            Some(cached) => Balance { balance, burned: cached.burned, enabled: cached.enabled },
            None => Balance::new(balance),
        }
    }

    /// The balance after a debit of `amount`: a covered debit adds to what
    /// is burned and switches the payer on; one that is not covered burns
    /// nothing and switches the payer off.
    pub open spec fn debited(self, amount: u64) -> Balance {
        if self.covers(amount) {
            Balance { burned: (self.burned + amount) as u64, enabled: true, ..self }
        } else {
            Balance { enabled: false, ..self }
        }
    }

    /// The outcome of a debit of `amount`: whether it was covered, and
    /// whether it flipped the payer.
    pub open spec fn debit_outcome(self, amount: u64) -> BalanceSufficiency {
        if self.covers(amount) {
            BalanceSufficiency::Sufficient { enable: !self.enabled }
        } else {
            BalanceSufficiency::Insufficient { disable: self.enabled }
        }
    }

    /// Debits `amount` if the balance covers it.
    pub fn debit_if_sufficient(&mut self, amount: u64) -> (outcome: BalanceSufficiency)
        ensures
            *final(self) == old(self).debited(amount),
            outcome == old(self).debit_outcome(amount),
    {
        if self.is_covering(amount) {
            self.burned = self.burned + amount;
            BalanceSufficiency::sufficient(&mut self.enabled)
        } else {
            BalanceSufficiency::insufficient(&mut self.enabled)
        }
    }
}

/// A debit never burns more than the balance: if what was burned was within
/// the balance before, it is within the balance after, covered or not. The
/// balance itself is never changed by a debit.
pub proof fn lemma_debit_stays_within_balance(before: Balance, amount: u64)
    requires
        before.burned <= before.balance,
    ensures
        before.debited(amount).burned <= before.debited(amount).balance,
        before.debited(amount).balance == before.balance,
        before.debited(amount).burned == before.burned + if before.covers(amount) {
            amount as int
        } else {
            0
        },
{
}

/// A debit that is not covered is not covered when repeated: the payer stays
/// off until a lookup finds more balance.
pub proof fn lemma_refused_debit_stays_refused(before: Balance, amount: u64)
    requires
        !before.covers(amount),
    ensures
        !before.debited(amount).covers(amount),
        before.debited(amount).debit_outcome(amount) == (BalanceSufficiency::Insufficient {
            disable: false,
        }),
{
}

/// The organization is asked to change only when a debit flips the payer:
/// repeating a debit with the same outcome asks for nothing.
pub proof fn lemma_org_change_only_on_flip(enabled: bool)
    ensures
        (BalanceSufficiency::Sufficient { enable: !enabled }).spec_org_change() == if enabled {
            OrgChange::Keep
        } else {
            OrgChange::Enable
        },
        (BalanceSufficiency::Insufficient { disable: enabled }).spec_org_change() == if enabled {
            OrgChange::Disable
        } else {
            OrgChange::Keep
        },
{
}

} // verus!
