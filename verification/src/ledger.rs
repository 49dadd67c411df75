//! The collateral ledger the registry reserves deposits against.
//!
//! The ledger itself belongs to the host; the registry only ever asks it to
//! reserve or release a fixed amount. `BasicLedger` is a plain in-memory
//! ledger for hosts and tests that need one.

use vstd::prelude::*;
use vstd::hash_map::HashMapWithView;

verus! {

/// What the registry needs from the host's collateral ledger: reserving a
/// deposit, which the ledger may refuse, and releasing one, which it may not.
/// The spec functions are the ledger's model: what it holds free and locked
/// for each account, and when it consents to a reservation. A host's
/// implementation must live up to these contracts; `BasicLedger` below does,
/// with proof.
pub trait CollateralLedger: Sized {
    /// The balance the ledger holds free for an account.
    spec fn free_balance(self, account: u64) -> u64;

    /// The balance the ledger holds locked as collateral for an account.
    spec fn reserved_balance(self, account: u64) -> u64;

    /// Whether the ledger would consent to locking `amount` of `account`'s
    /// free balance.
    spec fn consents(self, account: u64, amount: u64) -> bool;

    /// Locks `amount` of `account`'s free balance. Refuses exactly when the
    /// ledger does not consent, and a refusal moves no balance at all.
    /// (These clauses spell out `reserved_once` and `balances_unchanged`;
    /// a trait contract may not name them, as they bound their ledger by
    /// this very trait.)
    fn reserve(&mut self, account: u64, amount: u64) -> (r: Result<(), ()>)
        ensures
            r is Ok <==> old(self).consents(account, amount),
            r is Ok ==> final(self).free_balance(account) == old(self).free_balance(account)
                - amount && final(self).reserved_balance(account) == old(self).reserved_balance(
                account,
            ) + amount,
            forall|a: u64|
                a != account || r is Err ==> #[trigger] final(self).free_balance(a) == old(
                    self,
                ).free_balance(a),
            forall|a: u64|
                a != account || r is Err ==> #[trigger] final(self).reserved_balance(a) == old(
                    self,
                ).reserved_balance(a),
    ;

    /// Returns up to `amount` of `account`'s reserved balance to free use —
    /// all of `amount` whenever that much is reserved and the free side can
    /// take it — and never refuses. (These clauses spell out
    /// `released_once`.)
    fn release(&mut self, account: u64, amount: u64)
        ensures
            final(self).free_balance(account) + final(self).reserved_balance(account) == old(
                self,
            ).free_balance(account) + old(self).reserved_balance(account),
            final(self).reserved_balance(account) <= old(self).reserved_balance(account),
            old(self).reserved_balance(account) - final(self).reserved_balance(account) <= amount,
            (old(self).reserved_balance(account) >= amount && old(self).free_balance(account)
                + amount <= u64::MAX) ==> final(self).reserved_balance(account) == old(
                self,
            ).reserved_balance(account) - amount,
            forall|a: u64|
                a != account ==> #[trigger] final(self).free_balance(a) == old(self).free_balance(
                    a,
                ),
            forall|a: u64|
                a != account ==> #[trigger] final(self).reserved_balance(a) == old(
                    self,
                ).reserved_balance(a),
    ;
}

/// Both ledger states hold the same balances for every account.
pub open spec fn balances_unchanged<L: CollateralLedger>(pre: L, post: L) -> bool {
    forall|a: u64|
        #![trigger post.free_balance(a)]
        #![trigger post.reserved_balance(a)]
        post.free_balance(a) == pre.free_balance(a) && post.reserved_balance(a)
            == pre.reserved_balance(a)
}

/// Exactly one reservation of `amount` was taken from `account`'s free
/// balance, and no other balance moved.
pub open spec fn reserved_once<L: CollateralLedger>(
    pre: L,
    post: L,
    account: u64,
    amount: u64,
) -> bool {
    &&& post.free_balance(account) == pre.free_balance(account) - amount
    &&& post.reserved_balance(account) == pre.reserved_balance(account) + amount
    &&& forall|a: u64|
        #![trigger post.free_balance(a)]
        #![trigger post.reserved_balance(a)]
        a != account ==> post.free_balance(a) == pre.free_balance(a) && post.reserved_balance(a)
            == pre.reserved_balance(a)
}

/// One release of up to `amount` on `account`: the reserved balance shrinks
/// by at most `amount` — by exactly `amount` whenever that much is reserved
/// and the free side can take it — the account's total stands, and no other
/// balance moves.
pub open spec fn released_once<L: CollateralLedger>(
    pre: L,
    post: L,
    account: u64,
    amount: u64,
) -> bool {
    &&& post.free_balance(account) + post.reserved_balance(account) == pre.free_balance(account)
        + pre.reserved_balance(account)
    &&& post.reserved_balance(account) <= pre.reserved_balance(account)
    &&& pre.reserved_balance(account) - post.reserved_balance(account) <= amount
    &&& (pre.reserved_balance(account) >= amount && pre.free_balance(account) + amount
        <= u64::MAX) ==> post.reserved_balance(account) == pre.reserved_balance(account) - amount
    &&& forall|a: u64|
        #![trigger post.free_balance(a)]
        #![trigger post.reserved_balance(a)]
        a != account ==> post.free_balance(a) == pre.free_balance(a) && post.reserved_balance(a)
            == pre.reserved_balance(a)
}

/// A deposit moved for a transfer between two distinct accounts: the sender
/// has one more `amount` reserved, the receiver had one released, and no
/// other balance moved.
pub open spec fn moved_deposit<L: CollateralLedger>(
    pre: L,
    post: L,
    from: u64,
    to: u64,
    amount: u64,
) -> bool {
    &&& post.free_balance(from) == pre.free_balance(from) - amount
    &&& post.reserved_balance(from) == pre.reserved_balance(from) + amount
    &&& post.free_balance(to) + post.reserved_balance(to) == pre.free_balance(to)
        + pre.reserved_balance(to)
    &&& post.reserved_balance(to) <= pre.reserved_balance(to)
    &&& pre.reserved_balance(to) - post.reserved_balance(to) <= amount
    &&& (pre.reserved_balance(to) >= amount && pre.free_balance(to) + amount <= u64::MAX)
        ==> post.reserved_balance(to) == pre.reserved_balance(to) - amount
    &&& forall|a: u64|
        #![trigger post.free_balance(a)]
        #![trigger post.reserved_balance(a)]
        a != from && a != to ==> post.free_balance(a) == pre.free_balance(a)
            && post.reserved_balance(a) == pre.reserved_balance(a)
}

/// A reservation undone at once by a release of the same amount on the same
/// account leaves every balance as it was.
pub proof fn lemma_reserve_undone<L: CollateralLedger>(
    pre: L,
    mid: L,
    post: L,
    account: u64,
    amount: u64,
)
    requires
        reserved_once(pre, mid, account, amount),
        released_once(mid, post, account, amount),
    ensures
        balances_unchanged(pre, post),
{
    assert(mid.reserved_balance(account) >= amount);
    assert(mid.free_balance(account) + amount <= u64::MAX);
    assert(post.reserved_balance(account) == pre.reserved_balance(account));
    assert(post.free_balance(account) == pre.free_balance(account));
    assert forall|a: u64|
        post.free_balance(a) == pre.free_balance(a) && post.reserved_balance(a)
            == pre.reserved_balance(a) by {
        if a != account {
            assert(mid.free_balance(a) == pre.free_balance(a));
            assert(post.free_balance(a) == mid.free_balance(a));
            assert(mid.reserved_balance(a) == pre.reserved_balance(a));
            assert(post.reserved_balance(a) == mid.reserved_balance(a));
        }
    }
}

/// A reservation on one account followed by a release on another composes to
/// a moved deposit.
pub proof fn lemma_deposit_moved<L: CollateralLedger>(
    pre: L,
    mid: L,
    post: L,
    from: u64,
    to: u64,
    amount: u64,
)
    requires
        from != to,
        reserved_once(pre, mid, from, amount),
        released_once(mid, post, to, amount),
    ensures
        moved_deposit(pre, post, from, to, amount),
{
    assert(post.free_balance(from) == mid.free_balance(from));
    assert(post.reserved_balance(from) == mid.reserved_balance(from));
    assert(mid.free_balance(to) == pre.free_balance(to));
    assert(mid.reserved_balance(to) == pre.reserved_balance(to));
    assert forall|a: u64|
        a != from && a != to implies post.free_balance(a) == pre.free_balance(a)
            && post.reserved_balance(a) == pre.reserved_balance(a) by {
        assert(mid.free_balance(a) == pre.free_balance(a));
        assert(post.free_balance(a) == mid.free_balance(a));
        assert(mid.reserved_balance(a) == pre.reserved_balance(a));
        assert(post.reserved_balance(a) == mid.reserved_balance(a));
    }
}

/// One account's balance: the free part and the part locked as collateral.
#[derive(Clone, Copy, PartialEq, Eq, Structural, Debug)]
pub struct Balance {
    pub free: u64,
    pub reserved: u64,
}

/// An in-memory collateral ledger keyed by account.
pub struct BasicLedger {
    /// balance of each account that has ever held one; absent means zero
    pub balances: HashMapWithView<u64, Balance>,
}

impl BasicLedger {
    /// The balance held for an account, zero when none was ever deposited.
    pub open spec fn balance_of(self, account: u64) -> Balance {
        if self.balances@.contains_key(account) {
            self.balances@[account]
        } else {
            Balance { free: 0, reserved: 0 }
        }
    }

    /// A ledger with no balances at all.
    pub fn new() -> (r: BasicLedger)
        ensures
            forall|a: u64| r.balance_of(a) == (Balance { free: 0u64, reserved: 0u64 }),
    {
        BasicLedger { balances: HashMapWithView::new() }
    }

    /// Adds `amount` to an account's free balance; refuses when the account
    /// could not hold it.
    pub fn deposit(&mut self, account: u64, amount: u64) -> (r: Result<(), ()>)
        ensures
            r is Ok <==> old(self).balance_of(account).free + amount <= u64::MAX,
            r is Ok ==> final(self).balance_of(account) == (Balance {
                free: (old(self).balance_of(account).free + amount) as u64,
                reserved: old(self).balance_of(account).reserved,
            }),
            r is Err ==> *final(self) == *old(self),
            forall|a: u64| a != account ==> final(self).balance_of(a) == old(self).balance_of(a),
    {
        let entry = self.get_balance(account);
        if amount <= u64::MAX - entry.free {
            let updated = Balance { free: entry.free + amount, reserved: entry.reserved };
            self.balances.insert(account, updated);
            Ok(())
        } else {
            Err(())
        }
    }

    /// Moves `amount` from an account's free balance to its reserved balance;
    /// refuses when the free balance is short or the reserve would not fit.
    pub fn reserve_balance(&mut self, account: u64, amount: u64) -> (r: Result<(), ()>)
        ensures
            r is Ok <==> (old(self).balance_of(account).free >= amount && old(self).balance_of(
                account,
            ).reserved + amount <= u64::MAX),
            r is Ok ==> final(self).balance_of(account) == (Balance {
                free: (old(self).balance_of(account).free - amount) as u64,
                reserved: (old(self).balance_of(account).reserved + amount) as u64,
            }),
            r is Err ==> *final(self) == *old(self),
            forall|a: u64| a != account ==> final(self).balance_of(a) == old(self).balance_of(a),
    {
        let entry = self.get_balance(account);
        if entry.free >= amount && amount <= u64::MAX - entry.reserved {
            let updated = Balance {
                free: entry.free - amount,
                reserved: entry.reserved + amount,
            };
            self.balances.insert(account, updated);
            Ok(())
        } else {
            Err(())
        }
    }

    /// How much of a requested release an account actually takes back: the
    /// reserved balance at most, capped so the free balance can hold it.
    pub open spec fn released_amount(b: Balance, amount: u64) -> u64 {
        let available = if b.reserved < amount {
            b.reserved
        } else {
            amount
        };
        if available > u64::MAX - b.free {
            (u64::MAX - b.free) as u64
        } else {
            available
        }
    }

    /// Moves reserved balance back to free use: `amount` of it, or however
    /// much of that the account can take back.
    pub fn release_balance(&mut self, account: u64, amount: u64)
        ensures
            final(self).balance_of(account) == ({
                let b = old(self).balance_of(account);
                let moved = Self::released_amount(b, amount);
                Balance { free: (b.free + moved) as u64, reserved: (b.reserved - moved) as u64 }
            }),
            forall|a: u64| a != account ==> final(self).balance_of(a) == old(self).balance_of(a),
    {
        let entry = self.get_balance(account);
        let available = if entry.reserved < amount {
            entry.reserved
        } else {
            amount
        };
        let moved = if available > u64::MAX - entry.free {
            u64::MAX - entry.free
        } else {
            available
        };
        let updated = Balance {
            free: entry.free + moved,
            reserved: entry.reserved - moved,
        };
        self.balances.insert(account, updated);
    }

    /// Reads an account's balance.
    pub fn get_balance(&self, account: u64) -> (r: Balance)
        ensures
            r == self.balance_of(account),
    {
        match self.balances.get(&account) {
            Some(b) => *b,
            None => Balance { free: 0, reserved: 0 },
        }
    }
}

impl CollateralLedger for BasicLedger {
    open spec fn free_balance(self, account: u64) -> u64 {
        self.balance_of(account).free
    }

    open spec fn reserved_balance(self, account: u64) -> u64 {
        self.balance_of(account).reserved
    }

    open spec fn consents(self, account: u64, amount: u64) -> bool {
        self.balance_of(account).free >= amount && self.balance_of(account).reserved + amount
            <= u64::MAX
    }

    fn reserve(&mut self, account: u64, amount: u64) -> (r: Result<(), ()>) {
        self.reserve_balance(account, amount)
    }

    fn release(&mut self, account: u64, amount: u64) {
        self.release_balance(account, amount)
    }
}

} // verus!
