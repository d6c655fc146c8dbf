//! The fungible-token ledger core.
//!
//! One [`Ledger`] value is the whole state of one token: the metadata record,
//! the balance table, the allowance table, and the log of events that
//! successful operations append for external observers. The four operations
//! — [`Ledger::init`], [`Ledger::transfer`], [`Ledger::approve`] and
//! [`Ledger::transfer_from`] — validate every precondition first and commit
//! only afterwards, so a failed operation mutates nothing.
//!
//! The well-formedness predicate [`Ledger::wf`] carries the conservation
//! invariant: after issuance the balances always sum to exactly the declared
//! total supply.

use vstd::prelude::*;

use crate::allowance_store::{alw_distinct, alw_get, alw_lookup, alw_set};
use crate::balance_store::{
    bal_distinct, bal_get, bal_lookup, bal_set, bal_sum, lemma_bal_lookup_le_sum,
    lemma_bal_sum_nonneg, lemma_bal_two_lookups_le_sum,
};

verus! {

/// Why a ledger operation was rejected. A rejected operation leaves the
/// ledger untouched and appends no event.
#[derive(Clone, Copy, Debug, PartialEq, Eq)]
pub enum LedgerError {
    /// Issuance was attempted with a name longer than 64 bytes or a ticker
    /// longer than 32 bytes.
    InvalidMetadata,
    /// Issuance was attempted on a ledger that has already issued its token;
    /// the token metadata is written exactly once.
    AlreadyIssued,
    /// A transfer asked for more than the sender's balance.
    InsufficientBalance,
    /// A delegated transfer asked for more than the spender's allowance.
    InsufficientAllowance,
    /// Checked arithmetic reported that a balance or allowance would leave
    /// the representable range.
    ArithmeticOverflow,
}

/// A record of one successful operation, appended to the ledger's event log
/// in operation order for external observers to drain.
#[derive(Clone, Copy, Debug, PartialEq, Eq)]
pub enum LedgerEvent {
    /// A successful transfer of `value` from `from` to `to`.
    Transfer { from: u64, to: u64, value: u64 },
    /// For `approve`, the granted delta `value`; for a delegated transfer,
    /// the consumed allowance `value`.
    Approval { owner: u64, spender: u64, value: u64 },
}

/// The token metadata record, written exactly once at issuance.
pub struct Erc20Token {
    pub name: Vec<u8>,
    pub ticker: Vec<u8>,
    pub total_supply: u64,
}

/// The combined balance, allowance and metadata state for one token.
pub struct Ledger {
    /// Whether the one permitted issuance has happened.
    pub issued: bool,
    /// The metadata record; meaningful once `issued` is set.
    pub token: Erc20Token,
    /// The balance table: `(account, balance)`, one entry per account.
    pub balances: Vec<(u64, u64)>,
    /// The allowance table: `(owner, spender, amount)`, one entry per pair.
    pub allowances: Vec<(u64, u64, u64)>,
    /// Events appended by successful operations, oldest first.
    pub events: Vec<LedgerEvent>,
}

impl Ledger {
    /// The balance of `account`; an account never written reads as zero.
    pub open spec fn spec_balance_of(&self, account: u64) -> u64 {
        bal_lookup(self.balances@, account)
    }

    /// The amount `spender` may still move out of `owner`'s balance.
    pub open spec fn spec_allowance(&self, owner: u64, spender: u64) -> u64 {
        alw_lookup(self.allowances@, owner, spender)
    }

    /// Well-formedness: the tables hold one entry per key, the metadata obeys
    /// its length bounds, and the balances sum to the declared supply — to
    /// zero while nothing has been issued.
    pub open spec fn wf(&self) -> bool {
        &&& bal_distinct(self.balances@)
        &&& alw_distinct(self.allowances@)
        &&& self.token.name@.len() <= 64
        &&& self.token.ticker@.len() <= 32
        &&& bal_sum(self.balances@) == if self.issued {
            self.token.total_supply as int
        } else {
            0int
        }
    }

    /// Every balance is unchanged between `pre` and `post`.
    pub open spec fn balances_unchanged(pre: Ledger, post: Ledger) -> bool {
        forall|a: u64| post.spec_balance_of(a) == pre.spec_balance_of(a)
    }

    /// Every allowance is unchanged between `pre` and `post`.
    pub open spec fn allowances_unchanged(pre: Ledger, post: Ledger) -> bool {
        forall|o: u64, p: u64| post.spec_allowance(o, p) == pre.spec_allowance(o, p)
    }

    /// The issuance flag and metadata record are unchanged.
    pub open spec fn metadata_unchanged(pre: Ledger, post: Ledger) -> bool {
        &&& post.issued == pre.issued
        &&& post.token.name@ == pre.token.name@
        &&& post.token.ticker@ == pre.token.ticker@
        &&& post.token.total_supply == pre.token.total_supply
    }

    /// A transfer of `value` from `from` to `to` can commit: the sender can
    /// cover it, and the receiver's balance as read before any write plus
    /// `value` stays representable. The receiver-side check applies to a
    /// self-transfer too — its net change would be zero, but both checks
    /// still apply independently.
    pub open spec fn can_transfer(&self, from: u64, to: u64, value: u64) -> bool {
        &&& self.spec_balance_of(from) >= value
        &&& self.spec_balance_of(to) + value <= u64::MAX
    }

    /// An approval of `value` more for `(owner, spender)` can commit.
    pub open spec fn can_approve(&self, owner: u64, spender: u64, value: u64) -> bool {
        self.spec_allowance(owner, spender) + value <= u64::MAX
    }

    /// A delegated transfer by `caller` of `value` from `from` to `to` can
    /// commit: the allowance covers it and the underlying transfer can.
    pub open spec fn can_transfer_from(&self, caller: u64, from: u64, to: u64, value: u64) -> bool {
        &&& self.spec_allowance(from, caller) >= value
        &&& self.can_transfer(from, to, value)
    }

    /// A fresh ledger: nothing issued, every balance and allowance zero, no
    /// events.
    pub fn new() -> (l: Ledger)
        ensures
            l.wf(),
            !l.issued,
            l.token.name@.len() == 0,
            l.token.ticker@.len() == 0,
            l.token.total_supply == 0,
            forall|a: u64| l.spec_balance_of(a) == 0,
            forall|o: u64, p: u64| l.spec_allowance(o, p) == 0,
            l.events@.len() == 0,
    {
        let l = Ledger {
            issued: false,
            token: Erc20Token { name: Vec::new(), ticker: Vec::new(), total_supply: 0 },
            balances: Vec::new(),
            allowances: Vec::new(),
            events: Vec::new(),
        };
        proof {
            assert(forall|a: u64| l.spec_balance_of(a) == 0);
            assert(forall|o: u64, p: u64| l.spec_allowance(o, p) == 0);
        }
        l
    }

    /// The metadata record.
    pub fn token_details(&self) -> (t: &Erc20Token)
        ensures
            t.name@ == self.token.name@,
            t.ticker@ == self.token.ticker@,
            t.total_supply == self.token.total_supply,
    {
        &self.token
    }

    /// The balance of `account`; an account never written reads as zero.
    pub fn balance_of(&self, account: u64) -> (r: u64)
        ensures
            r == self.spec_balance_of(account),
    {
        bal_get(&self.balances, account)
    }

    /// The amount `spender` may still move out of `owner`'s balance.
    pub fn allowance(&self, owner: u64, spender: u64) -> (r: u64)
        ensures
            r == self.spec_allowance(owner, spender),
    {
        alw_get(&self.allowances, owner, spender)
    }

    /// Issue the token: write the metadata record once and credit the entire
    /// supply to the authenticated caller. The metadata length checks and the
    /// once-only check precede every write, so a rejected issuance mutates
    /// nothing. Re-issuance is rejected outright: silently overwriting the
    /// record would let the declared supply drift away from the balances.
    pub fn init(&mut self, caller: u64, name: Vec<u8>, ticker: Vec<u8>, total_supply: u64) -> (r:
        Result<(), LedgerError>)
        requires
            old(self).wf(),
        ensures
            final(self).wf(),
            r is Ok <==> (!old(self).issued && name@.len() <= 64 && ticker@.len() <= 32),
            r == Err::<(), LedgerError>(LedgerError::AlreadyIssued) <==> old(self).issued,
            r == Err::<(), LedgerError>(LedgerError::InvalidMetadata) <==> (!old(self).issued && (
            name@.len() > 64 || ticker@.len() > 32)),
            r is Err ==> *final(self) == *old(self),
            r is Ok ==> {
                &&& final(self).issued
                &&& final(self).token.name@ == name@
                &&& final(self).token.ticker@ == ticker@
                &&& final(self).token.total_supply == total_supply
                &&& final(self).spec_balance_of(caller) == total_supply
                &&& forall|a: u64|
                    a != caller ==> final(self).spec_balance_of(a) == old(self).spec_balance_of(a)
                &&& Ledger::allowances_unchanged(*old(self), *final(self))
                &&& final(self).events@ == old(self).events@
            },
    {
        if self.issued {
            return Err(LedgerError::AlreadyIssued);
        }
        if name.len() > 64 || ticker.len() > 32 {
            return Err(LedgerError::InvalidMetadata);
        }
        proof {
            // On an unissued ledger the balances sum to zero, so the caller's
            // balance is zero and crediting the supply establishes
            // conservation.
            lemma_bal_sum_nonneg(self.balances@);
            lemma_bal_lookup_le_sum(self.balances@, caller);
        }
        self.token = Erc20Token { name, ticker, total_supply };
        bal_set(&mut self.balances, caller, total_supply);
        self.issued = true;
        Ok(())
    }

    /// The shared transfer algorithm: read, check, compute with checked
    /// arithmetic, and only then write both balances and append the event.
    /// The overflow check reads the receiver's balance before any write, so
    /// it applies to a self-transfer as well; on success the credit re-adds
    /// exactly what the debit removed, so a self-transfer commits neutrally.
    fn _transfer(&mut self, from: u64, to: u64, value: u64) -> (r: Result<(), LedgerError>)
        requires
            old(self).wf(),
        ensures
            final(self).wf(),
            Ledger::metadata_unchanged(*old(self), *final(self)),
            Ledger::allowances_unchanged(*old(self), *final(self)),
            r is Ok <==> old(self).can_transfer(from, to, value),
            r == Err::<(), LedgerError>(LedgerError::InsufficientBalance) <==> old(
                self,
            ).spec_balance_of(from) < value,
            r == Err::<(), LedgerError>(LedgerError::ArithmeticOverflow) <==> (old(
                self,
            ).spec_balance_of(from) >= value && old(self).spec_balance_of(to) + value
                > u64::MAX),
            r is Err ==> *final(self) == *old(self),
            r is Ok ==> final(self).events@ == old(self).events@.push(
                LedgerEvent::Transfer { from, to, value },
            ),
            r is Ok && from != to ==> final(self).spec_balance_of(from) == old(
                self,
            ).spec_balance_of(from) - value && final(self).spec_balance_of(to) == old(
                self,
            ).spec_balance_of(to) + value,
            r is Ok && from == to ==> final(self).spec_balance_of(from) == old(
                self,
            ).spec_balance_of(from),
            r is Ok ==> forall|c: u64|
                c != from && c != to ==> final(self).spec_balance_of(c) == old(
                    self,
                ).spec_balance_of(c),
    {
        let sender_balance = bal_get(&self.balances, from);
        if sender_balance < value {
            return Err(LedgerError::InsufficientBalance);
        }
        let updated_from_balance = match sender_balance.checked_sub(value) {
            Some(b) => b,
            None => {
                // Unreachable: the comparison above already excluded
                // underflow, but the checked path stays the authoritative
                // guard and fails closed.
                return Err(LedgerError::ArithmeticOverflow);
            },
        };
        let receiver_balance = bal_get(&self.balances, to);
        let updated_to_balance = match receiver_balance.checked_add(value) {
            Some(b) => {
                if to == from {
                    // The checked addition above still guards the pre-state
                    // balance; the committed credit starts from the already
                    // debited balance, so the debit and credit cancel.
                    updated_from_balance + value
                } else {
                    b
                }
            },
            None => {
                return Err(LedgerError::ArithmeticOverflow);
            },
        };
        bal_set(&mut self.balances, from, updated_from_balance);
        bal_set(&mut self.balances, to, updated_to_balance);
        self.events.push(LedgerEvent::Transfer { from, to, value });
        Ok(())
    }

    /// Transfer `value` from the authenticated caller `from` to `to`.
    /// Succeeds exactly when the sender can cover `value` and the receiver's
    /// balance stays representable; a failed transfer leaves every balance
    /// and the event log untouched.
    pub fn transfer(&mut self, from: u64, to: u64, value: u64) -> (r: Result<(), LedgerError>)
        requires
            old(self).wf(),
        ensures
            final(self).wf(),
            Ledger::metadata_unchanged(*old(self), *final(self)),
            Ledger::allowances_unchanged(*old(self), *final(self)),
            r is Ok <==> old(self).can_transfer(from, to, value),
            r == Err::<(), LedgerError>(LedgerError::InsufficientBalance) <==> old(
                self,
            ).spec_balance_of(from) < value,
            r == Err::<(), LedgerError>(LedgerError::ArithmeticOverflow) <==> (old(
                self,
            ).spec_balance_of(from) >= value && old(self).spec_balance_of(to) + value
                > u64::MAX),
            r is Err ==> *final(self) == *old(self),
            r is Ok ==> final(self).events@ == old(self).events@.push(
                LedgerEvent::Transfer { from, to, value },
            ),
            r is Ok && from != to ==> final(self).spec_balance_of(from) == old(
                self,
            ).spec_balance_of(from) - value && final(self).spec_balance_of(to) == old(
                self,
            ).spec_balance_of(to) + value,
            r is Ok && from == to ==> final(self).spec_balance_of(from) == old(
                self,
            ).spec_balance_of(from),
            r is Ok ==> forall|c: u64|
                c != from && c != to ==> final(self).spec_balance_of(c) == old(
                    self,
                ).spec_balance_of(c),
    {
        self._transfer(from, to, value)
    }

    /// Grant `spender` the right to move `value` more out of `owner`'s
    /// balance. Approvals accumulate: the new allowance is the old one plus
    /// `value`, never an absolute overwrite. Balances are never touched. The
    /// appended event carries the granted delta, not the resulting total.
    pub fn approve(&mut self, owner: u64, spender: u64, value: u64) -> (r: Result<
        (),
        LedgerError,
    >)
        requires
            old(self).wf(),
        ensures
            final(self).wf(),
            Ledger::metadata_unchanged(*old(self), *final(self)),
            Ledger::balances_unchanged(*old(self), *final(self)),
            r is Ok <==> old(self).can_approve(owner, spender, value),
            r is Err ==> r == Err::<(), LedgerError>(LedgerError::ArithmeticOverflow),
            r is Err ==> *final(self) == *old(self),
            r is Ok ==> {
                &&& final(self).spec_allowance(owner, spender) == old(self).spec_allowance(
                    owner,
                    spender,
                ) + value
                &&& forall|o: u64, p: u64|
                    !(o == owner && p == spender) ==> final(self).spec_allowance(o, p) == old(
                        self,
                    ).spec_allowance(o, p)
                &&& final(self).events@ == old(self).events@.push(
                    LedgerEvent::Approval { owner, spender, value },
                )
            },
    {
        let current = alw_get(&self.allowances, owner, spender);
        let updated = match current.checked_add(value) {
            Some(a) => a,
            None => {
                return Err(LedgerError::ArithmeticOverflow);
            },
        };
        alw_set(&mut self.allowances, owner, spender, updated);
        self.events.push(LedgerEvent::Approval { owner, spender, value });
        Ok(())
    }

    /// Delegated transfer: the authenticated `caller` moves `value` from
    /// `from` to `to`, consuming that much of `allowance(from, caller)`.
    /// Every check — allowance, sender balance, receiver overflow — runs
    /// before any write, so the allowance decrement and the two balance
    /// writes commit as one all-or-nothing unit. Events record the consumed
    /// allowance first, then the transfer.
    pub fn transfer_from(&mut self, caller: u64, from: u64, to: u64, value: u64) -> (r: Result<
        (),
        LedgerError,
    >)
        requires
            old(self).wf(),
        ensures
            final(self).wf(),
            Ledger::metadata_unchanged(*old(self), *final(self)),
            r is Ok <==> old(self).can_transfer_from(caller, from, to, value),
            r == Err::<(), LedgerError>(LedgerError::InsufficientAllowance) <==> old(
                self,
            ).spec_allowance(from, caller) < value,
            r == Err::<(), LedgerError>(LedgerError::InsufficientBalance) <==> (old(
                self,
            ).spec_allowance(from, caller) >= value && old(self).spec_balance_of(from) < value),
            r == Err::<(), LedgerError>(LedgerError::ArithmeticOverflow) <==> (old(
            self,
            ).spec_allowance(from, caller) >= value && old(self).spec_balance_of(from) >= value
                && old(self).spec_balance_of(to) + value > u64::MAX),
            r is Err ==> *final(self) == *old(self),
            r is Ok ==> {
                &&& final(self).spec_allowance(from, caller) == old(self).spec_allowance(
                    from,
                    caller,
                ) - value
                &&& forall|o: u64, p: u64|
                    !(o == from && p == caller) ==> final(self).spec_allowance(o, p) == old(
                        self,
                    ).spec_allowance(o, p)
                &&& final(self).events@ == old(self).events@.push(
                    LedgerEvent::Approval { owner: from, spender: caller, value },
                ).push(LedgerEvent::Transfer { from, to, value })
            },
            r is Ok && from != to ==> final(self).spec_balance_of(from) == old(
                self,
            ).spec_balance_of(from) - value && final(self).spec_balance_of(to) == old(
                self,
            ).spec_balance_of(to) + value,
            r is Ok && from == to ==> final(self).spec_balance_of(from) == old(
                self,
            ).spec_balance_of(from),
            r is Ok ==> forall|c: u64|
                c != from && c != to ==> final(self).spec_balance_of(c) == old(
                    self,
                ).spec_balance_of(c),
    {
        let current_allowance = alw_get(&self.allowances, from, caller);
        if current_allowance < value {
            return Err(LedgerError::InsufficientAllowance);
        }
        let updated_allowance = match current_allowance.checked_sub(value) {
            Some(a) => a,
            None => {
                // Unreachable: the comparison above already excluded
                // underflow; the checked path fails closed.
                return Err(LedgerError::ArithmeticOverflow);
            },
        };
        // Check the balance side before any store is written, so that a
        // transfer failure leaves the allowance untouched as well.
        let sender_balance = bal_get(&self.balances, from);
        if sender_balance < value {
            return Err(LedgerError::InsufficientBalance);
        }
        let receiver_balance = bal_get(&self.balances, to);
        if receiver_balance.checked_add(value).is_none() {
            return Err(LedgerError::ArithmeticOverflow);
        }
        // Every check has passed: commit the allowance, the event recording
        // its consumption, and the transfer.
        alw_set(&mut self.allowances, from, caller, updated_allowance);
        self.events.push(LedgerEvent::Approval { owner: from, spender: caller, value });
        let transferred = self._transfer(from, to, value);
        match transferred {
            Ok(()) => Ok(()),
            Err(e) => {
                proof {
                    // The pre-checks established `can_transfer`, and neither
                    // the allowance write nor the event touched a balance.
                    assert(false);
                }
                Err(e)
            },
        }
    }
}

/// Conservation of supply: on a well-formed issued ledger the balances sum to
/// exactly the declared total supply. Every operation's contract re-
/// establishes `wf` and preserves the metadata record, so along any sequence
/// of operations — successful or rejected — starting from one issuance of
/// supply `S`, the balances always sum to `S`.
pub proof fn lemma_conservation(l: Ledger)
    requires
        l.wf(),
        l.issued,
    ensures
        bal_sum(l.balances@) == l.token.total_supply as int,
{
}

/// Non-negativity: every balance and every allowance a ledger can report is
/// non-negative, whatever was stored; both are unsigned values.
pub proof fn lemma_non_negative(l: Ledger, account: u64, owner: u64, spender: u64)
    ensures
        l.spec_balance_of(account) >= 0,
        l.spec_allowance(owner, spender) >= 0,
{
}

/// Allowance additivity: two consecutive successful approvals for the same
/// pair grant the sum of their deltas on top of the starting allowance —
/// the second does not replace the first. The two hypotheses are exactly
/// what [`Ledger::approve`]'s contract gives for its `Ok` results.
pub proof fn lemma_approve_additive(
    l0: Ledger,
    l1: Ledger,
    l2: Ledger,
    owner: u64,
    spender: u64,
    v1: u64,
    v2: u64,
)
    requires
        l1.spec_allowance(owner, spender) == l0.spec_allowance(owner, spender) + v1,
        l2.spec_allowance(owner, spender) == l1.spec_allowance(owner, spender) + v2,
    ensures
        l2.spec_allowance(owner, spender) == l0.spec_allowance(owner, spender) + v1 + v2,
{
}

/// On a well-formed ledger a transfer between two different accounts can
/// never hit the overflow guard: once the sender can cover `value`, the
/// receiver's new balance fits, because two distinct balances never exceed
/// the conserved sum. The one reachable overflow of the transfer path is a
/// self-transfer whose balance plus `value` exceeds the representable
/// range, which the guard rejects against the pre-state balance.
pub proof fn lemma_transfer_never_overflows(l: Ledger, from: u64, to: u64, value: u64)
    requires
        l.wf(),
        from != to,
        l.spec_balance_of(from) >= value,
    ensures
        l.can_transfer(from, to, value),
{
    lemma_bal_two_lookups_le_sum(l.balances@, from, to);
}

} // verus!
