//! The per-wallet ledger: an append-only, strictly ordered transfer history
//! with a derived balance.
//!
//! Entries are appended and never edited or removed. Debits are gapless:
//! the debit at position `i` carries counter `i`, so the next expected debit
//! counter is the number of debits recorded. The balance is the sum of
//! credit amounts minus the sum of debit amounts and never goes negative.

use crate::bytes_eq;
use crate::clone_bytes;
use crate::types::{Error, Transfer, TransferId, TransferIdV, TransferV};
use vstd::prelude::*;

verus! {

/// The sum of the amounts of a sequence of transfers.
pub open spec fn sum_amounts(ts: Seq<TransferV>) -> int
    decreases ts.len(),
{
    if ts.len() == 0 {
        0
    } else {
        sum_amounts(ts.drop_last()) + ts.last().amount
    }
}

pub proof fn lemma_sum_push(ts: Seq<TransferV>, t: TransferV)
    ensures
        sum_amounts(ts.push(t)) == sum_amounts(ts) + t.amount,
{
    assert(ts.push(t).drop_last() =~= ts);
    assert(ts.push(t).last() == t);
}

pub ghost struct WalletV {
    pub id: Seq<u8>,
    pub credits: Seq<TransferV>,
    pub debits: Seq<TransferV>,
}

/// Derived balance: sum of credits minus sum of debits.
pub open spec fn wallet_balance(w: WalletV) -> int {
    sum_amounts(w.credits) - sum_amounts(w.debits)
}

/// Well-formedness of a ledger: every credit is addressed to this wallet,
/// the debits are this wallet's and gapless (the debit at position `i`
/// carries counter `i`), and the balance is a representable, non-negative
/// amount.
pub open spec fn wallet_wf(w: WalletV) -> bool {
    &&& forall|i: int| 0 <= i < w.credits.len() ==> (#[trigger] w.credits[i]).to == w.id
    &&& forall|i: int|
        0 <= i < w.debits.len() ==> (#[trigger] w.debits[i]).id.actor == w.id
            && w.debits[i].id.counter == i
    &&& 0 <= wallet_balance(w) <= u64::MAX
}

/// Whether the ledger holds an entry (credit or debit) with this transfer
/// id; the membership test behind credit idempotency.
pub open spec fn wallet_contains(w: WalletV, id: TransferIdV) -> bool {
    (exists|i: int| 0 <= i < w.credits.len() && (#[trigger] w.credits[i]).id == id) || (exists|
        i: int,
    | 0 <= i < w.debits.len() && (#[trigger] w.debits[i]).id == id)
}

/// A credit may be appended when it is addressed to this wallet and the new
/// balance still fits in a 64-bit amount.
pub open spec fn credit_ok(w: WalletV, t: TransferV) -> bool {
    t.to == w.id && wallet_balance(w) + t.amount <= u64::MAX
}

/// A debit may be appended when it is this wallet's, continues the gapless
/// debit sequence exactly, and is covered by the balance.
pub open spec fn debit_ok(w: WalletV, t: TransferV) -> bool {
    t.id.actor == w.id && t.id.counter == w.debits.len() && t.amount <= wallet_balance(w)
}

pub open spec fn with_credit(w: WalletV, t: TransferV) -> WalletV {
    WalletV { credits: w.credits.push(t), ..w }
}

pub open spec fn with_debit(w: WalletV, t: TransferV) -> WalletV {
    WalletV { debits: w.debits.push(t), ..w }
}

pub proof fn lemma_credit_preserves_wf(w: WalletV, t: TransferV)
    requires
        wallet_wf(w),
        credit_ok(w, t),
    ensures
        wallet_wf(with_credit(w, t)),
        wallet_balance(with_credit(w, t)) == wallet_balance(w) + t.amount,
{
    lemma_sum_push(w.credits, t);
}

pub proof fn lemma_debit_preserves_wf(w: WalletV, t: TransferV)
    requires
        wallet_wf(w),
        debit_ok(w, t),
    ensures
        wallet_wf(with_debit(w, t)),
        wallet_balance(with_debit(w, t)) == wallet_balance(w) - t.amount,
{
    lemma_sum_push(w.debits, t);
}

/// The views of a sequence of transfers.
pub open spec fn transfer_views(ts: Seq<Transfer>) -> Seq<TransferV> {
    ts.map_values(|t: Transfer| t@)
}

pub proof fn lemma_transfer_views_push(ts: Seq<Transfer>, t: Transfer)
    ensures
        transfer_views(ts.push(t)) == transfer_views(ts).push(t@),
{
    assert(transfer_views(ts.push(t)) =~= transfer_views(ts).push(t@));
}

/// A wallet's ledger. The balance is kept alongside the history and always
/// equals the derived balance.
pub struct Wallet {
    id: Vec<u8>,
    credits: Vec<Transfer>,
    debits: Vec<Transfer>,
    balance: u64,
}

impl View for Wallet {
    type V = WalletV;

    closed spec fn view(&self) -> WalletV {
        WalletV {
            id: self.id@,
            credits: transfer_views(self.credits@),
            debits: transfer_views(self.debits@),
        }
    }
}

impl Wallet {
    /// The ledger is well formed and its kept balance is the derived one.
    pub closed spec fn wf(&self) -> bool {
        wallet_wf(self@) && self.balance as int == wallet_balance(self@)
    }

    /// An empty ledger for `id`: no history, balance zero.
    pub fn new(id: Vec<u8>) -> (r: Wallet)
        ensures
            r.wf(),
            r@ == (WalletV { id: id@, credits: Seq::<TransferV>::empty(), debits: Seq::<
                TransferV,
            >::empty() }),
    {
        let r = Wallet { id, credits: Vec::new(), debits: Vec::new(), balance: 0 };
        assert(transfer_views(Seq::<Transfer>::empty()) =~= Seq::<TransferV>::empty());
        r
    }

    /// The wallet's identity.
    pub fn id(&self) -> (r: &Vec<u8>)
        ensures
            r@ == self@.id,
    {
        &self.id
    }

    /// The derived balance.
    pub fn balance(&self) -> (r: u64)
        requires
            self.wf(),
        ensures
            r as int == wallet_balance(self@),
    {
        self.balance
    }

    /// Whether a candidate debit's counter exactly continues this ledger's
    /// own debit sequence.
    pub fn is_sequential(&self, t: &Transfer) -> (r: bool)
        requires
            self.wf(),
        ensures
            r == (t@.id.counter == self@.debits.len()),
    {
        t.id.counter == self.debits.len() as u64
    }

    /// Whether the ledger holds an entry with this transfer id.
    pub fn contains(&self, id: &TransferId) -> (r: bool)
        ensures
            r == wallet_contains(self@, id@),
    {
        let n = self.credits.len();
        let mut i: usize = 0;
        while i < n
            invariant
                n == self.credits@.len(),
                0 <= i <= n,
                forall|j: int| 0 <= j < i ==> (#[trigger] self@.credits[j]).id != id@,
            decreases n - i,
        {
            let c = &self.credits[i];
            if c.id.counter == id.counter && bytes_eq(&c.id.actor, &id.actor) {
                assert(self@.credits[i as int].id == id@);
                return true;
            }
            i += 1;
        }
        let m = self.debits.len();
        let mut k: usize = 0;
        while k < m
            invariant
                m == self.debits@.len(),
                0 <= k <= m,
                forall|j: int| 0 <= j < k ==> (#[trigger] self@.debits[j]).id != id@,
            decreases m - k,
        {
            let d = &self.debits[k];
            if d.id.counter == id.counter && bytes_eq(&d.id.actor, &id.actor) {
                assert(self@.debits[k as int].id == id@);
                return true;
            }
            k += 1;
        }
        false
    }

    /// The credits recorded at or after `index`, in order.
    pub fn credits_since(&self, index: usize) -> (r: Vec<Transfer>)
        ensures
            transfer_views(r@) == (if index < self@.credits.len() {
                self@.credits.subrange(index as int, self@.credits.len() as int)
            } else {
                Seq::<TransferV>::empty()
            }),
    {
        slice_since(&self.credits, index)
    }

    /// The debits recorded at or after `index`, in order.
    pub fn debits_since(&self, index: usize) -> (r: Vec<Transfer>)
        ensures
            transfer_views(r@) == (if index < self@.debits.len() {
                self@.debits.subrange(index as int, self@.debits.len() as int)
            } else {
                Seq::<TransferV>::empty()
            }),
    {
        slice_since(&self.debits, index)
    }

    /// Appends a credit addressed to this wallet. Fails, leaving the ledger
    /// unchanged, when the entry is not this wallet's credit or the balance
    /// would no longer be representable.
    pub fn append_credit(&mut self, t: Transfer) -> (r: Result<(), Error>)
        requires
            old(self).wf(),
        ensures
            final(self).wf(),
            credit_ok(old(self)@, t@) ==> r is Ok && final(self)@ == with_credit(old(self)@, t@),
            !credit_ok(old(self)@, t@) ==> r is Err && final(self)@ == old(self)@,
    {
        if !bytes_eq(&t.to, &self.id) {
            return Err(Error::InvalidOperation);
        }
        match self.balance.checked_add(t.amount) {
            None => Err(Error::InvalidOperation),
            Some(nb) => {
                proof {
                    lemma_credit_preserves_wf(self@, t@);
                }
                self.balance = nb;
                let ghost prior = self.credits@;
                self.credits.push(t);
                proof {
                    lemma_transfer_views_push(prior, t);
                }
                Ok(())
            },
        }
    }

    /// Appends a debit of this wallet. Fails, leaving the ledger unchanged,
    /// when the entry is not this wallet's, does not continue the debit
    /// sequence, or exceeds the balance.
    pub fn append_debit(&mut self, t: Transfer) -> (r: Result<(), Error>)
        requires
            old(self).wf(),
        ensures
            final(self).wf(),
            debit_ok(old(self)@, t@) ==> r is Ok && final(self)@ == with_debit(old(self)@, t@),
            !debit_ok(old(self)@, t@) ==> r is Err && final(self)@ == old(self)@,
    {
        if !bytes_eq(&t.id.actor, &self.id) {
            return Err(Error::InvalidOperation);
        }
        if t.id.counter != self.debits.len() as u64 {
            return Err(Error::InvalidOperation);
        }
        if t.amount > self.balance {
            return Err(Error::InvalidOperation);
        }
        proof {
            lemma_debit_preserves_wf(self@, t@);
        }
        self.balance = self.balance - t.amount;
        let ghost prior = self.debits@;
        self.debits.push(t);
        proof {
            lemma_transfer_views_push(prior, t);
        }
        Ok(())
    }
}

/// The entries of `ts` at or after `index`, as owned copies.
fn slice_since(ts: &Vec<Transfer>, index: usize) -> (r: Vec<Transfer>)
    ensures
        transfer_views(r@) == (if index < transfer_views(ts@).len() {
            transfer_views(ts@).subrange(index as int, transfer_views(ts@).len() as int)
        } else {
            Seq::<TransferV>::empty()
        }),
{
    let mut r: Vec<Transfer> = Vec::new();
    if index >= ts.len() {
        assert(transfer_views(r@) =~= Seq::<TransferV>::empty());
        return r;
    }
    let n = ts.len();
    let mut i: usize = index;
    while i < n
        invariant
            index <= i <= n,
            n == ts@.len(),
            transfer_views(r@) =~= transfer_views(ts@).subrange(index as int, i as int),
        decreases n - i,
    {
        let ghost prior = r@;
        r.push(ts[i].clone());
        proof {
            lemma_transfer_views_push(prior, r@.last());
            assert(transfer_views(r@) =~= transfer_views(ts@).subrange(index as int, i + 1 as int));
        }
        i += 1;
    }
    r
}

} // verus!
