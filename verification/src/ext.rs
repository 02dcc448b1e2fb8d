//! Transfers to outside parties. A transfer is asked for in one step and its
//! result is taken in another, which the ledger triggers when it knows how the
//! transfer went.

use vstd::prelude::*;
use crate::state::{Dwork, DworkView, PendingTransfer, PendingTransferView, carried_out};
use crate::table::{Record, Table, with_member, without};
use crate::types::{AccountId, Balance, CallContext, CallContextView, Error, TaskId};

verus! {

/// How an outside transfer went.
#[derive(Clone, Copy, Debug, PartialEq, Eq, Structural)]
pub enum TransferOutcome {
    Successful,
    Failed,
}

/// What the marketplace offers to the ledger: the entry point by which the
/// result of a transfer comes back.
pub trait ExtDupwork {
    /// Takes the result of the transfer of `amount_to_transfer` to
    /// `beneficiary_id` for `task_id`. Tells whether the transfer was
    /// completed by this call.
    fn on_transferd(
        &mut self,
        ctx: &CallContext,
        task_id: String,
        beneficiary_id: AccountId,
        amount_to_transfer: Balance,
        outcome: TransferOutcome,
    ) -> Result<bool, Error>;
}

impl DworkView {
    /// The rule of `initiate_transfer`. The beneficiary has an account, no
    /// equal transfer is awaited, and the free balance covers the amount. The
    /// amount then leaves the free balance and the transfer is awaited.
    pub open spec fn initiate_transfer(self, task_id: Seq<char>, beneficiary_id: Seq<char>, amount: Balance) -> Result<
        DworkView,
        Error,
    > {
        let transfer = PendingTransferView { task_id, beneficiary_id, amount };
        if !self.accounts.contains_key(beneficiary_id) {
            Err(Error::NotFound)
        } else if self.pending_transfers.contains(transfer) {
            Err(Error::StateConflict)
        } else if amount > self.accounts[beneficiary_id].balance {
            Err(Error::Validation)
        } else {
            Ok(
                DworkView {
                    accounts: self.accounts.insert(
                        beneficiary_id,
                        self.accounts[beneficiary_id].debit(amount),
                    ),
                    pending_transfers: with_member(self.pending_transfers, transfer),
                    ..self
                },
            )
        }
    }

    /// The rule of `on_transferd`. Only the marketplace itself delivers the
    /// result of a transfer. A failed transfer changes nothing and stays
    /// awaited. The result of a transfer that is not awaited is ignored. A
    /// successful transfer that is awaited is completed: it is awaited no
    /// longer, the beneficiary has earned the amount, and the task is among
    /// the beneficiary's completed jobs.
    pub open spec fn on_transferd(
        self,
        ctx: CallContextView,
        task_id: Seq<char>,
        beneficiary_id: Seq<char>,
        amount: Balance,
        outcome: TransferOutcome,
    ) -> Result<DworkView, Error> {
        let transfer = PendingTransferView { task_id, beneficiary_id, amount };
        if ctx.predecessor_account_id != ctx.current_account_id {
            Err(Error::Authorization)
        } else if outcome is Failed {
            Err(Error::TransferFailure)
        } else if !self.pending_transfers.contains(transfer) {
            Ok(self)
        } else if !self.accounts.contains_key(beneficiary_id) {
            Err(Error::NotFound)
        } else if self.accounts[beneficiary_id].total_earn + amount > u128::MAX {
            Err(Error::Validation)
        } else {
            Ok(
                DworkView {
                    accounts: self.accounts.insert(
                        beneficiary_id,
                        self.accounts[beneficiary_id].earn(amount).finish(task_id),
                    ),
                    pending_transfers: without(self.pending_transfers, transfer),
                    ..self
                },
            )
        }
    }
}

impl Dwork {
    /// Asks for the transfer of `amount` from the free balance of
    /// `beneficiary_id` to the outside, on account of `task_id`. What it
    /// returns names the transfer when its result comes back.
    pub fn initiate_transfer(&mut self, task_id: TaskId, beneficiary_id: AccountId, amount: Balance) -> (r: Result<
        PendingTransfer,
        Error,
    >)
        ensures
            carried_out(
                old(self)@.initiate_transfer(task_id@, beneficiary_id@, amount),
                old(self)@,
                final(self)@,
                r,
            ),
            r matches Ok(t) ==> t@ == (PendingTransferView {
                task_id: task_id@,
                beneficiary_id: beneficiary_id@,
                amount,
            }),
    {
        let bi = match self.accounts.index_of(&beneficiary_id) {
            Some(i) => i,
            None => return Err(Error::NotFound),
        };
        let transfer = PendingTransfer { task_id, beneficiary_id, amount };
        if self.pending_transfers.contains(&transfer) {
            return Err(Error::StateConflict);
        }
        if amount > self.accounts.entries[bi].value.balance {
            return Err(Error::Validation);
        }
        let ghost accounts_before = self.accounts;
        self.accounts.entries[bi].value.debit(amount);
        self.pending_transfers.insert(transfer.duplicate());
        proof {
            Table::lemma_changed_at(accounts_before, self.accounts, bi as int);
        }
        Ok(transfer)
    }

    /// Takes the result of the transfer of `amount_to_transfer` to
    /// `beneficiary_id` for `task_id`. Tells whether the transfer was
    /// completed by this call.
    pub fn on_transferd(
        &mut self,
        ctx: &CallContext,
        task_id: String,
        beneficiary_id: AccountId,
        amount_to_transfer: Balance,
        outcome: TransferOutcome,
    ) -> (r: Result<bool, Error>)
        ensures
            carried_out(
                old(self)@.on_transferd(ctx@, task_id@, beneficiary_id@, amount_to_transfer, outcome),
                old(self)@,
                final(self)@,
                r,
            ),
            r matches Ok(completed) ==> completed == old(self)@.pending_transfers.contains(
                PendingTransferView {
                    task_id: task_id@,
                    beneficiary_id: beneficiary_id@,
                    amount: amount_to_transfer,
                },
            ),
    {
        if !(ctx.predecessor_account_id == ctx.current_account_id) {
            return Err(Error::Authorization);
        }
        match outcome {
            TransferOutcome::Failed => return Err(Error::TransferFailure),
            TransferOutcome::Successful => {},
        }
        let transfer = PendingTransfer { task_id, beneficiary_id, amount: amount_to_transfer };
        if !self.pending_transfers.contains(&transfer) {
            return Ok(false);
        }
        let bi = match self.accounts.index_of(&transfer.beneficiary_id) {
            Some(i) => i,
            None => return Err(Error::NotFound),
        };
        if self.accounts.entries[bi].value.total_earn > u128::MAX - amount_to_transfer {
            return Err(Error::Validation);
        }
        let ghost accounts_before = self.accounts;
        self.accounts.entries[bi].value.earn(amount_to_transfer);
        self.accounts.entries[bi].value.finish(&transfer.task_id);
        self.pending_transfers.remove(&transfer);
        proof {
            Table::lemma_changed_at(accounts_before, self.accounts, bi as int);
        }
        Ok(true)
    }
}

impl ExtDupwork for Dwork {
    fn on_transferd(
        &mut self,
        ctx: &CallContext,
        task_id: String,
        beneficiary_id: AccountId,
        amount_to_transfer: Balance,
        outcome: TransferOutcome,
    ) -> (r: Result<bool, Error>)
        ensures
            carried_out(
                old(self)@.on_transferd(ctx@, task_id@, beneficiary_id@, amount_to_transfer, outcome),
                old(self)@,
                final(self)@,
                r,
            ),
            r matches Ok(completed) ==> completed == old(self)@.pending_transfers.contains(
                PendingTransferView {
                    task_id: task_id@,
                    beneficiary_id: beneficiary_id@,
                    amount: amount_to_transfer,
                },
            ),
    {
        Dwork::on_transferd(self, ctx, task_id, beneficiary_id, amount_to_transfer, outcome)
    }
}

} // verus!
