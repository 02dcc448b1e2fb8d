//! What a worker does: submit work, dispute a rejection, claim the pay.

use vstd::prelude::*;
use crate::proposal::{
    Proposal, ProposalId, ProposalIdView, ProposalStatus, ProposalStatusView, ProposalView, late,
};
use crate::report::{Report, ReportId, ReportIdView, ReportStatus, ReportView};
use crate::state::{Dwork, DworkView, carried_out};
use crate::table::{Record, Table, with_member};
use crate::task::TaskView;
use crate::types::{Balance, CallContext, CallContextView, Error, TaskId};

verus! {

impl DworkView {
    /// The rule of `submit_work`. The caller attaches the submission bond. The
    /// task exists, is not settled, still takes submissions and lists fewer
    /// proposals than a task can have. It has no proposal of the caller yet
    /// and has room for another approval, and the caller has an account. A
    /// pending proposal is then recorded at the end of the task's list, and
    /// the caller has one more current job.
    pub open spec fn submit_work(self, ctx: CallContextView, task_id: Seq<char>, proof_of_work: Seq<char>) -> Result<
        DworkView,
        Error,
    > {
        let worker_id = ctx.predecessor_account_id;
        let id = ProposalIdView { task_id, account_id: worker_id };
        if ctx.attached_deposit != self.app_config.submit_bond {
            Err(Error::Validation)
        } else if !self.tasks.contains_key(task_id) {
            Err(Error::NotFound)
        } else {
            let task = self.tasks[task_id];
            if task.completed {
                Err(Error::StateConflict)
            } else if ctx.block_timestamp >= task.submit_available_until {
                Err(Error::Timing)
            } else if task.proposals.len() >= self.app_config.maximum_proposals_at_one_time {
                Err(Error::Validation)
            } else if self.proposals.contains_key(id) || self.approved_count(task.proposals)
                >= task.max_participants {
                Err(Error::StateConflict)
            } else if !self.accounts.contains_key(worker_id) {
                Err(Error::NotFound)
            } else {
                Ok(
                    DworkView {
                        accounts: self.accounts.insert(worker_id, self.accounts[worker_id].join(task_id)),
                        proposals: self.proposals.insert(
                            id,
                            ProposalView {
                                account_id: worker_id,
                                submit_time: ctx.block_timestamp,
                                proof_of_work,
                                status: ProposalStatusView::Pending,
                            },
                        ),
                        tasks: self.tasks.insert(
                            task_id,
                            TaskView { proposals: task.proposals.push(id), ..task },
                        ),
                        ..self
                    },
                )
            }
        }
    }

    /// The rule of `report_rejection`. The caller's proposal for the task
    /// exists and is listed by the task. It stands rejected, for another
    /// reason than being late, with no report against it yet, on a task that
    /// is not settled. The time to report, counted from the rejection, has not
    /// run out. A pending report is then recorded and attached to the
    /// proposal.
    pub open spec fn report_rejection(self, ctx: CallContextView, task_id: Seq<char>, report: Seq<char>) -> Result<
        DworkView,
        Error,
    > {
        let worker_id = ctx.predecessor_account_id;
        let id = ProposalIdView { task_id, account_id: worker_id };
        let report_id = ReportIdView { account_id: worker_id, task_id };
        if !self.tasks.contains_key(task_id) || !self.tasks[task_id].proposals.contains(id)
            || !self.proposals.contains_key(id) {
            Err(Error::NotFound)
        } else {
            match self.proposals[id].status {
                ProposalStatusView::Rejected { reason, reject_at, report_id: filed } => {
                    if self.tasks[task_id].completed || reason == late() || filed is Some {
                        Err(Error::StateConflict)
                    } else if ctx.block_timestamp > reject_at + self.app_config.report_interval {
                        Err(Error::Timing)
                    } else {
                        Ok(
                            DworkView {
                                reports: self.reports.insert(
                                    report_id,
                                    ReportView {
                                        report_id,
                                        account_id: worker_id,
                                        task_id,
                                        report,
                                        status: ReportStatus::Pending,
                                    },
                                ),
                                report_order: with_member(self.report_order, report_id),
                                proposals: self.proposals.insert(
                                    id,
                                    ProposalView {
                                        status: ProposalStatusView::Rejected {
                                            reason,
                                            reject_at,
                                            report_id: Some(report_id),
                                        },
                                        ..self.proposals[id]
                                    },
                                ),
                                ..self
                            },
                        )
                    }
                },
                _ => Err(Error::StateConflict),
            }
        }
    }

    /// The rule of `claim`: the caller's locked balance for the task must
    /// exist and its release time must lie before now; then the amount moves to
    /// the caller's free balance, the locked entry goes, and the caller gains a
    /// small reputation bonus.
    pub open spec fn claim(self, ctx: CallContextView, task_id: Seq<char>) -> Result<DworkView, Error> {
        let worker_id = ctx.predecessor_account_id;
        if !self.accounts.contains_key(worker_id) {
            Err(Error::NotFound)
        } else if !self.accounts[worker_id].locked_balance.contains_key(task_id) {
            Err(Error::NotFound)
        } else {
            let worker = self.accounts[worker_id];
            let locked = worker.locked_balance[task_id];
            if !(locked.release_at < ctx.block_timestamp) {
                Err(Error::StillLocked)
            } else if !worker.pos_fits(self.app_config.sml_plus as u32) || !worker.credit_fits(
                locked.amount,
            ) {
                Err(Error::Validation)
            } else {
                Ok(
                    DworkView {
                        accounts: self.accounts.insert(
                            worker_id,
                            worker.add_pos_point(self.app_config.sml_plus as u32).unlock(
                                task_id,
                            ).credit(locked.amount),
                        ),
                        ..self
                    },
                )
            }
        }
    }
}

impl Dwork {
    /// Submits the caller's work on `task_id`.
    pub fn submit_work(&mut self, ctx: &CallContext, task_id: TaskId, proof_of_work: String) -> (r: Result<
        (),
        Error,
    >)
        ensures
            carried_out(
                old(self)@.submit_work(ctx@, task_id@, proof_of_work@),
                old(self)@,
                final(self)@,
                r,
            ),
    {
        if ctx.attached_deposit != self.app_config.submit_bond {
            return Err(Error::Validation);
        }
        let ti = match self.task_records.index_of(&task_id) {
            Some(i) => i,
            None => return Err(Error::NotFound),
        };
        let task = &self.task_records.entries[ti].value;
        let now = ctx.block_timestamp;
        if task.completed {
            return Err(Error::StateConflict);
        }
        if now >= task.submit_available_until {
            return Err(Error::Timing);
        }
        if task.proposals.len() >= self.app_config.maximum_proposals_at_one_time as usize {
            return Err(Error::Validation);
        }
        let id = ProposalId {
            task_id: task_id.clone(),
            account_id: ctx.predecessor_account_id.clone(),
        };
        if self.proposals.contains_key(&id) {
            return Err(Error::StateConflict);
        }
        if self.count_approved(&task.proposals) >= task.max_participants as usize {
            return Err(Error::StateConflict);
        }
        let wi = match self.accounts.index_of(&ctx.predecessor_account_id) {
            Some(i) => i,
            None => return Err(Error::NotFound),
        };
        let proposal = Proposal {
            account_id: ctx.predecessor_account_id.clone(),
            submit_time: now,
            proof_of_work,
            status: ProposalStatus::Pending,
        };
        let ghost accounts_before = self.accounts;
        let ghost tasks_before = self.task_records;
        self.accounts.entries[wi].value.join(task_id);
        self.proposals.insert(id.duplicate(), proposal);
        self.task_records.entries[ti].value.proposals.push(id);
        proof {
            assert(self.task_records.entries[ti as int].value@.proposals
                =~= tasks_before.entries[ti as int].value@.proposals.push(id@));
            Table::lemma_changed_at(accounts_before, self.accounts, wi as int);
            Table::lemma_changed_at(tasks_before, self.task_records, ti as int);
        }
        Ok(())
    }

    /// Files the caller's report against the rejection of their work on
    /// `task_id`.
    pub fn report_rejection(&mut self, ctx: &CallContext, task_id: TaskId, report: String) -> (r: Result<
        (),
        Error,
    >)
        ensures
            carried_out(
                old(self)@.report_rejection(ctx@, task_id@, report@),
                old(self)@,
                final(self)@,
                r,
            ),
    {
        let ti = match self.task_records.index_of(&task_id) {
            Some(i) => i,
            None => return Err(Error::NotFound),
        };
        let id = ProposalId {
            task_id: task_id.clone(),
            account_id: ctx.predecessor_account_id.clone(),
        };
        if !Dwork::lists(&self.task_records.entries[ti].value.proposals, &id) {
            return Err(Error::NotFound);
        }
        let pi = match self.proposals.index_of(&id) {
            Some(i) => i,
            None => return Err(Error::NotFound),
        };
        let (reason, reject_at) = match &self.proposals.entries[pi].value.status {
            ProposalStatus::Rejected { reason, reject_at, report_id: None } => (
                reason.clone(),
                *reject_at,
            ),
            _ => return Err(Error::StateConflict),
        };
        if self.task_records.entries[ti].value.completed || reason == String::from_str("late") {
            return Err(Error::StateConflict);
        }
        if ctx.block_timestamp as u128 > reject_at as u128 + self.app_config.report_interval as u128 {
            return Err(Error::Timing);
        }
        let report_id = ReportId {
            account_id: ctx.predecessor_account_id.clone(),
            task_id: task_id.clone(),
        };
        let record = Report {
            report_id: report_id.duplicate(),
            account_id: ctx.predecessor_account_id.clone(),
            task_id,
            report,
            status: ReportStatus::Pending,
        };
        let ghost proposals_before = self.proposals;
        self.reports.insert(report_id.duplicate(), record);
        self.proposals.entries[pi].value.status = ProposalStatus::Rejected {
            reason,
            reject_at,
            report_id: Some(report_id),
        };
        proof {
            Table::lemma_changed_at(proposals_before, self.proposals, pi as int);
        }
        Ok(())
    }

    /// Releases the caller's pay for `task_id` and returns the amount.
    pub fn claim(&mut self, ctx: &CallContext, task_id: TaskId) -> (r: Result<Balance, Error>)
        ensures
            carried_out(old(self)@.claim(ctx@, task_id@), old(self)@, final(self)@, r),
            r matches Ok(amount) ==> amount == old(self)@.accounts[ctx@.predecessor_account_id].locked_balance[task_id@].amount,
    {
        let i = match self.accounts.index_of(&ctx.predecessor_account_id) {
            Some(i) => i,
            None => return Err(Error::NotFound),
        };
        let locked = match self.accounts.entries[i].value.locked_balance.get(&task_id) {
            Some(l) => *l,
            None => return Err(Error::NotFound),
        };
        if !(locked.release_at < ctx.block_timestamp) {
            return Err(Error::StillLocked);
        }
        let bonus: u32 = self.app_config.sml_plus as u32;
        if self.accounts.entries[i].value.pos_point > u32::MAX - bonus
            || self.accounts.entries[i].value.balance > u128::MAX - locked.amount {
            return Err(Error::Validation);
        }
        let ghost before = self.accounts;
        self.accounts.entries[i].value.add_pos_point(bonus);
        self.accounts.entries[i].value.unlock(&task_id);
        self.accounts.entries[i].value.credit(locked.amount);
        proof {
            Table::lemma_changed_at(before, self.accounts, i as int);
        }
        Ok(locked.amount)
    }
}

} // verus!
