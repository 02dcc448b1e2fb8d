//! Every call to the marketplace as a value, and the conditions that describe
//! a marketplace in good order and a step from one state to the next.

use vstd::prelude::*;
use crate::admin::RunningState;
use crate::ext::TransferOutcome;
use crate::proposal::{ProposalIdView, ProposalStatusView, ProposalView, late};
use crate::report::{ReportIdView, ReportView};
use crate::state::DworkView;
use crate::types::{Balance, CallContextView, Duration, Error, Timestamp};

verus! {

/// One call to the marketplace that may change it.
pub ghost enum Operation {
    NewTask {
        title: Seq<char>,
        description: Seq<char>,
        price: Balance,
        max_participants: u16,
        duration: Duration,
        category_id: Seq<char>,
    },
    SubmitWork { task_id: Seq<char>, proof_of_work: Seq<char> },
    ApproveWork { task_id: Seq<char>, worker_id: Seq<char> },
    RejectWork { task_id: Seq<char>, worker_id: Seq<char>, reason: Seq<char> },
    ReportRejection { task_id: Seq<char>, report: Seq<char> },
    ApproveReport { report_id: ReportIdView },
    RejectReport { report_id: ReportIdView },
    MarkTaskAsCompleted { task_id: Seq<char> },
    Claim { task_id: Seq<char> },
    InitiateTransfer { task_id: Seq<char>, beneficiary_id: Seq<char>, amount: Balance },
    OnTransferd {
        task_id: Seq<char>,
        beneficiary_id: Seq<char>,
        amount: Balance,
        outcome: TransferOutcome,
    },
    Register,
    UpdateBio { bio: Seq<char> },
    AddPosPoint { account_id: Seq<char>, point: u32 },
    AddNegPoint { account_id: Seq<char>, point: u32 },
    AddAdmin { account_id: Seq<char> },
    RemoveAdmin { account_id: Seq<char> },
    ChangeConfig {
        register_bond: Option<Balance>,
        submit_bond: Option<Balance>,
        min_reward: Option<Balance>,
        max_reward: Option<Balance>,
    },
    ChangeState { state: RunningState },
    AddCategory { id: Seq<char>, name: Seq<char> },
}

impl Operation {
    /// The call acts on a proposal: it submits, decides, disputes or
    /// adjudicates one.
    pub open spec fn acts_on_proposal(self) -> bool {
        ||| self is SubmitWork
        ||| self is ApproveWork
        ||| self is RejectWork
        ||| self is ReportRejection
        ||| self is ApproveReport
        ||| self is RejectReport
    }
}

impl DworkView {
    /// What the rules make of a call.
    pub open spec fn apply(self, ctx: CallContextView, op: Operation) -> Result<DworkView, Error> {
        match op {
            Operation::NewTask {
                title,
                description,
                price,
                max_participants,
                duration,
                category_id,
            } => self.new_task(
                ctx,
                title,
                description,
                price,
                max_participants,
                duration,
                category_id,
            ),
            Operation::SubmitWork { task_id, proof_of_work } => self.submit_work(
                ctx,
                task_id,
                proof_of_work,
            ),
            Operation::ApproveWork { task_id, worker_id } => self.approve_work(ctx, task_id, worker_id),
            Operation::RejectWork { task_id, worker_id, reason } => self.reject_work(
                ctx,
                task_id,
                worker_id,
                reason,
            ),
            Operation::ReportRejection { task_id, report } => self.report_rejection(
                ctx,
                task_id,
                report,
            ),
            Operation::ApproveReport { report_id } => self.approve_report(ctx, report_id),
            Operation::RejectReport { report_id } => self.reject_report(ctx, report_id),
            Operation::MarkTaskAsCompleted { task_id } => self.mark_task_as_completed(ctx, task_id),
            Operation::Claim { task_id } => self.claim(ctx, task_id),
            Operation::InitiateTransfer { task_id, beneficiary_id, amount } => self.initiate_transfer(
                task_id,
                beneficiary_id,
                amount,
            ),
            Operation::OnTransferd { task_id, beneficiary_id, amount, outcome } => self.on_transferd(
                ctx,
                task_id,
                beneficiary_id,
                amount,
                outcome,
            ),
            Operation::Register => self.register(ctx),
            Operation::UpdateBio { bio } => self.update_bio(ctx, bio),
            Operation::AddPosPoint { account_id, point } => self.add_pos_point(account_id, point),
            Operation::AddNegPoint { account_id, point } => self.add_neg_point(account_id, point),
            Operation::AddAdmin { account_id } => self.add_admin(ctx, account_id),
            Operation::RemoveAdmin { account_id } => self.remove_admin(ctx, account_id),
            Operation::ChangeConfig { register_bond, submit_bond, min_reward, max_reward } => Ok(
                self.change_config(register_bond, submit_bond, min_reward, max_reward),
            ),
            Operation::ChangeState { state } => self.change_state(ctx, state),
            Operation::AddCategory { id, name } => self.add_category(ctx, id, name),
        }
    }

    /// The task `task_id` lists each of its proposals once, and lists only
    /// proposals that exist and are made for it. It lists no more proposals
    /// than a task can have, and no more of them stand approved, by the owner
    /// or by an admin, than the task can have participants. Its budget covers
    /// the price for every participant.
    pub open spec fn task_sound(self, task_id: Seq<char>) -> bool {
        let task = self.tasks[task_id];
        &&& task.proposals.no_duplicates()
        &&& forall|i: int|
            0 <= i < task.proposals.len() ==> (#[trigger] task.proposals[i]).task_id == task_id
                && self.proposals.contains_key(task.proposals[i])
        &&& task.proposals.len() <= self.app_config.maximum_proposals_at_one_time
        &&& self.entitled_count(task.proposals) <= task.max_participants
        &&& task.price * task.max_participants <= task.budget
    }

    /// The report `report_id` is recorded under its own identifier, for the
    /// worker and the task that the identifier names, and it stands as the
    /// proposal that it disputes does: pending while the proposal is rejected
    /// with this report attached, decided once an admin has decided the
    /// proposal.
    pub open spec fn report_sound(self, report_id: ReportIdView) -> bool {
        let report = self.reports[report_id];
        let id = Self::disputed(report);
        &&& report.report_id == report_id
        &&& report.account_id == report_id.account_id
        &&& report.task_id == report_id.task_id
        &&& self.proposals.contains_key(id)
        &&& match self.proposals[id].status {
            ProposalStatusView::Rejected { report_id: filed, .. } => filed == Some(report_id)
                && report.status is Pending,
            ProposalStatusView::ApprovedByAdmin { .. } => report.status is Approved,
            ProposalStatusView::RejectedByAdmin { .. } => report.status is Rejected,
            _ => false,
        }
    }

    /// The proposal `id` names the worker under whose name it is recorded.
    /// Where it is under review, it is disputed by the report of its worker on
    /// its task, which is on record and pending, and it was not rejected for
    /// being late.
    pub open spec fn proposal_sound(self, id: ProposalIdView) -> bool {
        &&& self.proposals[id].account_id == id.account_id
        &&& match self.proposals[id].status {
            ProposalStatusView::Rejected { reason, report_id: Some(filed), .. } => {
                &&& reason != late()
                &&& filed == ReportIdView { account_id: id.account_id, task_id: id.task_id }
                &&& self.reports.contains_key(filed)
                &&& self.reports[filed].status is Pending
            },
            _ => true,
        }
    }

    /// Every proposal is sound.
    pub open spec fn proposals_sound(self) -> bool {
        forall|id: ProposalIdView| #[trigger]
            self.proposals.contains_key(id) ==> self.proposal_sound(id)
    }

    /// The balance that is locked for `account_id` on `task_id` is the price of
    /// the task, and the proposal of `account_id` for the task stands approved,
    /// by the owner or by an admin.
    pub open spec fn lock_sound(self, account_id: Seq<char>, task_id: Seq<char>) -> bool {
        let id = ProposalIdView { task_id, account_id };
        &&& self.tasks.contains_key(task_id)
        &&& self.accounts[account_id].locked_balance[task_id].amount == self.tasks[task_id].price
        &&& self.is_approved(id) || self.is_reinstated(id)
    }

    /// Every locked balance is sound: money is locked only for approved work.
    pub open spec fn locks_sound(self) -> bool {
        forall|account_id: Seq<char>, task_id: Seq<char>|
            self.accounts.contains_key(account_id)
                && #[trigger] self.accounts[account_id].locked_balance.contains_key(task_id)
                ==> self.lock_sound(account_id, task_id)
    }

    /// From `self` to `next` no balance is locked anew: every locked balance
    /// of `next` was locked before, with the same amount.
    pub open spec fn locks_nothing_new(self, next: DworkView) -> bool {
        forall|account_id: Seq<char>, task_id: Seq<char>|
            next.accounts.contains_key(account_id)
                && #[trigger] next.accounts[account_id].locked_balance.contains_key(task_id) ==> {
                &&& self.accounts.contains_key(account_id)
                &&& self.accounts[account_id].locked_balance.contains_key(task_id)
                &&& next.accounts[account_id].locked_balance[task_id]
                    == self.accounts[account_id].locked_balance[task_id]
            }
    }

    /// From `self` to `next` every task stays on record with its price.
    pub open spec fn keeps_prices(self, next: DworkView) -> bool {
        forall|task_id: Seq<char>| #[trigger]
            self.tasks.contains_key(task_id) ==> next.tasks.contains_key(task_id)
                && next.tasks[task_id].price == self.tasks[task_id].price
    }

    /// From `self` to `next` every proposal that stands approved, by the owner
    /// or by an admin, stays so.
    pub open spec fn keeps_approvals(self, next: DworkView) -> bool {
        forall|id: ProposalIdView|
            (self.is_approved(id) ==> #[trigger] next.is_approved(id)) && (self.is_reinstated(id)
                ==> next.is_reinstated(id))
    }

    /// Every task is sound.
    pub open spec fn tasks_sound(self) -> bool {
        forall|task_id: Seq<char>| #[trigger] self.tasks.contains_key(task_id) ==> self.task_sound(task_id)
    }

    /// Every report is sound.
    pub open spec fn reports_sound(self) -> bool {
        forall|report_id: ReportIdView| #[trigger]
            self.reports.contains_key(report_id) ==> self.report_sound(report_id)
    }

    /// Every task, every proposal, every report and every locked balance is
    /// sound. This holds of the empty marketplace and is kept by every call.
    pub open spec fn consistent(self) -> bool {
        self.tasks_sound() && self.proposals_sound() && self.reports_sound() && self.locks_sound()
    }

    /// A status changes from `before` to `after` because an approval by the
    /// owner is withdrawn at `now` for want of room.
    pub open spec fn loses_place(before: ProposalStatusView, after: ProposalStatusView, now: Timestamp) -> bool {
        before is Approved && after == (ProposalStatusView::Rejected {
            reason: late(),
            reject_at: now,
            report_id: None,
        })
    }

    /// From `self` to `next`, no proposal is lost, every proposal that changes
    /// its status takes one step of the status graph, and a proposal that is
    /// new is pending.
    pub open spec fn steps_to(self, next: DworkView) -> bool {
        forall|id: ProposalIdView|
            {
                &&& self.proposals.contains_key(id) ==> #[trigger] next.proposals.contains_key(id) && (
                next.proposals[id].status == self.proposals[id].status
                    || self.proposals[id].status.step(next.proposals[id].status))
                &&& !self.proposals.contains_key(id) && next.proposals.contains_key(id)
                    ==> next.proposals[id].status is Pending
            }
    }

    /// As `steps_to`, but a proposal may also lose its place at `now`.
    pub open spec fn steps_or_yields_to(self, next: DworkView, now: Timestamp) -> bool {
        forall|id: ProposalIdView|
            {
                &&& self.proposals.contains_key(id) ==> #[trigger] next.proposals.contains_key(id) && (
                next.proposals[id].status == self.proposals[id].status
                    || self.proposals[id].status.step(next.proposals[id].status)
                    || Self::loses_place(
                    self.proposals[id].status,
                    next.proposals[id].status,
                    now,
                ))
                &&& !self.proposals.contains_key(id) && next.proposals.contains_key(id)
                    ==> next.proposals[id].status is Pending
            }
    }

    /// The call makes a proposal lose its place: it is the approval of a
    /// report, and a proposal that stood approved by the owner stands rejected
    /// after it.
    pub open spec fn displaces(self, ctx: CallContextView, op: Operation) -> bool {
        &&& op is ApproveReport
        &&& self.apply(ctx, op) is Ok
        &&& exists|id: ProposalIdView|
            self.is_approved(id) && #[trigger] self.apply(ctx, op)->Ok_0.proposals[id].status is Rejected
    }

    /// From `self` to `next`, no report is lost or rewritten, and a report
    /// changes its status only from pending to decided.
    pub open spec fn reports_step_to(self, next: DworkView) -> bool {
        forall|id: ReportIdView|
            self.reports.contains_key(id) ==> #[trigger] next.reports.contains_key(id) && (
            next.reports[id] == self.reports[id] || (self.reports[id].status is Pending
                && !(next.reports[id].status is Pending) && next.reports[id]
                == ReportView { status: next.reports[id].status, ..self.reports[id] }))
    }

    /// From `self` to `next`, the proposals and the reports stay as they are,
    /// every task that was there keeps its list, its cap, its price and its
    /// budget, and a task that is new has no proposals and a budget that
    /// covers the price for every participant.
    pub open spec fn keeps_records(self, next: DworkView) -> bool {
        &&& next.proposals == self.proposals
        &&& next.reports == self.reports
        &&& next.app_config.maximum_proposals_at_one_time
            == self.app_config.maximum_proposals_at_one_time
        &&& forall|t: Seq<char>| #[trigger]
            next.tasks.contains_key(t) ==> if self.tasks.contains_key(t) {
                &&& next.tasks[t].proposals == self.tasks[t].proposals
                &&& next.tasks[t].max_participants == self.tasks[t].max_participants
                &&& next.tasks[t].price == self.tasks[t].price
                &&& next.tasks[t].budget == self.tasks[t].budget
            } else {
                &&& next.tasks[t].proposals.len() == 0
                &&& next.tasks[t].price * next.tasks[t].max_participants <= next.tasks[t].budget
            }
    }

    /// One of the proposals `ids` stands approved by the owner for the worker
    /// `account_id`.
    pub open spec fn holds_place_for(self, ids: Seq<ProposalIdView>, account_id: Seq<char>) -> bool {
        exists|i: int|
            0 <= i < ids.len() && self.is_approved(#[trigger] ids[i])
                && self.proposals[ids[i]].account_id == account_id
    }

    /// From `self` to `next` the accounts stay as they are, but that the
    /// balance locked on `task_id` is dropped for workers for whom one of the
    /// proposals `ids` stood approved by the owner.
    pub open spec fn only_unlocks(self, next: DworkView, ids: Seq<ProposalIdView>, task_id: Seq<char>) -> bool {
        forall|a: Seq<char>|
            {
                &&& self.accounts.contains_key(a) <==> #[trigger] next.accounts.contains_key(a)
                &&& self.accounts.contains_key(a) ==> next.accounts[a] == self.accounts[a] || (
                next.accounts[a] == self.accounts[a].unlock(task_id) && self.holds_place_for(ids, a))
            }
    }

    /// What changes where a list of proposals is held to the cap: nothing but
    /// proposals and accounts, no record comes or goes, and a proposal either
    /// stays as it is or loses its place.
    pub open spec fn thinned_to(self, next: DworkView, now: Timestamp) -> bool {
        &&& next.tasks == self.tasks
        &&& next.task_order == self.task_order
        &&& next.reports == self.reports
        &&& next.report_order == self.report_order
        &&& next.admins == self.admins
        &&& next.app_config == self.app_config
        &&& next.categories == self.categories
        &&& next.category_order == self.category_order
        &&& next.pending_transfers == self.pending_transfers
        &&& forall|id: ProposalIdView|
            self.proposals.contains_key(id) <==> #[trigger] next.proposals.contains_key(id)
        &&& forall|id: ProposalIdView| #[trigger]
            self.proposals.contains_key(id) ==> next.proposals[id] == self.proposals[id] || (
            Self::loses_place(self.proposals[id].status, next.proposals[id].status, now)
                && next.proposals[id] == ProposalView {
                status: next.proposals[id].status,
                ..self.proposals[id]
            })
    }
}

} // verus!
