//! Proposals: a worker's application to a task, and the states it goes through.

use vstd::prelude::*;
use crate::report::{ReportId, ReportIdView};
use crate::table::{Key, Record};
use crate::types::{AccountId, TaskId, Timestamp};

verus! {

/// The identifier of a proposal: the task and the worker who applies.
#[derive(Debug, PartialEq, Eq)]
pub struct ProposalId {
    pub task_id: TaskId,
    pub account_id: AccountId,
}

/// The mathematical content of a `ProposalId`.
pub ghost struct ProposalIdView {
    pub task_id: Seq<char>,
    pub account_id: Seq<char>,
}

impl View for ProposalId {
    type V = ProposalIdView;

    open spec fn view(&self) -> ProposalIdView {
        ProposalIdView { task_id: self.task_id@, account_id: self.account_id@ }
    }
}

impl Record for ProposalId {
    fn duplicate(&self) -> (c: Self) {
        ProposalId { task_id: self.task_id.clone(), account_id: self.account_id.clone() }
    }
}

impl Key for ProposalId {
    fn same(&self, other: &Self) -> (b: bool) {
        self.task_id == other.task_id && self.account_id == other.account_id
    }
}

impl Clone for ProposalId {
    fn clone(&self) -> (c: Self)
        ensures
            c@ == self@,
    {
        self.duplicate()
    }
}

/// The state of a proposal.
#[derive(Debug, PartialEq, Eq)]
pub enum ProposalStatus {
    /// The owner has not decided yet.
    Pending,
    /// The owner has approved the work.
    Approved,
    /// The owner has rejected the work at `reject_at`; `report_id` is the
    /// report that the worker has filed against it, if any.
    Rejected { reason: String, reject_at: Timestamp, report_id: Option<ReportId> },
    /// An admin has overturned the rejection.
    ApprovedByAdmin { account_id: AccountId },
    /// An admin has confirmed the rejection.
    RejectedByAdmin { account_id: AccountId },
}

/// The mathematical content of a `ProposalStatus`.
pub ghost enum ProposalStatusView {
    Pending,
    Approved,
    Rejected { reason: Seq<char>, reject_at: Timestamp, report_id: Option<ReportIdView> },
    ApprovedByAdmin { account_id: Seq<char> },
    RejectedByAdmin { account_id: Seq<char> },
}

/// The reason of a rejection that cannot be disputed: the proposal lost its
/// place because the task had no room left.
pub open spec fn late() -> Seq<char> {
    "late"@
}

impl ProposalStatusView {
    /// The status is a rejection against which a report is pending.
    pub open spec fn under_review(self) -> bool {
        self matches ProposalStatusView::Rejected { report_id, .. } && report_id is Some
    }

    /// An admin has decided the proposal.
    pub open spec fn adjudicated(self) -> bool {
        self is ApprovedByAdmin || self is RejectedByAdmin
    }

    /// The admin who decided the proposal.
    pub open spec fn adjudicator(self) -> Seq<char>
        recommends
            self.adjudicated(),
    {
        match self {
            ProposalStatusView::ApprovedByAdmin { account_id } => account_id,
            ProposalStatusView::RejectedByAdmin { account_id } => account_id,
            _ => Seq::empty(),
        }
    }

    /// The steps that a proposal's status may take: the owner approves or
    /// rejects a pending proposal, the worker files a report against a
    /// rejection, and an admin decides a reported rejection.
    pub open spec fn step(self, next: ProposalStatusView) -> bool {
        match self {
            ProposalStatusView::Pending => {
                ||| next is Approved
                ||| next matches ProposalStatusView::Rejected { report_id, .. } && report_id is None
            },
            ProposalStatusView::Rejected { reason, reject_at, report_id } => {
                if report_id is None {
                    next matches ProposalStatusView::Rejected {
                        reason: same_reason,
                        reject_at: same_time,
                        report_id: filed,
                    } && same_reason == reason && same_time == reject_at && filed is Some
                } else {
                    next.adjudicated()
                }
            },
            _ => false,
        }
    }
}

impl View for ProposalStatus {
    type V = ProposalStatusView;

    open spec fn view(&self) -> ProposalStatusView {
        match *self {
            ProposalStatus::Pending => ProposalStatusView::Pending,
            ProposalStatus::Approved => ProposalStatusView::Approved,
            ProposalStatus::Rejected { reason, reject_at, report_id } => ProposalStatusView::Rejected {
                reason: reason@,
                reject_at,
                report_id: match report_id {
                    Some(r) => Some(r@),
                    None => None,
                },
            },
            ProposalStatus::ApprovedByAdmin { account_id } => ProposalStatusView::ApprovedByAdmin {
                account_id: account_id@,
            },
            ProposalStatus::RejectedByAdmin { account_id } => ProposalStatusView::RejectedByAdmin {
                account_id: account_id@,
            },
        }
    }
}

impl Clone for ProposalStatus {
    fn clone(&self) -> (c: Self)
        ensures
            c@ == self@,
    {
        match self {
            ProposalStatus::Pending => ProposalStatus::Pending,
            ProposalStatus::Approved => ProposalStatus::Approved,
            ProposalStatus::Rejected { reason, reject_at, report_id } => ProposalStatus::Rejected {
                reason: reason.clone(),
                reject_at: *reject_at,
                report_id: match report_id {
                    Some(r) => Some(r.duplicate()),
                    None => None,
                },
            },
            ProposalStatus::ApprovedByAdmin { account_id } => ProposalStatus::ApprovedByAdmin {
                account_id: account_id.clone(),
            },
            ProposalStatus::RejectedByAdmin { account_id } => ProposalStatus::RejectedByAdmin {
                account_id: account_id.clone(),
            },
        }
    }
}

/// A worker's application to a task.
#[derive(Debug, PartialEq, Eq)]
pub struct Proposal {
    pub account_id: AccountId,
    pub submit_time: Timestamp,
    /// Where the work can be seen.
    pub proof_of_work: String,
    pub status: ProposalStatus,
}

/// The mathematical content of a `Proposal`.
pub ghost struct ProposalView {
    pub account_id: Seq<char>,
    pub submit_time: Timestamp,
    pub proof_of_work: Seq<char>,
    pub status: ProposalStatusView,
}

impl View for Proposal {
    type V = ProposalView;

    open spec fn view(&self) -> ProposalView {
        ProposalView {
            account_id: self.account_id@,
            submit_time: self.submit_time,
            proof_of_work: self.proof_of_work@,
            status: self.status@,
        }
    }
}

impl Record for Proposal {
    fn duplicate(&self) -> (c: Self) {
        Proposal {
            account_id: self.account_id.clone(),
            submit_time: self.submit_time,
            proof_of_work: self.proof_of_work.clone(),
            status: self.status.clone(),
        }
    }
}

impl Clone for Proposal {
    fn clone(&self) -> (c: Self)
        ensures
            c@ == self@,
    {
        self.duplicate()
    }
}

} // verus!
