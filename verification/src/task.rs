//! Tasks: posted jobs with a price for each participant.

use vstd::prelude::*;
use crate::proposal::{Proposal, ProposalId, ProposalIdView, ProposalView};
use crate::table::views;
use crate::types::{AccountId, Balance, CategoryId, Timestamp};

verus! {

/// A posted job.
#[derive(Clone, Debug, PartialEq, Eq)]
pub struct Task {
    pub owner: AccountId,
    pub title: String,
    pub description: String,
    /// How many workers can be paid.
    pub max_participants: u16,
    /// What each approved worker is paid.
    pub price: Balance,
    /// What the owner attached when the task was created.
    pub budget: Balance,
    /// The proposals in the order of their submission.
    pub proposals: Vec<ProposalId>,
    pub created_at: Timestamp,
    /// When the owner last rejected a proposal of the task.
    pub last_rejection_published_at: Option<Timestamp>,
    /// Until when proposals can be submitted.
    pub submit_available_until: Timestamp,
    pub category_id: CategoryId,
    /// Whether the task has been settled.
    pub completed: bool,
}

/// The mathematical content of a `Task`.
pub ghost struct TaskView {
    pub owner: Seq<char>,
    pub title: Seq<char>,
    pub description: Seq<char>,
    pub max_participants: u16,
    pub price: Balance,
    pub budget: Balance,
    pub proposals: Seq<ProposalIdView>,
    pub created_at: Timestamp,
    pub last_rejection_published_at: Option<Timestamp>,
    pub submit_available_until: Timestamp,
    pub category_id: Seq<char>,
    pub completed: bool,
}

impl View for Task {
    type V = TaskView;

    open spec fn view(&self) -> TaskView {
        TaskView {
            owner: self.owner@,
            title: self.title@,
            description: self.description@,
            max_participants: self.max_participants,
            price: self.price,
            budget: self.budget,
            proposals: views(self.proposals@),
            created_at: self.created_at,
            last_rejection_published_at: self.last_rejection_published_at,
            submit_available_until: self.submit_available_until,
            category_id: self.category_id@,
            completed: self.completed,
        }
    }
}

/// A task as it is shown to clients: with its proposals in full.
#[derive(Clone, Debug, PartialEq, Eq)]
pub struct WrappedTask {
    pub owner: AccountId,
    pub title: String,
    pub description: String,
    pub max_participants: u16,
    pub price: Balance,
    pub proposals: Vec<Proposal>,
    pub created_at: Timestamp,
    pub available_until: Timestamp,
    pub category_id: CategoryId,
}

/// The mathematical content of a `WrappedTask`.
pub ghost struct WrappedTaskView {
    pub owner: Seq<char>,
    pub title: Seq<char>,
    pub description: Seq<char>,
    pub max_participants: u16,
    pub price: Balance,
    pub proposals: Seq<ProposalView>,
    pub created_at: Timestamp,
    pub available_until: Timestamp,
    pub category_id: Seq<char>,
}

impl View for WrappedTask {
    type V = WrappedTaskView;

    open spec fn view(&self) -> WrappedTaskView {
        WrappedTaskView {
            owner: self.owner@,
            title: self.title@,
            description: self.description@,
            max_participants: self.max_participants,
            price: self.price,
            proposals: views(self.proposals@),
            created_at: self.created_at,
            available_until: self.available_until,
            category_id: self.category_id@,
        }
    }
}

} // verus!
