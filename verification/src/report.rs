//! Reports: a worker's dispute of a rejection.

use vstd::prelude::*;
use crate::table::{Key, Record};
use crate::types::{AccountId, TaskId};

verus! {

/// The identifier of a report: the worker who files it and the task that it
/// is about.
#[derive(Debug, PartialEq, Eq)]
pub struct ReportId {
    pub account_id: AccountId,
    pub task_id: TaskId,
}

/// The mathematical content of a `ReportId`.
pub ghost struct ReportIdView {
    pub account_id: Seq<char>,
    pub task_id: Seq<char>,
}

impl View for ReportId {
    type V = ReportIdView;

    open spec fn view(&self) -> ReportIdView {
        ReportIdView { account_id: self.account_id@, task_id: self.task_id@ }
    }
}

impl Record for ReportId {
    fn duplicate(&self) -> (c: Self) {
        ReportId { account_id: self.account_id.clone(), task_id: self.task_id.clone() }
    }
}

impl Key for ReportId {
    fn same(&self, other: &Self) -> (b: bool) {
        self.account_id == other.account_id && self.task_id == other.task_id
    }
}

impl Clone for ReportId {
    fn clone(&self) -> (c: Self)
        ensures
            c@ == self@,
    {
        self.duplicate()
    }
}

/// How far a report has come.
#[derive(Clone, Copy, Debug, PartialEq, Eq, Structural)]
pub enum ReportStatus {
    Pending,
    Approved,
    Rejected,
}

/// A worker's dispute of the rejection of their proposal.
#[derive(Debug, PartialEq, Eq)]
pub struct Report {
    pub report_id: ReportId,
    pub account_id: AccountId,
    pub task_id: TaskId,
    /// The worker's justification.
    pub report: String,
    pub status: ReportStatus,
}

/// The mathematical content of a `Report`.
pub ghost struct ReportView {
    pub report_id: ReportIdView,
    pub account_id: Seq<char>,
    pub task_id: Seq<char>,
    pub report: Seq<char>,
    pub status: ReportStatus,
}

impl View for Report {
    type V = ReportView;

    open spec fn view(&self) -> ReportView {
        ReportView {
            report_id: self.report_id@,
            account_id: self.account_id@,
            task_id: self.task_id@,
            report: self.report@,
            status: self.status,
        }
    }
}

impl Record for Report {
    fn duplicate(&self) -> (c: Self) {
        Report {
            report_id: self.report_id.duplicate(),
            account_id: self.account_id.clone(),
            task_id: self.task_id.clone(),
            report: self.report.clone(),
            status: self.status,
        }
    }
}

impl Clone for Report {
    fn clone(&self) -> (c: Self)
        ensures
            c@ == self@,
    {
        self.duplicate()
    }
}

} // verus!
