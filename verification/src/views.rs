//! What clients can read: tasks, reports and categories, newest first and page
//! by page.

use vstd::prelude::*;
use crate::categories::Category;
use crate::proposal::{Proposal, ProposalId, ProposalIdView, ProposalStatus, ProposalView};
use crate::report::{Report, ReportId};
use crate::state::{Dwork, DworkView, count, lemma_count_step};
use crate::table::{Record, page, values_at, views};
use crate::task::{Task, TaskView, WrappedTask, WrappedTaskView};
use crate::types::{AccountId, Error, TaskId, Timestamp};

verus! {

impl DworkView {
    /// The proposals on record among `ids`, in the order of `ids`.
    pub open spec fn resolved(self, ids: Seq<ProposalIdView>) -> Seq<ProposalView>
        decreases ids.len(),
    {
        if ids.len() == 0 {
            Seq::empty()
        } else if self.proposals.contains_key(ids.last()) {
            self.resolved(ids.drop_last()).push(self.proposals[ids.last()])
        } else {
            self.resolved(ids.drop_last())
        }
    }

    /// A task as it is shown to clients.
    pub open spec fn json_from_task(self, task: TaskView) -> WrappedTaskView {
        WrappedTaskView {
            owner: task.owner,
            title: task.title,
            description: task.description,
            max_participants: task.max_participants,
            price: task.price,
            proposals: self.resolved(task.proposals),
            created_at: task.created_at,
            available_until: task.submit_available_until,
            category_id: task.category_id,
        }
    }

    /// Every one of `ids` names a task.
    pub open spec fn all_tasks_exist(self, ids: Seq<Seq<char>>) -> bool {
        forall|i: int| 0 <= i < ids.len() ==> self.tasks.contains_key(#[trigger] ids[i])
    }

    /// The tasks `ids` as they are shown to clients, each with its identifier.
    pub open spec fn tasks_by_ids(self, ids: Seq<Seq<char>>) -> Seq<(Seq<char>, WrappedTaskView)> {
        Seq::new(ids.len(), |i: int| (ids[i], self.json_from_task(self.tasks[ids[i]])))
    }

    /// The proposal `id` exists, the report against its rejection is pending,
    /// and the time in which an admin was to decide it has passed.
    pub open spec fn report_overdue(self, id: ProposalIdView, now: Timestamp) -> bool {
        &&& self.is_under_review(id)
        &&& now > self.proposals[id].status->Rejected_reject_at + self.app_config.release_window()
    }

    /// The proposal `id` exists and is pending.
    pub open spec fn is_pending(self, id: ProposalIdView) -> bool {
        self.proposals.contains_key(id) && self.proposals[id].status is Pending
    }
}

impl Dwork {
    /// The proposals on record among `ids`, in the order of `ids`.
    pub fn resolve(&self, ids: &Vec<ProposalId>) -> (found: Vec<Proposal>)
        ensures
            views(found@) == self@.resolved(views(ids@)),
    {
        let ghost s = views(ids@);
        let mut found: Vec<Proposal> = Vec::new();
        let mut i: usize = 0;
        proof {
            assert(s.take(0) =~= Seq::<ProposalIdView>::empty());
            assert(views(found@) =~= self@.resolved(s.take(0)));
        }
        while i < ids.len()
            invariant
                i <= ids.len(),
                s == views(ids@),
                views(found@) == self@.resolved(s.take(i as int)),
            decreases ids.len() - i,
        {
            let ghost before = found@;
            proof {
                assert(s.take(i + 1).drop_last() =~= s.take(i as int));
                assert(s.take(i + 1).last() == s[i as int]);
            }
            match self.proposals.get(&ids[i]) {
                Some(proposal) => {
                    found.push(proposal.duplicate());
                    proof {
                        assert(views(found@) =~= views(before).push(proposal@));
                    }
                },
                None => {},
            }
            i += 1;
        }
        proof {
            assert(s.take(i as int) =~= s);
        }
        found
    }

    /// A task as it is shown to clients.
    pub fn json_from_task(&self, task: &Task) -> (w: WrappedTask)
        ensures
            w@ == self@.json_from_task(task@),
    {
        WrappedTask {
            owner: task.owner.clone(),
            title: task.title.clone(),
            description: task.description.clone(),
            max_participants: task.max_participants,
            price: task.price,
            proposals: self.resolve(&task.proposals),
            created_at: task.created_at,
            available_until: task.submit_available_until,
            category_id: task.category_id.clone(),
        }
    }

    /// The task `task_id` as it is shown to clients.
    pub fn task_by_id(&self, task_id: TaskId) -> (r: Result<WrappedTask, Error>)
        ensures
            match r {
                Ok(w) => self@.tasks.contains_key(task_id@) && w@ == self@.json_from_task(
                    self@.tasks[task_id@],
                ),
                Err(e) => e == Error::NotFound && !self@.tasks.contains_key(task_id@),
            },
    {
        match self.task_records.get(&task_id) {
            Some(task) => Ok(self.json_from_task(task)),
            None => Err(Error::NotFound),
        }
    }

    /// The tasks `ids` as they are shown to clients, each with its identifier.
    /// All of them must exist.
    pub fn tasks_by_ids(&self, ids: Vec<String>) -> (r: Result<Vec<(String, WrappedTask)>, Error>)
        ensures
            match r {
                Ok(shown) => self@.all_tasks_exist(views(ids@)) && views(shown@)
                    == self@.tasks_by_ids(views(ids@)),
                Err(e) => e == Error::NotFound && !self@.all_tasks_exist(views(ids@)),
            },
    {
        let mut shown: Vec<(String, WrappedTask)> = Vec::new();
        let mut i: usize = 0;
        while i < ids.len()
            invariant
                i <= ids.len(),
                shown.len() == i,
                forall|j: int| 0 <= j < i ==> self@.tasks.contains_key(#[trigger] views(ids@)[j]),
                forall|j: int|
                    0 <= j < i ==> (#[trigger] shown[j])@ == (
                        ids[j]@,
                        self@.json_from_task(self@.tasks[ids[j]@]),
                    ),
            decreases ids.len() - i,
        {
            match self.task_records.get(&ids[i]) {
                Some(task) => {
                    shown.push((ids[i].clone(), self.json_from_task(task)));
                },
                None => {
                    assert(!self@.tasks.contains_key(views(ids@)[i as int]));
                    return Err(Error::NotFound);
                },
            }
            i += 1;
        }
        assert(views(shown@) =~= self@.tasks_by_ids(views(ids@)));
        Ok(shown)
    }

    /// A page of all tasks, newest first.
    pub fn available_tasks(&self, from_index: u64, limit: u64) -> (shown: Vec<(TaskId, WrappedTask)>)
        ensures
            views(shown@) == self@.tasks_by_ids(page(self@.task_order, from_index, limit)),
    {
        let ids = self.task_records.page(from_index, limit);
        proof {
            let listed = page(self@.task_order, from_index, limit);
            assert forall|i: int| 0 <= i < listed.len() implies self@.tasks.contains_key(
                #[trigger] listed[i],
            ) by {
                assert(self.task_records.keys().contains(listed[i]));
            }
        }
        match self.tasks_by_ids(ids) {
            Ok(shown) => shown,
            Err(_) => Vec::new(),
        }
    }

    /// A page of the current jobs of `account_id`, newest first. Fails where
    /// the account is unknown or one of the jobs on the page is.
    pub fn current_tasks(&self, account_id: AccountId, from_index: u64, limit: u64) -> (r: Result<
        Vec<(TaskId, WrappedTask)>,
        Error,
    >)
        ensures
            match r {
                Ok(shown) => {
                    let ids = page(self@.accounts[account_id@].current_jobs, from_index, limit);
                    &&& self@.accounts.contains_key(account_id@)
                    &&& self@.all_tasks_exist(ids)
                    &&& views(shown@) == self@.tasks_by_ids(ids)
                },
                Err(e) => e == Error::NotFound && (!self@.accounts.contains_key(account_id@)
                    || !self@.all_tasks_exist(
                    page(self@.accounts[account_id@].current_jobs, from_index, limit),
                )),
            },
    {
        match self.accounts.get(&account_id) {
            Some(account) => self.tasks_by_ids(account.current_jobs.page(from_index, limit)),
            None => Err(Error::NotFound),
        }
    }

    /// A page of the completed jobs of `account_id`, newest first. Fails where
    /// the account is unknown or one of the jobs on the page is.
    pub fn completed_tasks(&self, account_id: AccountId, from_index: u64, limit: u64) -> (r: Result<
        Vec<(TaskId, WrappedTask)>,
        Error,
    >)
        ensures
            match r {
                Ok(shown) => {
                    let ids = page(self@.accounts[account_id@].completed_jobs, from_index, limit);
                    &&& self@.accounts.contains_key(account_id@)
                    &&& self@.all_tasks_exist(ids)
                    &&& views(shown@) == self@.tasks_by_ids(ids)
                },
                Err(e) => e == Error::NotFound && (!self@.accounts.contains_key(account_id@)
                    || !self@.all_tasks_exist(
                    page(self@.accounts[account_id@].completed_jobs, from_index, limit),
                )),
            },
    {
        match self.accounts.get(&account_id) {
            Some(account) => self.tasks_by_ids(account.completed_jobs.page(from_index, limit)),
            None => Err(Error::NotFound),
        }
    }

    /// How many participants a task can have at most.
    pub fn maximum_participants_per_task(&self) -> (n: u16)
        ensures
            n == self@.app_config.maximum_proposals_at_one_time,
    {
        self.app_config.maximum_proposals_at_one_time
    }

    /// A page of all reports, newest first.
    pub fn get_reports(&self, from_index: u64, limit: u64) -> (shown: Vec<Report>)
        ensures
            views(shown@) == values_at(page(self@.report_order, from_index, limit), self@.reports),
    {
        self.reports.page_values(from_index, limit)
    }

    /// The report `report_id`.
    pub fn get_report_by_id(&self, report_id: ReportId) -> (r: Result<Report, Error>)
        ensures
            match r {
                Ok(report) => self@.reports.contains_key(report_id@) && report@
                    == self@.reports[report_id@],
                Err(e) => e == Error::NotFound && !self@.reports.contains_key(report_id@),
            },
    {
        match self.reports.get(&report_id) {
            Some(report) => Ok(report.duplicate()),
            None => Err(Error::NotFound),
        }
    }

    /// A page of all categories, newest first.
    pub fn categories(&self, from_index: u64, limit: u64) -> (shown: Vec<Category>)
        ensures
            views(shown@) == values_at(
                page(self@.category_order, from_index, limit),
                self@.categories,
            ),
    {
        self.categories.page_values(from_index, limit)
    }

    /// Whether a report on the task `task_id` is still pending although the
    /// time in which an admin was to decide it has passed at `now`.
    pub fn check_available_review_report(&self, task_id: TaskId, now: Timestamp) -> (r: Result<bool, Error>)
        ensures
            match r {
                Ok(open) => self@.tasks.contains_key(task_id@) && open == (count(
                    self@.tasks[task_id@].proposals,
                    |id: ProposalIdView| self@.report_overdue(id, now),
                ) > 0),
                Err(e) => e == Error::NotFound && !self@.tasks.contains_key(task_id@),
            },
    {
        let task = match self.task_records.get(&task_id) {
            Some(task) => task,
            None => return Err(Error::NotFound),
        };
        let ghost p = |id: ProposalIdView| self@.report_overdue(id, now);
        let ghost s = views(task.proposals@);
        let mut open = false;
        let mut i: usize = 0;
        proof {
            assert(s.take(0) =~= Seq::<ProposalIdView>::empty());
        }
        while i < task.proposals.len()
            invariant
                i <= task.proposals.len(),
                s == views(task.proposals@),
                p == |id: ProposalIdView| self@.report_overdue(id, now),
                open == (count(s.take(i as int), p) > 0),
            decreases task.proposals.len() - i,
        {
            proof {
                lemma_count_step(s, p, i as int);
            }
            match self.proposals.get(&task.proposals[i]) {
                Some(proposal) => {
                    if let ProposalStatus::Rejected { reject_at, report_id: Some(_), .. } = &proposal.status {
                        let end: u128 = *reject_at as u128 + self.app_config.report_interval as u128
                            + self.app_config.validate_report_interval as u128;
                        if now as u128 > end {
                            open = true;
                        }
                    }
                },
                None => {},
            }
            i += 1;
        }
        proof {
            assert(s.take(i as int) =~= s);
        }
        Ok(open)
    }

    /// Whether a proposal for the task `task_id` is still pending although
    /// the time for submissions has passed at `now`.
    pub fn check_available_review_proposal(&self, task_id: TaskId, now: Timestamp) -> (r: Result<bool, Error>)
        ensures
            match r {
                Ok(open) => self@.tasks.contains_key(task_id@) && open == (now
                    >= self@.tasks[task_id@].submit_available_until && count(
                    self@.tasks[task_id@].proposals,
                    |id: ProposalIdView| self@.is_pending(id),
                ) > 0),
                Err(e) => e == Error::NotFound && !self@.tasks.contains_key(task_id@),
            },
    {
        let task = match self.task_records.get(&task_id) {
            Some(task) => task,
            None => return Err(Error::NotFound),
        };
        let ghost p = |id: ProposalIdView| self@.is_pending(id);
        let ghost s = views(task.proposals@);
        let mut pending = false;
        let mut i: usize = 0;
        proof {
            assert(s.take(0) =~= Seq::<ProposalIdView>::empty());
        }
        while i < task.proposals.len()
            invariant
                i <= task.proposals.len(),
                s == views(task.proposals@),
                p == |id: ProposalIdView| self@.is_pending(id),
                pending == (count(s.take(i as int), p) > 0),
            decreases task.proposals.len() - i,
        {
            proof {
                lemma_count_step(s, p, i as int);
            }
            match self.proposals.get(&task.proposals[i]) {
                Some(proposal) => {
                    if let ProposalStatus::Pending = proposal.status {
                        pending = true;
                    }
                },
                None => {},
            }
            i += 1;
        }
        proof {
            assert(s.take(i as int) =~= s);
        }
        Ok(now >= task.submit_available_until && pending)
    }
}

} // verus!
