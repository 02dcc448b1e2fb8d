//! The marketplace: the records that every operation works on.

use vstd::prelude::*;
use crate::account::{Account, AccountView};
use crate::admin::AppConfig;
use crate::categories::{Category, CategoryView};
use crate::proposal::{Proposal, ProposalId, ProposalIdView, ProposalStatus, ProposalView};
use crate::report::{Report, ReportId, ReportIdView, ReportView};
use crate::table::{Key, KeySet, Record, Table, views};
use crate::task::{Task, TaskView};
use crate::types::{AccountId, Balance, CategoryId, Error, TaskId, Timestamp};

verus! {

/// A transfer to an outside party that has been asked for and whose result is
/// not known yet.
#[derive(Clone, Debug, PartialEq, Eq)]
pub struct PendingTransfer {
    pub task_id: TaskId,
    pub beneficiary_id: AccountId,
    pub amount: Balance,
}

/// The mathematical content of a `PendingTransfer`.
pub ghost struct PendingTransferView {
    pub task_id: Seq<char>,
    pub beneficiary_id: Seq<char>,
    pub amount: Balance,
}

impl View for PendingTransfer {
    type V = PendingTransferView;

    open spec fn view(&self) -> PendingTransferView {
        PendingTransferView {
            task_id: self.task_id@,
            beneficiary_id: self.beneficiary_id@,
            amount: self.amount,
        }
    }
}

impl Record for PendingTransfer {
    fn duplicate(&self) -> (c: Self) {
        PendingTransfer {
            task_id: self.task_id.clone(),
            beneficiary_id: self.beneficiary_id.clone(),
            amount: self.amount,
        }
    }
}

impl Key for PendingTransfer {
    fn same(&self, other: &Self) -> (b: bool) {
        self.task_id == other.task_id && self.beneficiary_id == other.beneficiary_id && self.amount
            == other.amount
    }
}

/// The marketplace. It owns the accounts, the tasks, the proposals and the
/// reports, and the configuration under which they are handled.
#[derive(Clone, Debug, PartialEq, Eq)]
pub struct Dwork {
    pub accounts: Table<AccountId, Account>,
    pub admins: KeySet<AccountId>,
    pub app_config: AppConfig,
    /// The tasks, oldest first.
    pub task_records: Table<TaskId, Task>,
    pub proposals: Table<ProposalId, Proposal>,
    /// The reports, oldest first.
    pub reports: Table<ReportId, Report>,
    /// The categories, oldest first.
    pub categories: Table<CategoryId, Category>,
    /// The transfers whose result is awaited.
    pub pending_transfers: KeySet<PendingTransfer>,
}

/// The mathematical content of the marketplace.
pub ghost struct DworkView {
    pub accounts: Map<Seq<char>, AccountView>,
    pub admins: Seq<Seq<char>>,
    pub app_config: AppConfig,
    pub tasks: Map<Seq<char>, TaskView>,
    /// The identifiers of the tasks, oldest first.
    pub task_order: Seq<Seq<char>>,
    pub proposals: Map<ProposalIdView, ProposalView>,
    pub reports: Map<ReportIdView, ReportView>,
    /// The identifiers of the reports, oldest first.
    pub report_order: Seq<ReportIdView>,
    pub categories: Map<Seq<char>, CategoryView>,
    /// The identifiers of the categories, oldest first.
    pub category_order: Seq<Seq<char>>,
    pub pending_transfers: Seq<PendingTransferView>,
}

impl View for Dwork {
    type V = DworkView;

    open spec fn view(&self) -> DworkView {
        DworkView {
            accounts: self.accounts@,
            admins: self.admins@,
            app_config: self.app_config,
            tasks: self.task_records@,
            task_order: self.task_records.order(),
            proposals: self.proposals@,
            reports: self.reports@,
            report_order: self.reports.order(),
            categories: self.categories@,
            category_order: self.categories.order(),
            pending_transfers: self.pending_transfers@,
        }
    }
}

/// How many elements of `s` satisfy `p`.
pub open spec fn count<A>(s: Seq<A>, p: spec_fn(A) -> bool) -> nat
    decreases s.len(),
{
    if s.len() == 0 {
        0
    } else {
        count(s.drop_last(), p) + if p(s.last()) {
            1nat
        } else {
            0nat
        }
    }
}

/// Counting one element further.
pub proof fn lemma_count_step<A>(s: Seq<A>, p: spec_fn(A) -> bool, i: int)
    requires
        0 <= i < s.len(),
    ensures
        count(s.take(i + 1), p) == count(s.take(i), p) + if p(s[i]) {
            1nat
        } else {
            0nat
        },
{
    assert(s.take(i + 1).drop_last() =~= s.take(i));
    assert(s.take(i + 1).last() == s[i]);
}

/// What an operation owes its caller: where the rules give a next state, the
/// operation succeeds and reaches it; where they give an error, the operation
/// returns that error and leaves the marketplace as it was.
pub open spec fn carried_out<T>(
    rule: Result<DworkView, Error>,
    before: DworkView,
    after: DworkView,
    result: Result<T, Error>,
) -> bool {
    match rule {
        Ok(next) => result is Ok && after == next,
        Err(e) => result == Err::<T, Error>(e) && after == before,
    }
}

impl DworkView {
    /// A marketplace without any records.
    pub open spec fn empty() -> DworkView {
        DworkView {
            accounts: Map::empty(),
            admins: Seq::empty(),
            app_config: AppConfig::initial(),
            tasks: Map::empty(),
            task_order: Seq::empty(),
            proposals: Map::empty(),
            reports: Map::empty(),
            report_order: Seq::empty(),
            categories: Map::empty(),
            category_order: Seq::empty(),
            pending_transfers: Seq::empty(),
        }
    }

    /// The proposal `id` exists and stands approved by the owner.
    pub open spec fn is_approved(self, id: ProposalIdView) -> bool {
        self.proposals.contains_key(id) && self.proposals[id].status is Approved
    }

    /// How many of the proposals `ids` stand approved by the owner.
    pub open spec fn approved_count(self, ids: Seq<ProposalIdView>) -> nat {
        count(ids, |id: ProposalIdView| self.is_approved(id))
    }

    /// The proposal `id` exists and stands approved by an admin.
    pub open spec fn is_reinstated(self, id: ProposalIdView) -> bool {
        self.proposals.contains_key(id) && self.proposals[id].status is ApprovedByAdmin
    }

    /// How many of the proposals `ids` stand approved by an admin.
    pub open spec fn reinstated_count(self, ids: Seq<ProposalIdView>) -> nat {
        count(ids, |id: ProposalIdView| self.is_reinstated(id))
    }

    /// The proposal `id` exists and stands approved, by the owner or by an
    /// admin: its worker is paid.
    pub open spec fn is_entitled(self, id: ProposalIdView) -> bool {
        self.is_approved(id) || self.is_reinstated(id)
    }

    /// How many of the proposals `ids` stand approved, by the owner or by an
    /// admin.
    pub open spec fn entitled_count(self, ids: Seq<ProposalIdView>) -> nat {
        count(ids, |id: ProposalIdView| self.is_entitled(id))
    }

    /// The proposal `id` exists and its rejection is disputed by a report that
    /// no admin has decided yet.
    pub open spec fn is_under_review(self, id: ProposalIdView) -> bool {
        self.proposals.contains_key(id) && self.proposals[id].status.under_review()
    }

    /// How many of the proposals `ids` are under review.
    pub open spec fn under_review_count(self, ids: Seq<ProposalIdView>) -> nat {
        count(ids, |id: ProposalIdView| self.is_under_review(id))
    }

    /// The proposal `id` exists and an admin has decided it.
    pub open spec fn is_adjudicated(self, id: ProposalIdView) -> bool {
        self.proposals.contains_key(id) && self.proposals[id].status.adjudicated()
    }

    /// The admins who decided proposals among `ids`, one entry for each such
    /// proposal, in the order of the proposals.
    pub open spec fn adjudicators(self, ids: Seq<ProposalIdView>) -> Seq<Seq<char>>
        decreases ids.len(),
    {
        if ids.len() == 0 {
            Seq::empty()
        } else if self.is_adjudicated(ids.last()) {
            self.adjudicators(ids.drop_last()).push(self.proposals[ids.last()].status.adjudicator())
        } else {
            self.adjudicators(ids.drop_last())
        }
    }

    /// When money that is locked now for a worker on `task` is released: not
    /// before the release window after the task's last rejection has passed.
    pub open spec fn release_time(self, task: TaskView, now: Timestamp) -> int {
        match task.last_rejection_published_at {
            Some(t) => if t + self.app_config.release_window() > now {
                t + self.app_config.release_window()
            } else {
                now as int
            },
            None => now as int,
        }
    }
}

impl Dwork {
    /// Whether `id` occurs in `ids`.
    pub fn lists(ids: &Vec<ProposalId>, id: &ProposalId) -> (b: bool)
        ensures
            b == views(ids@).contains(id@),
    {
        let mut i: usize = 0;
        while i < ids.len()
            invariant
                i <= ids.len(),
                forall|j: int| 0 <= j < i ==> views(ids@)[j] != id@,
            decreases ids.len() - i,
        {
            if ids[i].same(id) {
                assert(views(ids@)[i as int] == id@);
                return true;
            }
            i += 1;
        }
        false
    }

    /// When money that is locked now for a worker on `task` is released, unless
    /// that time lies beyond the range of a timestamp.
    pub fn release_time(&self, task: &Task, now: Timestamp) -> (r: Option<Timestamp>)
        ensures
            match r {
                Some(t) => t == self@.release_time(task@, now),
                None => self@.release_time(task@, now) > u64::MAX,
            },
    {
        match task.last_rejection_published_at {
            Some(t) => {
                let end: u128 = t as u128 + self.app_config.report_interval as u128
                    + self.app_config.validate_report_interval as u128;
                if end > now as u128 {
                    if end > u64::MAX as u128 {
                        None
                    } else {
                        Some(end as u64)
                    }
                } else {
                    Some(now)
                }
            },
            None => Some(now),
        }
    }

    /// How many of the proposals `ids` stand approved by the owner.
    pub fn count_approved(&self, ids: &Vec<ProposalId>) -> (n: usize)
        ensures
            n == self@.approved_count(views(ids@)),
    {
        let ghost p = |id: ProposalIdView| self@.is_approved(id);
        let ghost s = views(ids@);
        let mut n: usize = 0;
        let mut i: usize = 0;
        proof {
            assert(s.take(0) =~= Seq::<ProposalIdView>::empty());
        }
        while i < ids.len()
            invariant
                i <= ids.len(),
                s == views(ids@),
                p == |id: ProposalIdView| self@.is_approved(id),
                n == count(s.take(i as int), p),
                n <= i,
            decreases ids.len() - i,
        {
            proof {
                lemma_count_step(s, p, i as int);
            }
            match self.proposals.get(&ids[i]) {
                Some(proposal) => {
                    if let ProposalStatus::Approved = proposal.status {
                        n += 1;
                    }
                },
                None => {},
            }
            i += 1;
        }
        proof {
            assert(s.take(i as int) =~= s);
        }
        n
    }

    /// How many of the proposals `ids` stand approved by an admin.
    pub fn count_reinstated(&self, ids: &Vec<ProposalId>) -> (n: usize)
        ensures
            n == self@.reinstated_count(views(ids@)),
    {
        let ghost p = |id: ProposalIdView| self@.is_reinstated(id);
        let ghost s = views(ids@);
        let mut n: usize = 0;
        let mut i: usize = 0;
        proof {
            assert(s.take(0) =~= Seq::<ProposalIdView>::empty());
        }
        while i < ids.len()
            invariant
                i <= ids.len(),
                s == views(ids@),
                p == |id: ProposalIdView| self@.is_reinstated(id),
                n == count(s.take(i as int), p),
                n <= i,
            decreases ids.len() - i,
        {
            proof {
                lemma_count_step(s, p, i as int);
            }
            match self.proposals.get(&ids[i]) {
                Some(proposal) => {
                    if let ProposalStatus::ApprovedByAdmin { .. } = &proposal.status {
                        n += 1;
                    }
                },
                None => {},
            }
            i += 1;
        }
        proof {
            assert(s.take(i as int) =~= s);
        }
        n
    }

    /// How many of the proposals `ids` stand approved, by the owner or by an
    /// admin.
    pub fn count_entitled(&self, ids: &Vec<ProposalId>) -> (n: usize)
        ensures
            n == self@.entitled_count(views(ids@)),
    {
        let ghost p = |id: ProposalIdView| self@.is_entitled(id);
        let ghost s = views(ids@);
        let mut n: usize = 0;
        let mut i: usize = 0;
        proof {
            assert(s.take(0) =~= Seq::<ProposalIdView>::empty());
        }
        while i < ids.len()
            invariant
                i <= ids.len(),
                s == views(ids@),
                p == |id: ProposalIdView| self@.is_entitled(id),
                n == count(s.take(i as int), p),
                n <= i,
            decreases ids.len() - i,
        {
            proof {
                lemma_count_step(s, p, i as int);
            }
            match self.proposals.get(&ids[i]) {
                Some(proposal) => {
                    match &proposal.status {
                        ProposalStatus::Approved => {
                            n += 1;
                        },
                        ProposalStatus::ApprovedByAdmin { .. } => {
                            n += 1;
                        },
                        _ => {},
                    }
                },
                None => {},
            }
            i += 1;
        }
        proof {
            assert(s.take(i as int) =~= s);
        }
        n
    }

    /// How many of the proposals `ids` are under review.
    pub fn count_under_review(&self, ids: &Vec<ProposalId>) -> (n: usize)
        ensures
            n == self@.under_review_count(views(ids@)),
    {
        let ghost p = |id: ProposalIdView| self@.is_under_review(id);
        let ghost s = views(ids@);
        let mut n: usize = 0;
        let mut i: usize = 0;
        proof {
            assert(s.take(0) =~= Seq::<ProposalIdView>::empty());
        }
        while i < ids.len()
            invariant
                i <= ids.len(),
                s == views(ids@),
                p == |id: ProposalIdView| self@.is_under_review(id),
                n == count(s.take(i as int), p),
                n <= i,
            decreases ids.len() - i,
        {
            proof {
                lemma_count_step(s, p, i as int);
            }
            match self.proposals.get(&ids[i]) {
                Some(proposal) => {
                    if let ProposalStatus::Rejected { report_id: Some(_), .. } = &proposal.status {
                        n += 1;
                    }
                },
                None => {},
            }
            i += 1;
        }
        proof {
            assert(s.take(i as int) =~= s);
        }
        n
    }

    /// The admins who decided proposals among `ids`, in the order of the
    /// proposals.
    pub fn collect_adjudicators(&self, ids: &Vec<ProposalId>) -> (who: Vec<AccountId>)
        ensures
            views(who@) == self@.adjudicators(views(ids@)),
    {
        let ghost s = views(ids@);
        let mut who: Vec<AccountId> = Vec::new();
        let mut i: usize = 0;
        proof {
            assert(s.take(0) =~= Seq::<ProposalIdView>::empty());
            assert(views(who@) =~= self@.adjudicators(s.take(0)));
        }
        while i < ids.len()
            invariant
                i <= ids.len(),
                s == views(ids@),
                views(who@) == self@.adjudicators(s.take(i as int)),
            decreases ids.len() - i,
        {
            let ghost before = who@;
            proof {
                assert(s.take(i + 1).drop_last() =~= s.take(i as int));
                assert(s.take(i + 1).last() == s[i as int]);
            }
            match self.proposals.get(&ids[i]) {
                Some(proposal) => {
                    match &proposal.status {
                        ProposalStatus::ApprovedByAdmin { account_id } => {
                            who.push(account_id.clone());
                            proof {
                                assert(views(who@) =~= views(before).push(account_id@));
                            }
                        },
                        ProposalStatus::RejectedByAdmin { account_id } => {
                            who.push(account_id.clone());
                            proof {
                                assert(views(who@) =~= views(before).push(account_id@));
                            }
                        },
                        _ => {},
                    }
                },
                None => {},
            }
            i += 1;
        }
        proof {
            assert(s.take(i as int) =~= s);
        }
        who
    }

    /// A marketplace without any records, under the default configuration.
    pub fn new() -> (d: Dwork)
        ensures
            d@ == DworkView::empty(),
    {
        Dwork {
            accounts: Table::new(),
            admins: KeySet::new(),
            app_config: AppConfig::default(),
            task_records: Table::new(),
            proposals: Table::new(),
            reports: Table::new(),
            categories: Table::new(),
            pending_transfers: KeySet::new(),
        }
    }
}

} // verus!
