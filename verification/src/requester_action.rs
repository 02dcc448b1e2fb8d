//! What a requester does: post a task, decide on proposals, settle the task.

use vstd::prelude::*;
use vstd::arithmetic::div_mod::lemma_hoist_over_denominator;
use crate::categories::CategoryView;
use crate::proposal::{ProposalId, ProposalIdView, ProposalStatus, ProposalStatusView, ProposalView};
use crate::state::{Dwork, DworkView, carried_out};
use crate::table::{Record, Table, views, with_member};
use crate::task::{Task, TaskView};
use crate::types::{
    AccountId, Balance, CallContext, CallContextView, CategoryId, Duration, Error, TaskId, Timestamp,
};
use crate::utils::{byte_len, make_task_id, task_id_of, text_len};

verus! {

/// How the money that a task has left is handed out when the task is settled.
#[derive(Clone, Debug, PartialEq, Eq)]
pub struct Settlement {
    /// What goes back to the owner.
    pub refund: Balance,
    /// What goes to each entry of `beneficiaries`.
    pub share: Balance,
    /// The admins who decided reports on the task, one entry for each decision.
    pub beneficiaries: Vec<AccountId>,
}

/// The mathematical content of a `Settlement`.
pub ghost struct SettlementView {
    pub refund: Balance,
    pub share: Balance,
    pub beneficiaries: Seq<Seq<char>>,
}

impl View for Settlement {
    type V = SettlementView;

    open spec fn view(&self) -> SettlementView {
        SettlementView {
            refund: self.refund,
            share: self.share,
            beneficiaries: views(self.beneficiaries@),
        }
    }
}

/// What a task costs its owner: the price for every participant and the
/// service fee on that.
pub open spec fn task_cost(price: Balance, max_participants: u16, fee_percent: u16) -> int {
    price * max_participants + (price * max_participants) * fee_percent / 100
}

/// Computes what a task costs its owner, unless that is more than an amount
/// can hold.
pub fn cost_of(price: Balance, max_participants: u16, fee_percent: u16) -> (r: Option<Balance>)
    ensures
        match r {
            Some(c) => c == task_cost(price, max_participants, fee_percent),
            None => task_cost(price, max_participants, fee_percent) > u128::MAX,
        },
{
    let base = match price.checked_mul(max_participants as u128) {
        Some(b) => b,
        None => {
            assert((price * max_participants) * fee_percent / 100 >= 0) by (nonlinear_arith)
                requires
                    price * max_participants >= 0,
                    fee_percent >= 0,
            ;
            return None;
        },
    };
    let whole: u128 = base / 100;
    let rest: u128 = base % 100;
    let percent: u128 = fee_percent as u128;
    assert(rest * percent <= 99 * 65535) by (nonlinear_arith)
        requires
            rest <= 99,
            percent <= 65535,
    ;
    let small: u128 = rest * percent / 100;
    proof {
        lemma_hoist_over_denominator(rest * percent, whole * percent, 100);
        assert(rest * percent + (whole * percent) * 100 == base * percent) by (nonlinear_arith)
            requires
                base == 100 * whole + rest,
        ;
        assert(base * fee_percent / 100 == whole * percent + small);
    }
    let large = match whole.checked_mul(percent) {
        Some(l) => l,
        None => return None,
    };
    let fee = match large.checked_add(small) {
        Some(f) => f,
        None => return None,
    };
    base.checked_add(fee)
}

impl DworkView {
    /// The rule of `new_task`. The caller needs an account and the category
    /// must exist. The identifier that is derived from the caller and the
    /// sequence number must be new. The cost must lie in the configured range
    /// and be attached exactly, the title and the description must keep to
    /// their lengths, and the task must not ask for more participants than a
    /// task can have. The task is then recorded with the attached amount as
    /// its budget, its category counts one more post, and the caller has one
    /// more current job.
    pub open spec fn new_task(
        self,
        ctx: CallContextView,
        title: Seq<char>,
        description: Seq<char>,
        price: Balance,
        max_participants: u16,
        duration: Duration,
        category_id: Seq<char>,
    ) -> Result<DworkView, Error> {
        let owner = ctx.predecessor_account_id;
        let id = task_id_of(owner, ctx.block_index);
        let cost = task_cost(price, max_participants, self.app_config.service_fee_percent);
        let now = ctx.block_timestamp;
        if !self.accounts.contains_key(owner) || !self.categories.contains_key(category_id) {
            Err(Error::NotFound)
        } else if self.tasks.contains_key(id) {
            Err(Error::DuplicateTask)
        } else if cost < self.app_config.minimum_reward_per_task || cost
            > self.app_config.maximum_reward_per_task || byte_len(description)
            > self.app_config.maximum_description_length || byte_len(title)
            > self.app_config.maximum_title_length || max_participants
            > self.app_config.maximum_proposals_at_one_time || ctx.attached_deposit != cost || now
            + duration > u64::MAX || self.categories[category_id].num_posts + 1 > u64::MAX {
            Err(Error::Validation)
        } else {
            Ok(
                DworkView {
                    tasks: self.tasks.insert(
                        id,
                        TaskView {
                            owner,
                            title,
                            description,
                            max_participants,
                            price,
                            budget: cost as Balance,
                            proposals: Seq::empty(),
                            created_at: now,
                            last_rejection_published_at: None,
                            submit_available_until: (now + duration) as Timestamp,
                            category_id,
                            completed: false,
                        },
                    ),
                    task_order: with_member(self.task_order, id),
                    categories: self.categories.insert(
                        category_id,
                        CategoryView {
                            num_posts: (self.categories[category_id].num_posts + 1) as u64,
                            ..self.categories[category_id]
                        },
                    ),
                    accounts: self.accounts.insert(owner, self.accounts[owner].join(id)),
                    ..self
                },
            )
        }
    }

    /// What the rules ask before the owner can decide on a proposal: the task
    /// exists, is the caller's and is not settled, and the proposal of the
    /// worker exists, is listed by the task and is pending.
    pub open spec fn undecided(self, ctx: CallContextView, task_id: Seq<char>, worker_id: Seq<char>) -> Result<
        (),
        Error,
    > {
        let id = ProposalIdView { task_id, account_id: worker_id };
        if !self.tasks.contains_key(task_id) {
            Err(Error::NotFound)
        } else if self.tasks[task_id].owner != ctx.predecessor_account_id {
            Err(Error::Authorization)
        } else if self.tasks[task_id].completed {
            Err(Error::StateConflict)
        } else if !self.tasks[task_id].proposals.contains(id) || !self.proposals.contains_key(id) {
            Err(Error::NotFound)
        } else if !(self.proposals[id].status is Pending) {
            Err(Error::StateConflict)
        } else {
            Ok(())
        }
    }

    /// The rule of `approve_work`. Where the owner can decide on the proposal
    /// and the task has a place left, fewer of its proposals standing approved
    /// by the owner or by an admin than it can have participants, the proposal
    /// becomes approved, and the worker gets the price as a locked balance and
    /// a small reputation bonus.
    pub open spec fn approve_work(self, ctx: CallContextView, task_id: Seq<char>, worker_id: Seq<char>) -> Result<
        DworkView,
        Error,
    > {
        let id = ProposalIdView { task_id, account_id: worker_id };
        match self.undecided(ctx, task_id, worker_id) {
            Err(e) => Err(e),
            Ok(_) => {
                let task = self.tasks[task_id];
                let release_at = self.release_time(task, ctx.block_timestamp);
                let bonus = self.app_config.sml_plus as u32;
                if self.entitled_count(task.proposals) >= task.max_participants {
                    Err(Error::StateConflict)
                } else if !self.accounts.contains_key(worker_id) {
                    Err(Error::NotFound)
                } else if release_at > u64::MAX || !self.accounts[worker_id].pos_fits(bonus) {
                    Err(Error::Validation)
                } else {
                    Ok(
                        DworkView {
                            proposals: self.proposals.insert(
                                id,
                                ProposalView {
                                    status: ProposalStatusView::Approved,
                                    ..self.proposals[id]
                                },
                            ),
                            accounts: self.accounts.insert(
                                worker_id,
                                self.accounts[worker_id].lock(
                                    task_id,
                                    task.price,
                                    release_at as Timestamp,
                                ).add_pos_point(bonus),
                            ),
                            ..self
                        },
                    )
                }
            },
        }
    }

    /// The rule of `reject_work`. Where the owner can decide on the proposal,
    /// it becomes rejected now for the given reason, with no report against
    /// it, and the task records now as the time of its last rejection.
    pub open spec fn reject_work(
        self,
        ctx: CallContextView,
        task_id: Seq<char>,
        worker_id: Seq<char>,
        reason: Seq<char>,
    ) -> Result<DworkView, Error> {
        let id = ProposalIdView { task_id, account_id: worker_id };
        match self.undecided(ctx, task_id, worker_id) {
            Err(e) => Err(e),
            Ok(_) => Ok(
                DworkView {
                    proposals: self.proposals.insert(
                        id,
                        ProposalView {
                            status: ProposalStatusView::Rejected {
                                reason,
                                reject_at: ctx.block_timestamp,
                                report_id: None,
                            },
                            ..self.proposals[id]
                        },
                    ),
                    tasks: self.tasks.insert(
                        task_id,
                        TaskView {
                            last_rejection_published_at: Some(ctx.block_timestamp),
                            ..self.tasks[task_id]
                        },
                    ),
                    ..self
                },
            ),
        }
    }

    /// What the budget of task `task_id` leaves once every proposal that the
    /// owner approved is paid its price.
    pub open spec fn remainder(self, task_id: Seq<char>) -> int {
        let task = self.tasks[task_id];
        task.budget - task.price * self.approved_count(task.proposals)
    }

    /// How the remainder of task `task_id` is handed out: to the owner, or,
    /// where admins had to decide reports, in equal shares to them.
    pub open spec fn settlement(self, task_id: Seq<char>) -> SettlementView {
        let who = self.adjudicators(self.tasks[task_id].proposals);
        if who.len() > 0 {
            SettlementView {
                refund: 0,
                share: (self.remainder(task_id) / (who.len() as int)) as Balance,
                beneficiaries: who,
            }
        } else {
            SettlementView {
                refund: self.remainder(task_id) as Balance,
                share: 0,
                beneficiaries: who,
            }
        }
    }

    /// The rule of `mark_task_as_completed`. Only the owner settles a task, and
    /// only once. A task without proposals can be settled when its submission
    /// deadline has passed. A task with proposals can be settled when no
    /// report on it awaits a decision and the release window after its last
    /// rejection has passed. The owner then counts the task as completed, has
    /// spent the budget less the refund, and gains a small reputation bonus.
    pub open spec fn mark_task_as_completed(self, ctx: CallContextView, task_id: Seq<char>) -> Result<
        DworkView,
        Error,
    > {
        if !self.tasks.contains_key(task_id) {
            Err(Error::NotFound)
        } else if !self.accounts.contains_key(self.tasks[task_id].owner) {
            Err(Error::NotFound)
        } else {
            let task = self.tasks[task_id];
            let owner = self.accounts[task.owner];
            let now = ctx.block_timestamp;
            let bonus = self.app_config.sml_plus as u32;
            let spent = task.budget - self.settlement(task_id).refund;
            if task.owner != ctx.predecessor_account_id {
                Err(Error::Authorization)
            } else if task.completed {
                Err(Error::AlreadyCompleted)
            } else if task.proposals.len() == 0 && now < task.submit_available_until {
                Err(Error::Timing)
            } else if self.under_review_count(task.proposals) > 0 {
                Err(Error::StateConflict)
            } else if task.proposals.len() > 0 && task.last_rejection_published_at is Some && now
                <= task.last_rejection_published_at->0 + self.app_config.release_window() {
                Err(Error::Timing)
            } else if self.remainder(task_id) < 0 || owner.total_spent + spent > u128::MAX
                || !owner.pos_fits(bonus) {
                Err(Error::Validation)
            } else {
                Ok(
                    DworkView {
                        tasks: self.tasks.insert(task_id, TaskView { completed: true, ..task }),
                        accounts: self.accounts.insert(
                            task.owner,
                            owner.finish(task_id).spend(spent as Balance).add_pos_point(bonus),
                        ),
                        ..self
                    },
                )
            }
        }
    }
}

/// Where the records stand that the owner's decision on a proposal works on.
pub(crate) struct Decision {
    pub(crate) task: usize,
    pub(crate) proposal: usize,
}

impl Dwork {
    /// Posts a task for the caller and returns its identifier.
    pub fn new_task(
        &mut self,
        ctx: &CallContext,
        title: String,
        description: String,
        price: Balance,
        max_participants: u16,
        duration: Duration,
        category_id: CategoryId,
    ) -> (r: Result<TaskId, Error>)
        ensures
            carried_out(
                old(self)@.new_task(
                    ctx@,
                    title@,
                    description@,
                    price,
                    max_participants,
                    duration,
                    category_id@,
                ),
                old(self)@,
                final(self)@,
                r,
            ),
            r matches Ok(id) ==> id@ == task_id_of(ctx@.predecessor_account_id, ctx@.block_index),
    {
        let oi = match self.accounts.index_of(&ctx.predecessor_account_id) {
            Some(i) => i,
            None => return Err(Error::NotFound),
        };
        let ci = match self.categories.index_of(&category_id) {
            Some(i) => i,
            None => return Err(Error::NotFound),
        };
        let id = make_task_id(&ctx.predecessor_account_id, ctx.block_index);
        if self.task_records.contains_key(&id) {
            return Err(Error::DuplicateTask);
        }
        let cost = match cost_of(price, max_participants, self.app_config.service_fee_percent) {
            Some(c) => c,
            None => return Err(Error::Validation),
        };
        let now = ctx.block_timestamp;
        if cost < self.app_config.minimum_reward_per_task || cost
            > self.app_config.maximum_reward_per_task || text_len(&description)
            > self.app_config.maximum_description_length as usize || text_len(&title)
            > self.app_config.maximum_title_length as usize || max_participants
            > self.app_config.maximum_proposals_at_one_time || ctx.attached_deposit != cost
            || duration > u64::MAX - now || self.categories.entries[ci].value.num_posts
            == u64::MAX {
            return Err(Error::Validation);
        }
        let task = Task {
            owner: ctx.predecessor_account_id.clone(),
            title,
            description,
            max_participants,
            price,
            budget: cost,
            proposals: Vec::new(),
            created_at: now,
            last_rejection_published_at: None,
            submit_available_until: now + duration,
            category_id,
            completed: false,
        };
        assert(task@.proposals =~= Seq::<ProposalIdView>::empty());
        let ghost accounts_before = self.accounts;
        let ghost categories_before = self.categories;
        self.task_records.insert(id.duplicate(), task);
        self.categories.entries[ci].value.num_posts += 1;
        self.accounts.entries[oi].value.join(id.duplicate());
        proof {
            Table::lemma_changed_at(accounts_before, self.accounts, oi as int);
            Table::lemma_changed_at(categories_before, self.categories, ci as int);
        }
        Ok(id)
    }

    /// Checks that the caller can decide on the proposal of `worker_id` for
    /// `task_id` and finds the records that the decision works on.
    pub(crate) fn find_undecided(&self, ctx: &CallContext, task_id: &TaskId, worker_id: &AccountId) -> (r: Result<
        Decision,
        Error,
    >)
        ensures
            match r {
                Ok(d) => {
                    let id = ProposalIdView { task_id: task_id@, account_id: worker_id@ };
                    &&& self@.undecided(ctx@, task_id@, worker_id@) is Ok
                    &&& crate::table::is_first(self.task_records.keys(), task_id@, d.task as int)
                    &&& crate::table::is_first(self.proposals.keys(), id, d.proposal as int)
                    &&& self.task_records.entries[d.task as int].value@ == self@.tasks[task_id@]
                    &&& self.proposals.entries[d.proposal as int].value@ == self@.proposals[id]
                },
                Err(e) => self@.undecided(ctx@, task_id@, worker_id@) == Err::<(), Error>(e),
            },
    {
        let ti = match self.task_records.index_of(task_id) {
            Some(i) => i,
            None => return Err(Error::NotFound),
        };
        let task = &self.task_records.entries[ti].value;
        if !(task.owner == ctx.predecessor_account_id) {
            return Err(Error::Authorization);
        }
        if task.completed {
            return Err(Error::StateConflict);
        }
        let id = ProposalId { task_id: task_id.clone(), account_id: worker_id.clone() };
        if !Dwork::lists(&task.proposals, &id) {
            return Err(Error::NotFound);
        }
        let pi = match self.proposals.index_of(&id) {
            Some(i) => i,
            None => return Err(Error::NotFound),
        };
        match self.proposals.entries[pi].value.status {
            ProposalStatus::Pending => {},
            _ => return Err(Error::StateConflict),
        }
        Ok(Decision { task: ti, proposal: pi })
    }

    /// Approves the work of `worker_id` on `task_id`.
    pub fn approve_work(&mut self, ctx: &CallContext, task_id: TaskId, worker_id: AccountId) -> (r: Result<
        (),
        Error,
    >)
        ensures
            carried_out(
                old(self)@.approve_work(ctx@, task_id@, worker_id@),
                old(self)@,
                final(self)@,
                r,
            ),
    {
        let d = match self.find_undecided(ctx, &task_id, &worker_id) {
            Ok(d) => d,
            Err(e) => return Err(e),
        };
        let task = &self.task_records.entries[d.task].value;
        if self.count_entitled(&task.proposals) >= task.max_participants as usize {
            return Err(Error::StateConflict);
        }
        let wi = match self.accounts.index_of(&worker_id) {
            Some(i) => i,
            None => return Err(Error::NotFound),
        };
        let release_at = match self.release_time(task, ctx.block_timestamp) {
            Some(t) => t,
            None => return Err(Error::Validation),
        };
        let bonus: u32 = self.app_config.sml_plus as u32;
        if self.accounts.entries[wi].value.pos_point > u32::MAX - bonus {
            return Err(Error::Validation);
        }
        let price = task.price;
        let ghost proposals_before = self.proposals;
        let ghost accounts_before = self.accounts;
        self.proposals.entries[d.proposal].value.status = ProposalStatus::Approved;
        self.accounts.entries[wi].value.lock(task_id, price, release_at);
        self.accounts.entries[wi].value.add_pos_point(bonus);
        proof {
            Table::lemma_changed_at(proposals_before, self.proposals, d.proposal as int);
            Table::lemma_changed_at(accounts_before, self.accounts, wi as int);
        }
        Ok(())
    }

    /// Rejects the work of `worker_id` on `task_id` for `reason`.
    pub fn reject_work(
        &mut self,
        ctx: &CallContext,
        task_id: TaskId,
        worker_id: AccountId,
        reason: String,
    ) -> (r: Result<(), Error>)
        ensures
            carried_out(
                old(self)@.reject_work(ctx@, task_id@, worker_id@, reason@),
                old(self)@,
                final(self)@,
                r,
            ),
    {
        let d = match self.find_undecided(ctx, &task_id, &worker_id) {
            Ok(d) => d,
            Err(e) => return Err(e),
        };
        let ghost proposals_before = self.proposals;
        let ghost tasks_before = self.task_records;
        self.proposals.entries[d.proposal].value.status = ProposalStatus::Rejected {
            reason,
            reject_at: ctx.block_timestamp,
            report_id: None,
        };
        self.task_records.entries[d.task].value.last_rejection_published_at = Some(
            ctx.block_timestamp,
        );
        proof {
            Table::lemma_changed_at(proposals_before, self.proposals, d.proposal as int);
            Table::lemma_changed_at(tasks_before, self.task_records, d.task as int);
        }
        Ok(())
    }

    /// Settles the task `task_id` and tells how its remaining money is handed
    /// out.
    pub fn mark_task_as_completed(&mut self, ctx: &CallContext, task_id: TaskId) -> (r: Result<
        Settlement,
        Error,
    >)
        ensures
            carried_out(
                old(self)@.mark_task_as_completed(ctx@, task_id@),
                old(self)@,
                final(self)@,
                r,
            ),
            r matches Ok(s) ==> s@ == old(self)@.settlement(task_id@),
    {
        let ti = match self.task_records.index_of(&task_id) {
            Some(i) => i,
            None => return Err(Error::NotFound),
        };
        let oi = match self.accounts.index_of(&self.task_records.entries[ti].value.owner) {
            Some(i) => i,
            None => return Err(Error::NotFound),
        };
        let task = &self.task_records.entries[ti].value;
        let now = ctx.block_timestamp;
        if !(task.owner == ctx.predecessor_account_id) {
            return Err(Error::Authorization);
        }
        if task.completed {
            return Err(Error::AlreadyCompleted);
        }
        if task.proposals.len() == 0 && now < task.submit_available_until {
            return Err(Error::Timing);
        }
        if self.count_under_review(&task.proposals) > 0 {
            return Err(Error::StateConflict);
        }
        if task.proposals.len() > 0 {
            if let Some(t) = task.last_rejection_published_at {
                let end: u128 = t as u128 + self.app_config.report_interval as u128
                    + self.app_config.validate_report_interval as u128;
                if now as u128 <= end {
                    return Err(Error::Timing);
                }
            }
        }
        let approved = self.count_approved(&task.proposals);
        let beneficiaries = self.collect_adjudicators(&task.proposals);
        let paid = match task.price.checked_mul(approved as u128) {
            Some(p) => p,
            None => return Err(Error::Validation),
        };
        let remainder = match task.budget.checked_sub(paid) {
            Some(p) => p,
            None => return Err(Error::Validation),
        };
        let n = beneficiaries.len();
        let refund = if n > 0 {
            0
        } else {
            remainder
        };
        let share = if n > 0 {
            remainder / (n as u128)
        } else {
            0
        };
        let spent = task.budget - refund;
        let bonus: u32 = self.app_config.sml_plus as u32;
        if self.accounts.entries[oi].value.total_spent > u128::MAX - spent
            || self.accounts.entries[oi].value.pos_point > u32::MAX - bonus {
            return Err(Error::Validation);
        }
        let ghost accounts_before = self.accounts;
        let ghost tasks_before = self.task_records;
        self.task_records.entries[ti].value.completed = true;
        self.accounts.entries[oi].value.finish(&task_id);
        self.accounts.entries[oi].value.spend(spent);
        self.accounts.entries[oi].value.add_pos_point(bonus);
        proof {
            Table::lemma_changed_at(accounts_before, self.accounts, oi as int);
            Table::lemma_changed_at(tasks_before, self.task_records, ti as int);
        }
        Ok(Settlement { refund, share, beneficiaries })
    }
}

} // verus!
