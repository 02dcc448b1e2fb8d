//! The configuration of the marketplace.

use vstd::prelude::*;
use crate::proposal::{ProposalId, ProposalIdView, ProposalStatus, ProposalStatusView, ProposalView, late};
use crate::report::{ReportId, ReportIdView, ReportStatus, ReportView};
use crate::state::{Dwork, DworkView, carried_out};
use crate::table::{Table, with_member, without};
use crate::types::{AccountId, Balance, CallContext, CallContextView, Error, TaskId, Timestamp};
use crate::utils::assert_one_yocto;

verus! {

/// Whether the marketplace accepts calls.
#[derive(Clone, Copy, Debug, PartialEq, Eq, Structural)]
pub enum RunningState {
    Running,
    Paused,
}

impl RunningState {
    /// The name of the state, as it is written in messages.
    pub open spec fn name_spec(self) -> Seq<char> {
        match self {
            RunningState::Running => "Running"@,
            RunningState::Paused => "Paused"@,
        }
    }

    /// The name of the state, as it is written in messages.
    pub fn name(&self) -> (s: String)
        ensures
            s@ == self.name_spec(),
    {
        match self {
            RunningState::Running => String::from_str("Running"),
            RunningState::Paused => String::from_str("Paused"),
        }
    }
}

/// The parameters under which the marketplace runs.
#[derive(Clone, Copy, Debug, PartialEq, Eq)]
pub struct AppConfig {
    pub running_state: RunningState,
    /// What a party attaches to register.
    pub register_bond: Balance,
    /// What a worker attaches to submit a proposal.
    pub submit_bond: Balance,
    /// How long a rejected worker may file a report.
    pub report_interval: Timestamp,
    /// How long an admin has to decide a report.
    pub validate_report_interval: Timestamp,
    pub minimum_reward_per_task: Balance,
    pub maximum_reward_per_task: Balance,
    pub maximum_description_length: u16,
    pub maximum_cover_letter_length: u16,
    pub maximum_proposals_at_one_time: u16,
    pub maximum_requests_active_per_user: u16,
    pub maximum_title_length: u16,
    pub minimum_deposit: Balance,
    pub maximum_deposit: Balance,
    pub big_plus: u16,
    pub med_plus: u16,
    pub sml_plus: u16,
    pub big_minus: u16,
    pub med_minus: u16,
    pub sml_minus: u16,
    pub claim_point_bonus: u32,
    pub critical_point: u16,
    /// The service fee that is added to the cost of a task, in percent.
    pub service_fee_percent: u16,
}

impl AppConfig {
    /// The configuration of a new marketplace.
    pub open spec fn initial() -> AppConfig {
        AppConfig {
            running_state: RunningState::Running,
            register_bond: 500_000_000_000_000_000_000_000,
            submit_bond: 10_000_000_000_000_000_000_000,
            report_interval: 172_800_000_000_000,
            validate_report_interval: 259_200_000_000_000,
            minimum_reward_per_task: 10_000_000_000_000_000_000_000,
            maximum_reward_per_task: 100_000_000_000_000_000_000_000_000,
            maximum_description_length: 10000,
            maximum_cover_letter_length: 10000,
            maximum_proposals_at_one_time: 200,
            maximum_requests_active_per_user: 10,
            maximum_title_length: 100,
            minimum_deposit: 100_000_000_000_000_000_000_000,
            maximum_deposit: 500_000_000_000_000_000_000_000_000,
            big_plus: 15,
            med_plus: 10,
            sml_plus: 5,
            big_minus: 20,
            med_minus: 15,
            sml_minus: 10,
            claim_point_bonus: 10,
            critical_point: 85,
            service_fee_percent: 0,
        }
    }

    /// The release window: the longest time for which money stays locked after
    /// a rejection on a task.
    pub open spec fn release_window(self) -> int {
        self.report_interval + self.validate_report_interval
    }
}

impl Default for AppConfig {
    /// Two days to report, three days to decide, no service fee.
    fn default() -> (c: AppConfig)
        ensures
            c == AppConfig::initial(),
    {
        AppConfig {
            running_state: RunningState::Running,
            register_bond: 500_000_000_000_000_000_000_000,
            submit_bond: 10_000_000_000_000_000_000_000,
            report_interval: 172_800_000_000_000,
            validate_report_interval: 259_200_000_000_000,
            minimum_reward_per_task: 10_000_000_000_000_000_000_000,
            maximum_reward_per_task: 100_000_000_000_000_000_000_000_000,
            maximum_description_length: 10000,
            maximum_cover_letter_length: 10000,
            maximum_proposals_at_one_time: 200,
            maximum_requests_active_per_user: 10,
            maximum_title_length: 100,
            minimum_deposit: 100_000_000_000_000_000_000_000,
            maximum_deposit: 500_000_000_000_000_000_000_000_000,
            big_plus: 15,
            med_plus: 10,
            sml_plus: 5,
            big_minus: 20,
            med_minus: 15,
            sml_minus: 10,
            claim_point_bonus: 10,
            critical_point: 85,
            service_fee_percent: 0,
        }
    }
}

/// The party that may always give and take admin rights.
pub open spec fn root_admin() -> Seq<char> {
    "neilharan.testnet"@
}

impl DworkView {
    /// Whether `account_id` may decide reports.
    pub open spec fn is_admin(self, account_id: Seq<char>) -> bool {
        self.admins.contains(account_id)
    }

    /// Whether the caller may give and take admin rights: the root admin and
    /// the marketplace itself may.
    pub open spec fn may_appoint(ctx: CallContextView) -> bool {
        ctx.predecessor_account_id == root_admin() || ctx.predecessor_account_id
            == ctx.current_account_id
    }

    /// The rule of `add_admin`: the caller may appoint, and `account_id`, which
    /// is no admin yet, becomes one.
    pub open spec fn add_admin(self, ctx: CallContextView, account_id: Seq<char>) -> Result<DworkView, Error> {
        if !Self::may_appoint(ctx) {
            Err(Error::Authorization)
        } else if self.is_admin(account_id) {
            Err(Error::StateConflict)
        } else {
            Ok(DworkView { admins: with_member(self.admins, account_id), ..self })
        }
    }

    /// The rule of `remove_admin`: the caller may appoint, and `account_id`,
    /// which is an admin, is one no longer.
    pub open spec fn remove_admin(self, ctx: CallContextView, account_id: Seq<char>) -> Result<
        DworkView,
        Error,
    > {
        if !Self::may_appoint(ctx) {
            Err(Error::Authorization)
        } else if !self.is_admin(account_id) {
            Err(Error::StateConflict)
        } else {
            Ok(DworkView { admins: without(self.admins, account_id), ..self })
        }
    }

    /// The rule of `change_config`: each value that is given replaces the
    /// configured one.
    pub open spec fn change_config(
        self,
        register_bond: Option<Balance>,
        submit_bond: Option<Balance>,
        min_reward: Option<Balance>,
        max_reward: Option<Balance>,
    ) -> DworkView {
        DworkView {
            app_config: AppConfig {
                register_bond: match register_bond {
                    Some(v) => v,
                    None => self.app_config.register_bond,
                },
                submit_bond: match submit_bond {
                    Some(v) => v,
                    None => self.app_config.submit_bond,
                },
                minimum_reward_per_task: match min_reward {
                    Some(v) => v,
                    None => self.app_config.minimum_reward_per_task,
                },
                maximum_reward_per_task: match max_reward {
                    Some(v) => v,
                    None => self.app_config.maximum_reward_per_task,
                },
                ..self.app_config
            },
            ..self
        }
    }

    /// The rule of `change_state`: the caller attaches exactly one unit, and
    /// only an admin sets a paused marketplace running again.
    pub open spec fn change_state(self, ctx: CallContextView, state: RunningState) -> Result<DworkView, Error> {
        if ctx.attached_deposit != 1 {
            Err(Error::Validation)
        } else if self.app_config.running_state != state && state == RunningState::Running
            && !self.is_admin(ctx.predecessor_account_id) {
            Err(Error::Authorization)
        } else {
            Ok(DworkView { app_config: AppConfig { running_state: state, ..self.app_config }, ..self })
        }
    }

    /// The proposal `id` loses its approval because the task had no room for
    /// it: it stands rejected as late from `now` on, and its worker's locked
    /// balance for the task is dropped.
    pub open spec fn demote(self, task_id: Seq<char>, id: ProposalIdView, now: Timestamp) -> DworkView {
        let proposal = self.proposals[id];
        DworkView {
            proposals: self.proposals.insert(
                id,
                ProposalView {
                    status: ProposalStatusView::Rejected {
                        reason: late(),
                        reject_at: now,
                        report_id: None,
                    },
                    ..proposal
                },
            ),
            accounts: if self.accounts.contains_key(proposal.account_id) {
                self.accounts.insert(
                    proposal.account_id,
                    self.accounts[proposal.account_id].unlock(task_id),
                )
            } else {
                self.accounts
            },
            ..self
        }
    }

    /// The proposals `ids` are gone through in the order of their submission.
    /// The first `places` of them that stand approved by the owner keep their
    /// approval, and every later one is demoted. The result is the marketplace
    /// after that, and how many approvals were kept.
    pub open spec fn withdraw_late(
        self,
        task_id: Seq<char>,
        ids: Seq<ProposalIdView>,
        places: nat,
        now: Timestamp,
    ) -> (DworkView, nat)
        decreases ids.len(),
    {
        if ids.len() == 0 {
            (self, 0)
        } else {
            let (s, kept) = self.withdraw_late(task_id, ids.drop_last(), places, now);
            if !s.is_approved(ids.last()) {
                (s, kept)
            } else if kept >= places {
                (s.demote(task_id, ids.last(), now), kept)
            } else {
                (s, kept + 1)
            }
        }
    }

    /// The places that the proposals `ids` leave to approvals by the owner,
    /// where `max` workers can be paid: those that the approvals by admins
    /// have not taken.
    pub open spec fn places_left(self, ids: Seq<ProposalIdView>, max: nat) -> nat {
        if self.reinstated_count(ids) <= max {
            (max - self.reinstated_count(ids)) as nat
        } else {
            0
        }
    }

    /// The proposals `ids` of a task are held to the cap of `max` paid workers.
    /// The proposals that an admin approved come first, wherever they stand
    /// in the list. The places that they leave go to the proposals that the
    /// owner approved, in the order of their submission, and an approval by
    /// the owner for which no place is left is withdrawn.
    pub open spec fn enforce_cap(
        self,
        task_id: Seq<char>,
        ids: Seq<ProposalIdView>,
        max: nat,
        now: Timestamp,
    ) -> DworkView {
        self.withdraw_late(task_id, ids, self.places_left(ids, max), now).0
    }

    /// The proposal that a report is about.
    pub open spec fn disputed(report: ReportView) -> ProposalIdView {
        ProposalIdView { task_id: report.task_id, account_id: report.account_id }
    }

    /// What the rules ask of a report before an admin can decide it: the
    /// report exists and is pending, the caller is an admin, and the proposal
    /// that it is about exists, is listed by its task and is under review.
    pub open spec fn decidable(self, ctx: CallContextView, report_id: ReportIdView) -> Result<(), Error> {
        if !self.reports.contains_key(report_id) {
            Err(Error::NotFound)
        } else {
            let report = self.reports[report_id];
            let id = Self::disputed(report);
            if !self.is_admin(ctx.predecessor_account_id) {
                Err(Error::Authorization)
            } else if report.status != ReportStatus::Pending {
                Err(Error::StateConflict)
            } else if !self.tasks.contains_key(report.task_id)
                || !self.tasks[report.task_id].proposals.contains(id)
                || !self.proposals.contains_key(id) {
                Err(Error::NotFound)
            } else if !self.proposals[id].status.under_review() {
                Err(Error::StateConflict)
            } else if !self.accounts.contains_key(report.account_id) {
                Err(Error::NotFound)
            } else {
                Ok(())
            }
        }
    }

    /// The marketplace after the report `report_id` has been decided for the
    /// worker, before the task's proposals are held to the cap: the report
    /// is approved, the proposal is approved by the admin, the worker has got
    /// the price as a locked balance and a small reputation bonus, and the
    /// owner a large reputation penalty.
    pub open spec fn reinstate(self, ctx: CallContextView, report_id: ReportIdView) -> DworkView {
        let report = self.reports[report_id];
        let id = Self::disputed(report);
        let task = self.tasks[report.task_id];
        let paid = self.accounts.insert(
            report.account_id,
            self.accounts[report.account_id].add_pos_point(self.app_config.sml_plus as u32).lock(
                report.task_id,
                task.price,
                self.release_time(task, ctx.block_timestamp) as Timestamp,
            ),
        );
        DworkView {
            reports: self.reports.insert(
                report_id,
                ReportView { status: ReportStatus::Approved, ..report },
            ),
            proposals: self.proposals.insert(
                id,
                ProposalView {
                    status: ProposalStatusView::ApprovedByAdmin {
                        account_id: ctx.predecessor_account_id,
                    },
                    ..self.proposals[id]
                },
            ),
            accounts: paid.insert(
                task.owner,
                paid[task.owner].add_neg_point(self.app_config.big_minus as u32),
            ),
            ..self
        }
    }

    /// The rule of `approve_report`. The report can be decided, the owner has
    /// an account, the approvals by admins have not yet taken every place of
    /// the task, and the points and the release time stay in their ranges.
    /// The report is then decided for the worker, and the task's proposals are
    /// held to the cap on participants: an approval by the owner for which the
    /// reinstated proposal has left no place is withdrawn, the latest
    /// submission first.
    pub open spec fn approve_report(self, ctx: CallContextView, report_id: ReportIdView) -> Result<
        DworkView,
        Error,
    > {
        match self.decidable(ctx, report_id) {
            Err(e) => Err(e),
            Ok(_) => {
                let report = self.reports[report_id];
                let task = self.tasks[report.task_id];
                let now = ctx.block_timestamp;
                if !self.accounts.contains_key(task.owner) {
                    Err(Error::NotFound)
                } else if self.reinstated_count(task.proposals) >= task.max_participants {
                    Err(Error::StateConflict)
                } else if self.release_time(task, now) > u64::MAX
                    || !self.accounts[report.account_id].pos_fits(self.app_config.sml_plus as u32)
                    || !self.accounts[task.owner].neg_fits(self.app_config.big_minus as u32) {
                    Err(Error::Validation)
                } else {
                    Ok(
                        self.reinstate(ctx, report_id).enforce_cap(
                            report.task_id,
                            task.proposals,
                            task.max_participants as nat,
                            now,
                        ),
                    )
                }
            },
        }
    }

    /// The rule of `reject_report`. Where the report can be decided, it
    /// becomes rejected, the proposal becomes rejected by the admin, and the
    /// worker gets a medium reputation penalty. No money moves.
    pub open spec fn reject_report(self, ctx: CallContextView, report_id: ReportIdView) -> Result<
        DworkView,
        Error,
    > {
        match self.decidable(ctx, report_id) {
            Err(e) => Err(e),
            Ok(_) => {
                let report = self.reports[report_id];
                let id = Self::disputed(report);
                let worker = self.accounts[report.account_id];
                if !worker.neg_fits(self.app_config.med_minus as u32) {
                    Err(Error::Validation)
                } else {
                    Ok(
                        DworkView {
                            reports: self.reports.insert(
                                report_id,
                                ReportView { status: ReportStatus::Rejected, ..report },
                            ),
                            proposals: self.proposals.insert(
                                id,
                                ProposalView {
                                    status: ProposalStatusView::RejectedByAdmin {
                                        account_id: ctx.predecessor_account_id,
                                    },
                                    ..self.proposals[id]
                                },
                            ),
                            accounts: self.accounts.insert(
                                report.account_id,
                                worker.add_neg_point(self.app_config.med_minus as u32),
                            ),
                            ..self
                        },
                    )
                }
            },
        }
    }
}

/// Where the records stand that the decision of a report works on.
pub(crate) struct Dispute {
    pub(crate) report: usize,
    pub(crate) task: usize,
    pub(crate) proposal: usize,
    pub(crate) worker: usize,
}

/// The words that record a change of the running state.
pub open spec fn state_change_message(from: RunningState, to: RunningState, by: Seq<char>) -> Seq<char> {
    "Contract state changed from "@ + from.name_spec() + " to "@ + to.name_spec() + " by "@ + by
}

/// Writes the words that record a change of the running state.
pub fn describe_state_change(from: RunningState, to: RunningState, by: &AccountId) -> (s: String)
    ensures
        s@ == state_change_message(from, to, by@),
{
    let s = String::from_str("Contract state changed from ");
    let s = s.concat(from.name().as_str());
    let s = s.concat(" to ");
    let s = s.concat(to.name().as_str());
    let s = s.concat(" by ");
    s.concat(by.as_str())
}

impl Dwork {
    /// Whether `account_id` may decide reports.
    pub fn is_admin(&self, account_id: &AccountId) -> (b: bool)
        ensures
            b == self@.is_admin(account_id@),
    {
        self.admins.contains(account_id)
    }

    /// Whether the caller may give and take admin rights.
    pub fn may_appoint(ctx: &CallContext) -> (b: bool)
        ensures
            b == DworkView::may_appoint(ctx@),
    {
        ctx.predecessor_account_id == String::from_str("neilharan.testnet")
            || ctx.predecessor_account_id == ctx.current_account_id
    }

    /// Gives `account_id` admin rights.
    pub fn add_admin(&mut self, ctx: &CallContext, account_id: AccountId) -> (r: Result<bool, Error>)
        ensures
            carried_out(old(self)@.add_admin(ctx@, account_id@), old(self)@, final(self)@, r),
            r matches Ok(added) ==> added,
    {
        if !Dwork::may_appoint(ctx) {
            return Err(Error::Authorization);
        }
        if self.admins.contains(&account_id) {
            return Err(Error::StateConflict);
        }
        Ok(self.admins.insert(account_id))
    }

    /// Takes the admin rights of `account_id`.
    pub fn remove_admin(&mut self, ctx: &CallContext, account_id: AccountId) -> (r: Result<bool, Error>)
        ensures
            carried_out(old(self)@.remove_admin(ctx@, account_id@), old(self)@, final(self)@, r),
            r matches Ok(removed) ==> removed,
    {
        if !Dwork::may_appoint(ctx) {
            return Err(Error::Authorization);
        }
        if !self.admins.contains(&account_id) {
            return Err(Error::StateConflict);
        }
        Ok(self.admins.remove(&account_id))
    }

    /// Replaces the configured bonds and rewards by the values that are given.
    pub fn change_config(
        &mut self,
        register_bond: Option<Balance>,
        submit_bond: Option<Balance>,
        min_reward: Option<Balance>,
        max_reward: Option<Balance>,
    )
        ensures
            final(self)@ == old(self)@.change_config(register_bond, submit_bond, min_reward, max_reward),
    {
        if let Some(register_bond) = register_bond {
            self.app_config.register_bond = register_bond;
        }
        if let Some(submit_bond) = submit_bond {
            self.app_config.submit_bond = submit_bond;
        }
        if let Some(min_reward) = min_reward {
            self.app_config.minimum_reward_per_task = min_reward;
        }
        if let Some(max_reward) = max_reward {
            self.app_config.maximum_reward_per_task = max_reward;
        }
    }

    /// Sets the running state. Where the state changes, the result holds the
    /// words that record the change.
    pub fn change_state(&mut self, ctx: &CallContext, state: RunningState) -> (r: Result<
        Option<String>,
        Error,
    >)
        ensures
            carried_out(old(self)@.change_state(ctx@, state), old(self)@, final(self)@, r),
            r matches Ok(message) ==> match message {
                Some(m) => old(self).app_config.running_state != state && m@ == state_change_message(
                    old(self).app_config.running_state,
                    state,
                    ctx@.predecessor_account_id,
                ),
                None => old(self).app_config.running_state == state,
            },
    {
        match assert_one_yocto(ctx) {
            Ok(()) => {},
            Err(e) => return Err(e),
        }
        let from = self.app_config.running_state;
        if from != state {
            if state == RunningState::Running && !self.admins.contains(&ctx.predecessor_account_id) {
                return Err(Error::Authorization);
            }
            self.app_config.running_state = state;
            Ok(Some(describe_state_change(from, state, &ctx.predecessor_account_id)))
        } else {
            Ok(None)
        }
    }

    /// Checks that the report can be decided by the caller and finds the
    /// records that the decision works on.
    pub(crate) fn find_dispute(&self, ctx: &CallContext, report_id: &ReportId) -> (r: Result<Dispute, Error>)
        ensures
            match r {
                Ok(d) => {
                    let report = self@.reports[report_id@];
                    let id = DworkView::disputed(report);
                    &&& self@.decidable(ctx@, report_id@) is Ok
                    &&& crate::table::is_first(self.reports.keys(), report_id@, d.report as int)
                    &&& crate::table::is_first(self.task_records.keys(), report.task_id, d.task as int)
                    &&& crate::table::is_first(self.proposals.keys(), id, d.proposal as int)
                    &&& crate::table::is_first(self.accounts.keys(), report.account_id, d.worker as int)
                    &&& self.reports.entries[d.report as int].value@ == report
                    &&& self.task_records.entries[d.task as int].value@ == self@.tasks[report.task_id]
                    &&& self.proposals.entries[d.proposal as int].value@ == self@.proposals[id]
                    &&& self.accounts.entries[d.worker as int].value@ == self@.accounts[report.account_id]
                },
                Err(e) => self@.decidable(ctx@, report_id@) == Err::<(), Error>(e),
            },
    {
        let ri = match self.reports.index_of(report_id) {
            Some(i) => i,
            None => return Err(Error::NotFound),
        };
        let report = &self.reports.entries[ri].value;
        if !self.admins.contains(&ctx.predecessor_account_id) {
            return Err(Error::Authorization);
        }
        match report.status {
            ReportStatus::Pending => {},
            _ => return Err(Error::StateConflict),
        }
        let ti = match self.task_records.index_of(&report.task_id) {
            Some(i) => i,
            None => return Err(Error::NotFound),
        };
        let id = ProposalId { task_id: report.task_id.clone(), account_id: report.account_id.clone() };
        if !Dwork::lists(&self.task_records.entries[ti].value.proposals, &id) {
            return Err(Error::NotFound);
        }
        let pi = match self.proposals.index_of(&id) {
            Some(i) => i,
            None => return Err(Error::NotFound),
        };
        match &self.proposals.entries[pi].value.status {
            ProposalStatus::Rejected { report_id: Some(_), .. } => {},
            _ => return Err(Error::StateConflict),
        }
        let wi = match self.accounts.index_of(&report.account_id) {
            Some(i) => i,
            None => return Err(Error::NotFound),
        };
        Ok(Dispute { report: ri, task: ti, proposal: pi, worker: wi })
    }

    /// Holds the proposals of the task at position `ti` to the cap on
    /// participants.
    pub(crate) fn enforce_cap(&mut self, ti: usize, task_id: &TaskId, now: Timestamp)
        requires
            ti < old(self).task_records.entries.len(),
        ensures
            final(self)@ == old(self)@.enforce_cap(
                task_id@,
                old(self).task_records.entries[ti as int].value@.proposals,
                old(self).task_records.entries[ti as int].value.max_participants as nat,
                now,
            ),
    {
        let cap: usize = self.task_records.entries[ti].value.max_participants as usize;
        let taken = self.count_reinstated(&self.task_records.entries[ti].value.proposals);
        let places: usize = if taken <= cap {
            cap - taken
        } else {
            0
        };
        let ghost ids = self.task_records.entries[ti as int].value@.proposals;
        let mut counted: usize = 0;
        let mut i: usize = 0;
        proof {
            assert(ids.take(0) =~= Seq::<ProposalIdView>::empty());
        }
        while i < self.task_records.entries[ti].value.proposals.len()
            invariant
                ti < self.task_records.entries.len(),
                self.task_records == old(self).task_records,
                self.admins == old(self).admins,
                self.app_config == old(self).app_config,
                self.reports == old(self).reports,
                self.categories == old(self).categories,
                self.pending_transfers == old(self).pending_transfers,
                ids == self.task_records.entries[ti as int].value@.proposals,
                places == old(self)@.places_left(
                    ids,
                    old(self).task_records.entries[ti as int].value.max_participants as nat,
                ),
                i <= self.task_records.entries[ti as int].value.proposals.len(),
                counted <= i,
                (self@, counted as nat) == old(self)@.withdraw_late(
                    task_id@,
                    ids.take(i as int),
                    places as nat,
                    now,
                ),
            decreases self.task_records.entries[ti as int].value.proposals.len() - i,
        {
            proof {
                assert(ids.take(i + 1).drop_last() =~= ids.take(i as int));
                assert(ids.take(i + 1).last() == ids[i as int]);
            }
            match self.proposals.index_of(&self.task_records.entries[ti].value.proposals[i]) {
                Some(j) => {
                    let approved = match self.proposals.entries[j].value.status {
                        ProposalStatus::Approved => true,
                        _ => false,
                    };
                    if approved {
                        if counted >= places {
                            let ghost proposals_before = self.proposals;
                            self.proposals.entries[j].value.status = ProposalStatus::Rejected {
                                reason: String::from_str("late"),
                                reject_at: now,
                                report_id: None,
                            };
                            proof {
                                Table::lemma_changed_at(proposals_before, self.proposals, j as int);
                            }
                            match self.accounts.index_of(&self.proposals.entries[j].value.account_id) {
                                Some(w) => {
                                    let ghost accounts_before = self.accounts;
                                    self.accounts.entries[w].value.unlock(task_id);
                                    proof {
                                        Table::lemma_changed_at(
                                            accounts_before,
                                            self.accounts,
                                            w as int,
                                        );
                                    }
                                },
                                None => {},
                            }
                        } else {
                            counted += 1;
                        }
                    }
                },
                None => {},
            }
            i += 1;
        }
        proof {
            assert(ids.take(i as int) =~= ids);
        }
    }

    /// Decides the report `report_id` for the worker.
    pub fn approve_report(&mut self, ctx: &CallContext, report_id: ReportId) -> (r: Result<(), Error>)
        ensures
            carried_out(old(self)@.approve_report(ctx@, report_id@), old(self)@, final(self)@, r),
    {
        let d = match self.find_dispute(ctx, &report_id) {
            Ok(d) => d,
            Err(e) => return Err(e),
        };
        let now = ctx.block_timestamp;
        let oi = match self.accounts.index_of(&self.task_records.entries[d.task].value.owner) {
            Some(i) => i,
            None => return Err(Error::NotFound),
        };
        if self.count_reinstated(&self.task_records.entries[d.task].value.proposals)
            >= self.task_records.entries[d.task].value.max_participants as usize {
            return Err(Error::StateConflict);
        }
        let release_at = match self.release_time(&self.task_records.entries[d.task].value, now) {
            Some(t) => t,
            None => return Err(Error::Validation),
        };
        let bonus: u32 = self.app_config.sml_plus as u32;
        let penalty: u32 = self.app_config.big_minus as u32;
        if self.accounts.entries[d.worker].value.pos_point > u32::MAX - bonus
            || self.accounts.entries[oi].value.neg_point > u32::MAX - penalty {
            return Err(Error::Validation);
        }
        let task_id = self.reports.entries[d.report].value.task_id.clone();
        let price = self.task_records.entries[d.task].value.price;
        let ghost reports_before = self.reports;
        let ghost proposals_before = self.proposals;
        let ghost accounts_before = self.accounts;
        self.reports.entries[d.report].value.status = ReportStatus::Approved;
        self.proposals.entries[d.proposal].value.status = ProposalStatus::ApprovedByAdmin {
            account_id: ctx.predecessor_account_id.clone(),
        };
        self.accounts.entries[d.worker].value.add_pos_point(bonus);
        self.accounts.entries[d.worker].value.lock(task_id.clone(), price, release_at);
        let ghost accounts_paid = self.accounts;
        self.accounts.entries[oi].value.add_neg_point(penalty);
        proof {
            Table::lemma_changed_at(reports_before, self.reports, d.report as int);
            Table::lemma_changed_at(proposals_before, self.proposals, d.proposal as int);
            Table::lemma_changed_at(accounts_before, accounts_paid, d.worker as int);
            Table::lemma_changed_at(accounts_paid, self.accounts, oi as int);
        }
        self.enforce_cap(d.task, &task_id, now);
        Ok(())
    }

    /// Decides the report `report_id` against the worker.
    pub fn reject_report(&mut self, ctx: &CallContext, report_id: ReportId) -> (r: Result<(), Error>)
        ensures
            carried_out(old(self)@.reject_report(ctx@, report_id@), old(self)@, final(self)@, r),
    {
        let d = match self.find_dispute(ctx, &report_id) {
            Ok(d) => d,
            Err(e) => return Err(e),
        };
        let penalty: u32 = self.app_config.med_minus as u32;
        if self.accounts.entries[d.worker].value.neg_point > u32::MAX - penalty {
            return Err(Error::Validation);
        }
        let ghost reports_before = self.reports;
        let ghost proposals_before = self.proposals;
        let ghost accounts_before = self.accounts;
        self.accounts.entries[d.worker].value.add_neg_point(penalty);
        self.reports.entries[d.report].value.status = ReportStatus::Rejected;
        self.proposals.entries[d.proposal].value.status = ProposalStatus::RejectedByAdmin {
            account_id: ctx.predecessor_account_id.clone(),
        };
        proof {
            Table::lemma_changed_at(reports_before, self.reports, d.report as int);
            Table::lemma_changed_at(proposals_before, self.proposals, d.proposal as int);
            Table::lemma_changed_at(accounts_before, self.accounts, d.worker as int);
        }
        Ok(())
    }
}

} // verus!
