//! What holds of the rules of the marketplace, whatever the state and the
//! call.

use vstd::prelude::*;
use vstd::arithmetic::div_mod::lemma_fundamental_div_mod;
use crate::ext::TransferOutcome;
use crate::account::{AccountView, LockedBalance};
use crate::proofs::{
    lemma_cap_only_unlocks,
    lemma_count_none,
    lemma_no_adjudicators,
    lemma_approval_of_report,
    lemma_approve_report_keeps_the_cap,
    lemma_count_sum,
    lemma_approve_report_steps,
    lemma_call_keeps_consistency,
    lemma_call_steps_reports,
    lemma_count_grows_by_one,
    lemma_no_yield_is_step,
    lemma_plain_calls_step,
    lemma_step_is_step_or_yield,
    lemma_within_cap_nothing_is_demoted,
};
use crate::proposal::{ProposalIdView, ProposalStatusView, ProposalView, late};
use crate::report::{ReportIdView, ReportStatus, ReportView};
use crate::rules::Operation;
use crate::state::{DworkView, PendingTransferView};
use crate::table::lemma_without_absent;
use crate::task::TaskView;
use crate::types::{Balance, CallContextView, Error, Timestamp};

verus! {

/// A settlement accounts for the whole budget. Where no admin had to decide a
/// report, the pay of the approved proposals and the owner's refund make up
/// the budget. Where admins decided reports, the owner gets nothing back, and
/// the pay of the approved proposals, the equal shares of the admins and what
/// cannot be shared out equally make up the budget.
pub proof fn law_settlement_accounts_for_budget(s: DworkView, ctx: CallContextView, task_id: Seq<char>)
    requires
        s.mark_task_as_completed(ctx, task_id) is Ok,
    ensures
        ({
            let task = s.tasks[task_id];
            let paid = task.price * s.approved_count(task.proposals);
            let out = s.settlement(task_id);
            let n = out.beneficiaries.len() as int;
            &&& 0 <= paid <= task.budget
            &&& n == 0 ==> paid + out.refund == task.budget
            &&& n > 0 ==> out.refund == 0 && paid + out.share * n + (task.budget - paid) % n
                == task.budget
        }),
{
    let task = s.tasks[task_id];
    let approved = s.approved_count(task.proposals);
    let paid = task.price * approved;
    assert(paid >= 0) by (nonlinear_arith)
        requires
            paid == task.price * approved,
            task.price >= 0,
            approved >= 0,
    ;
    let n = s.settlement(task_id).beneficiaries.len() as int;
    if n > 0 {
        let rest = task.budget - paid;
        lemma_fundamental_div_mod(rest, n);
        assert(rest / n >= 0) by (nonlinear_arith)
            requires
                rest >= 0,
                n > 0,
        ;
        assert(rest / n <= rest) by (nonlinear_arith)
            requires
                rest >= 0,
                n > 0,
        ;
        assert((rest / n) * n == n * (rest / n)) by (nonlinear_arith);
    }
}

/// A claim is refused as still locked as long as the release time has not
/// passed.
pub proof fn law_claim_waits_for_release(s: DworkView, ctx: CallContextView, task_id: Seq<char>)
    requires
        s.accounts.contains_key(ctx.predecessor_account_id),
        s.accounts[ctx.predecessor_account_id].locked_balance.contains_key(task_id),
        ctx.block_timestamp <= s.accounts[ctx.predecessor_account_id].locked_balance[task_id].release_at,
    ensures
        s.claim(ctx, task_id) == Err::<DworkView, Error>(Error::StillLocked),
{
}

/// Once the release time has passed, a claim succeeds, provided that the
/// worker's points and free balance can take what the claim adds. The locked
/// amount is then added to the worker's free balance, the entry for the task
/// is gone and the worker's other locked balances stay, the positive points
/// have grown by the small bonus, and no other account has changed.
pub proof fn law_claim_succeeds_after_release(s: DworkView, ctx: CallContextView, task_id: Seq<char>)
    requires
        s.accounts.contains_key(ctx.predecessor_account_id),
        s.accounts[ctx.predecessor_account_id].locked_balance.contains_key(task_id),
        ctx.block_timestamp > s.accounts[ctx.predecessor_account_id].locked_balance[task_id].release_at,
        s.accounts[ctx.predecessor_account_id].pos_fits(s.app_config.sml_plus as u32),
        s.accounts[ctx.predecessor_account_id].credit_fits(
            s.accounts[ctx.predecessor_account_id].locked_balance[task_id].amount,
        ),
    ensures
        s.claim(ctx, task_id) is Ok,
        ({
            let before = s.accounts[ctx.predecessor_account_id];
            let after = s.claim(ctx, task_id)->Ok_0.accounts[ctx.predecessor_account_id];
            &&& after.balance == before.balance + before.locked_balance[task_id].amount
            &&& after.locked_balance == before.locked_balance.remove(task_id)
            &&& after.pos_point == before.pos_point + s.app_config.sml_plus
            &&& after.neg_point == before.neg_point
        }),
        forall|a: Seq<char>|
            a != ctx.predecessor_account_id && s.accounts.contains_key(a) ==> #[trigger] s.claim(
                ctx,
                task_id,
            )->Ok_0.accounts[a] == s.accounts[a],
{
}

/// A claim succeeds once only: after a successful claim, another claim of the
/// same worker for the same task finds no locked balance, at whatever time.
pub proof fn law_claim_succeeds_once(
    s: DworkView,
    ctx: CallContextView,
    again: CallContextView,
    task_id: Seq<char>,
)
    requires
        s.claim(ctx, task_id) is Ok,
        again.predecessor_account_id == ctx.predecessor_account_id,
    ensures
        s.claim(ctx, task_id)->Ok_0.claim(again, task_id) == Err::<DworkView, Error>(Error::NotFound),
{
}

/// Money that is locked for a worker is released no sooner than now, and no
/// sooner than the release window after the task's last rejection has passed,
/// whoever the rejected worker was.
pub proof fn law_release_waits_for_the_dispute_window(s: DworkView, task: TaskView, now: Timestamp)
    ensures
        s.release_time(task, now) >= now,
        task.last_rejection_published_at matches Some(t) ==> s.release_time(task, now) >= t
            + s.app_config.report_interval + s.app_config.validate_report_interval,
        s.release_time(task, now) == now || (task.last_rejection_published_at matches Some(t)
            && s.release_time(task, now) == t + s.app_config.report_interval
            + s.app_config.validate_report_interval),
{
}

/// In a consistent marketplace no task pays more workers than it has places:
/// the proposals of a task that stand approved, by the owner or by an admin,
/// number no more than the task can have participants. And no task lists
/// more proposals than a task can have.
pub proof fn law_approvals_stay_within_the_cap(s: DworkView, task_id: Seq<char>)
    requires
        s.consistent(),
        s.tasks.contains_key(task_id),
    ensures
        s.entitled_count(s.tasks[task_id].proposals) <= s.tasks[task_id].max_participants,
        s.approved_count(s.tasks[task_id].proposals) + s.reinstated_count(s.tasks[task_id].proposals)
            == s.entitled_count(s.tasks[task_id].proposals),
        s.tasks[task_id].proposals.len() <= s.app_config.maximum_proposals_at_one_time,
{
    assert(s.task_sound(task_id));
    lemma_count_sum(
        s.tasks[task_id].proposals,
        |id: ProposalIdView| s.is_approved(id),
        |id: ProposalIdView| s.is_reinstated(id),
        |id: ProposalIdView| s.is_entitled(id),
    );
}

/// The approval of a report leaves no more workers paid than the task has
/// places, also where the reinstated worker submitted last: after it, the
/// proposals of the task that stand approved, by the owner or by an admin,
/// number no more than the task can have participants.
pub proof fn law_reinstatement_keeps_the_cap(s: DworkView, ctx: CallContextView, report_id: ReportIdView)
    requires
        s.approve_report(ctx, report_id) is Ok,
        s.tasks[s.reports[report_id].task_id].proposals.no_duplicates(),
    ensures
        ({
            let next = s.approve_report(ctx, report_id)->Ok_0;
            let task_id = s.reports[report_id].task_id;
            &&& next.tasks.contains_key(task_id)
            &&& next.tasks[task_id].proposals == s.tasks[task_id].proposals
            &&& next.tasks[task_id].max_participants == s.tasks[task_id].max_participants
            &&& next.entitled_count(next.tasks[task_id].proposals)
                <= next.tasks[task_id].max_participants
        }),
{
    lemma_approve_report_keeps_the_cap(s, ctx, report_id);
    lemma_approval_of_report(s, ctx, report_id);
}

/// A rejection for being late cannot be disputed: a report against it is
/// refused when it is filed, so that no report is recorded.
pub proof fn law_late_rejection_is_final(
    s: DworkView,
    ctx: CallContextView,
    task_id: Seq<char>,
    report: Seq<char>,
)
    requires
        ({
            let id = ProposalIdView { task_id, account_id: ctx.predecessor_account_id };
            &&& s.proposals.contains_key(id)
            &&& s.proposals[id].status matches ProposalStatusView::Rejected { reason, .. }
            &&& reason == late()
        }),
    ensures
        s.report_rejection(ctx, task_id, report) is Err,
{
}

/// A rejection for being late is never under review: in a consistent
/// marketplace no report is attached to a proposal that was rejected as late,
/// and a proposal that is under review has its one report on record, pending.
pub proof fn law_late_rejections_are_never_under_review(s: DworkView, id: ProposalIdView)
    requires
        s.consistent(),
        s.proposals.contains_key(id),
    ensures
        s.proposals[id].status matches ProposalStatusView::Rejected { reason, report_id, .. } ==> {
            &&& reason == late() ==> report_id is None
            &&& report_id is Some ==> s.reports.contains_key(report_id->0)
                && s.reports[report_id->0].status is Pending && DworkView::disputed(
                s.reports[report_id->0],
            ) == id
        },
{
    assert(s.proposal_sound(id));
    if s.proposals[id].status.under_review() {
        let filed = s.proposals[id].status->Rejected_report_id->0;
        assert(s.report_sound(filed));
    }
}

/// The result of a transfer counts once: after it has been taken, the same
/// result delivered again is ignored and changes nothing.
pub proof fn law_transfer_result_counts_once(
    s: DworkView,
    ctx: CallContextView,
    again: CallContextView,
    task_id: Seq<char>,
    beneficiary_id: Seq<char>,
    amount: Balance,
)
    requires
        s.on_transferd(ctx, task_id, beneficiary_id, amount, TransferOutcome::Successful) is Ok,
        again.predecessor_account_id == again.current_account_id,
    ensures
        ({
            let next = s.on_transferd(
                ctx,
                task_id,
                beneficiary_id,
                amount,
                TransferOutcome::Successful,
            )->Ok_0;
            next.on_transferd(again, task_id, beneficiary_id, amount, TransferOutcome::Successful)
                == Ok::<DworkView, Error>(next)
        }),
{
    lemma_without_absent(
        s.pending_transfers,
        PendingTransferView { task_id, beneficiary_id, amount },
    );
}

/// The empty marketplace is consistent.
pub proof fn law_empty_is_consistent()
    ensures
        DworkView::empty().consistent(),
{
}

/// Every call keeps the marketplace consistent.
pub proof fn law_consistency_is_kept(s: DworkView, ctx: CallContextView, op: Operation)
    requires
        s.consistent(),
        s.apply(ctx, op) is Ok,
    ensures
        s.apply(ctx, op)->Ok_0.consistent(),
{
    lemma_call_keeps_consistency(s, ctx, op);
}

/// Money is locked only for approved work: in a consistent marketplace, a
/// worker who has a locked balance for a task has a proposal for it that
/// stands approved, by the owner or by an admin, and the balance is the price
/// of the task.
pub proof fn law_money_is_locked_for_approved_work(s: DworkView, worker_id: Seq<char>, task_id: Seq<char>)
    requires
        s.consistent(),
        s.accounts.contains_key(worker_id),
        s.accounts[worker_id].locked_balance.contains_key(task_id),
    ensures
        s.tasks.contains_key(task_id),
        s.accounts[worker_id].locked_balance[task_id].amount == s.tasks[task_id].price,
        s.proposals.contains_key(ProposalIdView { task_id, account_id: worker_id }),
        s.proposals[ProposalIdView { task_id, account_id: worker_id }].status is Approved
            || s.proposals[ProposalIdView { task_id, account_id: worker_id }].status is ApprovedByAdmin,
{
    assert(s.lock_sound(worker_id, task_id));
}

/// Every call changes the reports by steps only: a report is recorded, or a
/// pending report is decided. A report that is decided stays as it is.
pub proof fn law_reports_are_decided_once(s: DworkView, ctx: CallContextView, op: Operation)
    requires
        s.consistent(),
        s.apply(ctx, op) is Ok,
    ensures
        s.reports_step_to(s.apply(ctx, op)->Ok_0),
{
    lemma_call_steps_reports(s, ctx, op);
}

/// Every call moves the proposals along the status graph, but for one thing:
/// the approval of a report may withdraw approvals of the owner for which the
/// task has no room left. So from one state to the next, a status stays, or
/// takes one of these steps: the owner approves or rejects a pending proposal,
/// the worker files a report against a rejection that has none, an admin
/// decides a rejection that has one, or an approved proposal loses its place.
/// A proposal that an admin has decided stays as it is.
pub proof fn law_statuses_step_or_yield(s: DworkView, ctx: CallContextView, op: Operation)
    requires
        s.apply(ctx, op) is Ok,
    ensures
        s.steps_or_yields_to(s.apply(ctx, op)->Ok_0, ctx.block_timestamp),
{
    match op {
        Operation::ApproveReport { report_id } => {
            lemma_approve_report_steps(s, ctx, report_id);
        },
        _ => {
            lemma_plain_calls_step(s, ctx, op);
            lemma_step_is_step_or_yield(s, s.apply(ctx, op)->Ok_0, ctx.block_timestamp);
        },
    }
}

/// Every call that makes no proposal lose its place moves the proposals along
/// the status graph: the owner approves or rejects a pending proposal, the
/// worker files a report against a rejection that has none, an admin decides
/// a rejection that has one, and nothing else happens to a status. No step is
/// skipped, and a proposal that is approved, or decided by an admin, stays as
/// it is.
pub proof fn law_statuses_follow_the_graph(s: DworkView, ctx: CallContextView, op: Operation)
    requires
        s.apply(ctx, op) is Ok,
        !s.displaces(ctx, op),
    ensures
        s.steps_to(s.apply(ctx, op)->Ok_0),
{
    match op {
        Operation::ApproveReport { report_id } => {
            lemma_approve_report_steps(s, ctx, report_id);
            lemma_no_yield_is_step(s, s.approve_report(ctx, report_id)->Ok_0, ctx.block_timestamp);
        },
        _ => {
            lemma_plain_calls_step(s, ctx, op);
        },
    }
}

/// The approval of a report makes no proposal lose its place where the task
/// has a place for the reinstated proposal: where fewer proposals of the task
/// stand approved, by the owner or by an admin, than the task can have
/// participants.
pub proof fn law_reinstatement_with_room_displaces_nobody(
    s: DworkView,
    ctx: CallContextView,
    report_id: ReportIdView,
)
    requires
        s.consistent(),
        s.approve_report(ctx, report_id) is Ok,
        s.entitled_count(s.tasks[s.reports[report_id].task_id].proposals)
            < s.tasks[s.reports[report_id].task_id].max_participants,
    ensures
        s.approve_report(ctx, report_id) == Ok::<DworkView, Error>(s.reinstate(ctx, report_id)),
        !s.displaces(ctx, Operation::ApproveReport { report_id }),
{
    let report = s.reports[report_id];
    let task = s.tasks[report.task_id];
    let ids = task.proposals;
    let max = task.max_participants as nat;
    let id = DworkView::disputed(report);
    let mid = s.reinstate(ctx, report_id);
    assert(s.tasks.contains_key(report.task_id));
    assert(s.task_sound(report.task_id));
    let p = |x: ProposalIdView| s.is_entitled(x);
    let q = |x: ProposalIdView| mid.is_entitled(x);
    assert forall|i: int| 0 <= i < ids.len() && ids[i] != id implies p(#[trigger] ids[i]) == q(
        ids[i],
    ) by {}
    lemma_count_grows_by_one(ids, p, q, id);
    lemma_count_sum(
        ids,
        |x: ProposalIdView| mid.is_approved(x),
        |x: ProposalIdView| mid.is_reinstated(x),
        |x: ProposalIdView| mid.is_entitled(x),
    );
    lemma_within_cap_nothing_is_demoted(
        mid,
        report.task_id,
        ids,
        mid.places_left(ids, max),
        ctx.block_timestamp,
    );
    let next = s.apply(ctx, Operation::ApproveReport { report_id })->Ok_0;
    assert(next == mid);
    assert forall|x: ProposalIdView| s.is_approved(x) implies !(#[trigger] next.proposals[x].status is Rejected) by {
        assert(x != id);
    }
}

/// Settlement is owed, and gives back what the approved work leaves. Take a
/// consistent marketplace and a task that is not settled, with at least one
/// proposal, none of them under review or decided by an admin, and with the
/// release window after its last rejection passed. Then its owner, whose
/// counters can take what the settlement adds, settles it with success. The
/// refund is the budget less the price for every proposal that the owner
/// approved, and it is computed without leaving the range of an amount.
pub proof fn law_settlement_refunds_what_approved_work_leaves(
    s: DworkView,
    ctx: CallContextView,
    task_id: Seq<char>,
)
    requires
        s.consistent(),
        s.tasks.contains_key(task_id),
        !s.tasks[task_id].completed,
        s.tasks[task_id].owner == ctx.predecessor_account_id,
        s.accounts.contains_key(s.tasks[task_id].owner),
        s.tasks[task_id].proposals.len() >= 1,
        forall|i: int|
            0 <= i < s.tasks[task_id].proposals.len() ==> !s.is_under_review(
                #[trigger] s.tasks[task_id].proposals[i],
            ) && !s.is_adjudicated(s.tasks[task_id].proposals[i]),
        s.tasks[task_id].last_rejection_published_at matches Some(t) ==> ctx.block_timestamp > t
            + s.app_config.report_interval + s.app_config.validate_report_interval,
        s.accounts[s.tasks[task_id].owner].total_spent + s.tasks[task_id].price * s.approved_count(
            s.tasks[task_id].proposals,
        ) <= u128::MAX,
        s.accounts[s.tasks[task_id].owner].pos_fits(s.app_config.sml_plus as u32),
    ensures
        s.mark_task_as_completed(ctx, task_id) is Ok,
        0 <= s.tasks[task_id].price * s.approved_count(s.tasks[task_id].proposals)
            <= s.tasks[task_id].budget,
        s.settlement(task_id).refund == s.tasks[task_id].budget - s.tasks[task_id].price
            * s.approved_count(s.tasks[task_id].proposals),
        s.settlement(task_id).share == 0,
        s.settlement(task_id).beneficiaries.len() == 0,
{
    let task = s.tasks[task_id];
    let ids = task.proposals;
    let approved = s.approved_count(ids);
    assert(s.task_sound(task_id));
    lemma_no_adjudicators(s, ids);
    lemma_count_sum(
        ids,
        |id: ProposalIdView| s.is_approved(id),
        |id: ProposalIdView| s.is_reinstated(id),
        |id: ProposalIdView| s.is_entitled(id),
    );
    assert(0 <= task.price * approved <= task.price * task.max_participants) by (nonlinear_arith)
        requires
            0 <= approved <= task.max_participants,
            0 <= task.price,
    ;
    assert forall|i: int| 0 <= i < ids.len() implies !(|id: ProposalIdView| s.is_under_review(id))(
        #[trigger] ids[i],
    ) by {}
    lemma_count_none(ids, |id: ProposalIdView| s.is_under_review(id));
}

/// Settlement moves no balance: it leaves the free balance and every locked
/// balance of every account as they are.
pub proof fn law_settlement_moves_no_balance(s: DworkView, ctx: CallContextView, task_id: Seq<char>)
    requires
        s.mark_task_as_completed(ctx, task_id) is Ok,
    ensures
        forall|a: Seq<char>|
            s.accounts.contains_key(a) <==> #[trigger] s.mark_task_as_completed(
                ctx,
                task_id,
            )->Ok_0.accounts.contains_key(a),
        forall|a: Seq<char>| #[trigger]
            s.accounts.contains_key(a) ==> {
                let after = s.mark_task_as_completed(ctx, task_id)->Ok_0.accounts[a];
                &&& after.balance == s.accounts[a].balance
                &&& after.locked_balance == s.accounts[a].locked_balance
            },
{
}

/// The approval of a pending proposal is owed, and does no more than approve
/// it. Where the caller owns the task, the task is not settled, the proposal
/// is listed, on record and pending, fewer proposals of the task stand
/// approved than it can have participants, and the worker has an account
/// whose points can grow and for whom the release time fits, the call
/// succeeds. The proposal then stands approved with its other contents kept,
/// and every other proposal is as it was.
pub proof fn law_owner_approves_a_pending_proposal(
    s: DworkView,
    ctx: CallContextView,
    task_id: Seq<char>,
    worker_id: Seq<char>,
)
    requires
        s.tasks.contains_key(task_id),
        s.tasks[task_id].owner == ctx.predecessor_account_id,
        !s.tasks[task_id].completed,
        s.tasks[task_id].proposals.contains(ProposalIdView { task_id, account_id: worker_id }),
        s.proposals.contains_key(ProposalIdView { task_id, account_id: worker_id }),
        s.proposals[ProposalIdView { task_id, account_id: worker_id }].status is Pending,
        s.entitled_count(s.tasks[task_id].proposals) < s.tasks[task_id].max_participants,
        s.accounts.contains_key(worker_id),
        s.release_time(s.tasks[task_id], ctx.block_timestamp) <= u64::MAX,
        s.accounts[worker_id].pos_fits(s.app_config.sml_plus as u32),
    ensures
        s.approve_work(ctx, task_id, worker_id) is Ok,
        ({
            let id = ProposalIdView { task_id, account_id: worker_id };
            let next = s.approve_work(ctx, task_id, worker_id)->Ok_0;
            &&& next.proposals == s.proposals.insert(
                id,
                ProposalView { status: ProposalStatusView::Approved, ..s.proposals[id] },
            )
            &&& next.accounts[worker_id].locked_balance[task_id] == (LockedBalance {
                amount: s.tasks[task_id].price,
                release_at: s.release_time(s.tasks[task_id], ctx.block_timestamp) as Timestamp,
            })
            &&& next.accounts[worker_id].pos_point == s.accounts[worker_id].pos_point
                + s.app_config.sml_plus
        }),
{
}

/// The filing of a report is owed, and does no more than record it. Where the
/// caller's proposal for the task is listed and on record, on a task that is
/// not settled, and stands rejected for another reason than being late, with
/// no report against it and the time to report not run out, the call
/// succeeds. The report then is on record as pending, under the worker and
/// the task, and the proposal stays rejected, with the same reason and time
/// and the report attached. Every other proposal and report is as it was.
pub proof fn law_worker_files_a_report(
    s: DworkView,
    ctx: CallContextView,
    task_id: Seq<char>,
    report: Seq<char>,
    reason: Seq<char>,
    reject_at: Timestamp,
)
    requires
        s.tasks.contains_key(task_id),
        !s.tasks[task_id].completed,
        s.tasks[task_id].proposals.contains(
            ProposalIdView { task_id, account_id: ctx.predecessor_account_id },
        ),
        s.proposals.contains_key(ProposalIdView { task_id, account_id: ctx.predecessor_account_id }),
        s.proposals[ProposalIdView { task_id, account_id: ctx.predecessor_account_id }].status
            == (ProposalStatusView::Rejected { reason, reject_at, report_id: None }),
        reason != late(),
        ctx.block_timestamp <= reject_at + s.app_config.report_interval,
    ensures
        s.report_rejection(ctx, task_id, report) is Ok,
        ({
            let worker_id = ctx.predecessor_account_id;
            let id = ProposalIdView { task_id, account_id: worker_id };
            let report_id = ReportIdView { account_id: worker_id, task_id };
            let next = s.report_rejection(ctx, task_id, report)->Ok_0;
            &&& next.reports == s.reports.insert(
                report_id,
                ReportView {
                    report_id,
                    account_id: worker_id,
                    task_id,
                    report,
                    status: ReportStatus::Pending,
                },
            )
            &&& next.proposals == s.proposals.insert(
                id,
                ProposalView {
                    status: ProposalStatusView::Rejected {
                        reason,
                        reject_at,
                        report_id: Some(report_id),
                    },
                    ..s.proposals[id]
                },
            )
            &&& next.accounts == s.accounts
        }),
{
}

/// What the rules ask of a report before an admin can decide it, said of the
/// records: the report is on record and pending, the caller is an admin, the
/// task exists and lists the proposal of the report's worker, which is on
/// record and under review, and the worker has an account.
pub open spec fn awaits_decision(s: DworkView, ctx: CallContextView, report_id: ReportIdView) -> bool {
    let report = s.reports[report_id];
    let id = DworkView::disputed(report);
    &&& s.reports.contains_key(report_id)
    &&& report.status is Pending
    &&& s.is_admin(ctx.predecessor_account_id)
    &&& s.tasks.contains_key(report.task_id)
    &&& s.tasks[report.task_id].proposals.contains(id)
    &&& s.proposals.contains_key(id)
    &&& s.proposals[id].status.under_review()
    &&& s.accounts.contains_key(report.account_id)
}

/// The rejection of a report is owed, and does no more than decide it. Where
/// the report awaits its decision and the worker's negative points can grow,
/// the call succeeds. The report then stands rejected, the proposal rejected
/// by the admin who called, and the worker's negative points have grown by
/// the medium penalty. Every other report, proposal and account is as it was,
/// and no money moves.
pub proof fn law_admin_rejects_a_report(s: DworkView, ctx: CallContextView, report_id: ReportIdView)
    requires
        awaits_decision(s, ctx, report_id),
        s.accounts[s.reports[report_id].account_id].neg_fits(s.app_config.med_minus as u32),
    ensures
        s.reject_report(ctx, report_id) is Ok,
        ({
            let report = s.reports[report_id];
            let id = DworkView::disputed(report);
            let worker = s.accounts[report.account_id];
            let next = s.reject_report(ctx, report_id)->Ok_0;
            &&& next.reports == s.reports.insert(
                report_id,
                ReportView { status: ReportStatus::Rejected, ..report },
            )
            &&& next.proposals == s.proposals.insert(
                id,
                ProposalView {
                    status: ProposalStatusView::RejectedByAdmin {
                        account_id: ctx.predecessor_account_id,
                    },
                    ..s.proposals[id]
                },
            )
            &&& next.accounts == s.accounts.insert(
                report.account_id,
                AccountView { neg_point: (worker.neg_point + s.app_config.med_minus) as u32, ..worker },
            )
        }),
{
}

/// The approval of a report is owed. Where the report awaits its decision,
/// the owner has an account, the approvals by admins have not taken every
/// place of the task, and the release time and the points of worker and owner
/// stay in their ranges, the call succeeds.
pub proof fn law_report_approval_is_owed(s: DworkView, ctx: CallContextView, report_id: ReportIdView)
    requires
        awaits_decision(s, ctx, report_id),
        s.accounts.contains_key(s.tasks[s.reports[report_id].task_id].owner),
        s.reinstated_count(s.tasks[s.reports[report_id].task_id].proposals)
            < s.tasks[s.reports[report_id].task_id].max_participants,
        s.release_time(s.tasks[s.reports[report_id].task_id], ctx.block_timestamp) <= u64::MAX,
        s.accounts[s.reports[report_id].account_id].pos_fits(s.app_config.sml_plus as u32),
        s.accounts[s.tasks[s.reports[report_id].task_id].owner].neg_fits(
            s.app_config.big_minus as u32,
        ),
    ensures
        s.approve_report(ctx, report_id) is Ok,
{
}

/// The approval of a report decides it for the worker, whatever it withdraws:
/// after it the report stands approved, the proposal stands approved by the
/// admin who called, every other report is as it was, and every other
/// proposal is as it was or has lost its place. The worker's positive points
/// have grown by the small bonus and the owner's negative points by the large
/// penalty, and no other points have changed.
pub proof fn law_report_approval_decides_for_the_worker(
    s: DworkView,
    ctx: CallContextView,
    report_id: ReportIdView,
)
    requires
        s.approve_report(ctx, report_id) is Ok,
    ensures
        ({
            let report = s.reports[report_id];
            let id = DworkView::disputed(report);
            let owner = s.tasks[report.task_id].owner;
            let next = s.approve_report(ctx, report_id)->Ok_0;
            &&& next.reports == s.reports.insert(
                report_id,
                ReportView { status: ReportStatus::Approved, ..report },
            )
            &&& next.proposals.contains_key(id)
            &&& next.proposals[id] == (ProposalView {
                status: ProposalStatusView::ApprovedByAdmin {
                    account_id: ctx.predecessor_account_id,
                },
                ..s.proposals[id]
            })
            &&& forall|a: Seq<char>|
                s.accounts.contains_key(a) <==> #[trigger] next.accounts.contains_key(a)
            &&& forall|a: Seq<char>| #[trigger]
                s.accounts.contains_key(a) ==> {
                    &&& next.accounts[a].pos_point == s.accounts[a].pos_point + if a
                        == report.account_id {
                        s.app_config.sml_plus as int
                    } else {
                        0
                    }
                    &&& next.accounts[a].neg_point == s.accounts[a].neg_point + if a == owner {
                        s.app_config.big_minus as int
                    } else {
                        0
                    }
                    &&& next.accounts[a].balance == s.accounts[a].balance
                }
        }),
{
    let report = s.reports[report_id];
    let task = s.tasks[report.task_id];
    let mid = s.reinstate(ctx, report_id);
    let next = s.approve_report(ctx, report_id)->Ok_0;
    lemma_approval_of_report(s, ctx, report_id);
    lemma_cap_only_unlocks(
        mid,
        report.task_id,
        task.proposals,
        mid.places_left(task.proposals, task.max_participants as nat),
        ctx.block_timestamp,
    );
    assert(next.reports =~= mid.reports);
    assert forall|a: Seq<char>| s.accounts.contains_key(a) <==> #[trigger] next.accounts.contains_key(
        a,
    ) by {
        assert(mid.accounts.contains_key(a) <==> next.accounts.contains_key(a));
    }
    assert forall|a: Seq<char>| #[trigger] s.accounts.contains_key(a) implies {
        &&& next.accounts[a].pos_point == s.accounts[a].pos_point + if a == report.account_id {
            s.app_config.sml_plus as int
        } else {
            0
        }
        &&& next.accounts[a].neg_point == s.accounts[a].neg_point + if a == task.owner {
            s.app_config.big_minus as int
        } else {
            0
        }
        &&& next.accounts[a].balance == s.accounts[a].balance
    } by {
        assert(mid.accounts.contains_key(a));
        assert(next.accounts.contains_key(a));
    }
}

/// The approval of a report pays the worker and nobody else. In a consistent
/// marketplace, after it the worker holds the price of the task as a balance
/// locked on the task, released at the later of now and the end of the
/// release window after the task's last rejection. No other account gains a
/// locked balance.
pub proof fn law_report_approval_pays_the_worker(s: DworkView, ctx: CallContextView, report_id: ReportIdView)
    requires
        s.consistent(),
        s.approve_report(ctx, report_id) is Ok,
    ensures
        ({
            let report = s.reports[report_id];
            let task = s.tasks[report.task_id];
            let next = s.approve_report(ctx, report_id)->Ok_0;
            &&& next.accounts[report.account_id].locked_balance.contains_key(report.task_id)
            &&& next.accounts[report.account_id].locked_balance[report.task_id] == (LockedBalance {
                amount: task.price,
                release_at: s.release_time(task, ctx.block_timestamp) as Timestamp,
            })
            &&& forall|a: Seq<char>, t: Seq<char>|
                next.accounts.contains_key(a) && #[trigger] next.accounts[a].locked_balance.contains_key(
                    t,
                ) && !(a == report.account_id && t == report.task_id) ==> s.accounts.contains_key(a)
                    && s.accounts[a].locked_balance.contains_key(t)
                    && next.accounts[a].locked_balance[t] == s.accounts[a].locked_balance[t]
        }),
{
    let report = s.reports[report_id];
    let task = s.tasks[report.task_id];
    let ids = task.proposals;
    let worker_id = report.account_id;
    let decided = DworkView::disputed(report);
    let mid = s.reinstate(ctx, report_id);
    let next = s.approve_report(ctx, report_id)->Ok_0;
    lemma_cap_only_unlocks(
        mid,
        report.task_id,
        ids,
        mid.places_left(ids, task.max_participants as nat),
        ctx.block_timestamp,
    );
    assert(s.report_sound(report_id));
    assert(s.tasks.contains_key(report.task_id));
    assert(s.task_sound(report.task_id));
    assert(!mid.holds_place_for(ids, worker_id)) by {
        if mid.holds_place_for(ids, worker_id) {
            let i = choose|i: int|
                0 <= i < ids.len() && mid.is_approved(#[trigger] ids[i])
                    && mid.proposals[ids[i]].account_id == worker_id;
            assert(ids[i] != decided);
            assert(s.proposals.contains_key(ids[i]));
            assert(s.proposal_sound(ids[i]));
            assert(ids[i].task_id == report.task_id);
        }
    }
    assert(mid.accounts.contains_key(worker_id));
    assert(next.accounts.contains_key(worker_id));
    assert(next.accounts[worker_id] == mid.accounts[worker_id]);
    assert forall|a: Seq<char>, t: Seq<char>|
        next.accounts.contains_key(a) && #[trigger] next.accounts[a].locked_balance.contains_key(t)
            && !(a == worker_id && t == report.task_id) implies s.accounts.contains_key(a)
        && s.accounts[a].locked_balance.contains_key(t) && next.accounts[a].locked_balance[t]
        == s.accounts[a].locked_balance[t] by {
        assert(mid.accounts.contains_key(a));
    }
}

} // verus!
