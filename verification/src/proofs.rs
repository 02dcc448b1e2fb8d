//! The proofs behind the laws: what each call does to the tasks, the
//! proposals, the reports and the locked balances.

use vstd::prelude::*;
use crate::admin::RunningState;
use crate::ext::TransferOutcome;
use crate::proposal::{ProposalIdView, ProposalStatusView, ProposalView};
use crate::report::{ReportIdView, ReportView};
use crate::rules::Operation;
use crate::account::AccountView;
use crate::state::{DworkView, count};
use crate::table::{lemma_without_absent, without};
use crate::types::{Balance, CallContextView, Duration, Timestamp};

verus! {

/// Two conditions that agree on the elements of a list count the same.
pub proof fn lemma_count_agree<A>(s: Seq<A>, p: spec_fn(A) -> bool, q: spec_fn(A) -> bool)
    requires
        forall|i: int| 0 <= i < s.len() ==> p(#[trigger] s[i]) == q(s[i]),
    ensures
        count(s, p) == count(s, q),
    decreases s.len(),
{
    if s.len() > 0 {
        let rest = s.drop_last();
        assert forall|i: int| 0 <= i < rest.len() implies p(#[trigger] rest[i]) == q(rest[i]) by {
            assert(rest[i] == s[i]);
        }
        lemma_count_agree(rest, p, q);
        assert(s.last() == s[s.len() - 1]);
    }
}

/// A condition that holds of fewer elements counts no more.
pub proof fn lemma_count_shrinks<A>(s: Seq<A>, p: spec_fn(A) -> bool, q: spec_fn(A) -> bool)
    requires
        forall|i: int| 0 <= i < s.len() ==> (q(#[trigger] s[i]) ==> p(s[i])),
    ensures
        count(s, q) <= count(s, p),
    decreases s.len(),
{
    if s.len() > 0 {
        let rest = s.drop_last();
        assert forall|i: int| 0 <= i < rest.len() && q(#[trigger] rest[i]) implies p(rest[i]) by {
            assert(rest[i] == s[i]);
        }
        lemma_count_shrinks(rest, p, q);
        assert(s.last() == s[s.len() - 1]);
    }
}

/// Where a condition changes for one element only, and the list holds no
/// element twice, the count grows by one at most.
pub proof fn lemma_count_grows_by_one<A>(s: Seq<A>, p: spec_fn(A) -> bool, q: spec_fn(A) -> bool, x: A)
    requires
        s.no_duplicates(),
        forall|i: int| 0 <= i < s.len() && s[i] != x ==> p(#[trigger] s[i]) == q(s[i]),
    ensures
        count(s, q) <= count(s, p) + 1,
        !s.contains(x) ==> count(s, q) == count(s, p),
    decreases s.len(),
{
    if s.len() > 0 {
        let rest = s.drop_last();
        assert forall|i: int| 0 <= i < rest.len() && rest[i] != x implies p(#[trigger] rest[i]) == q(
            rest[i],
        ) by {
            assert(rest[i] == s[i]);
        }
        assert(rest.no_duplicates()) by {
            assert forall|i: int, j: int| 0 <= i < rest.len() && 0 <= j < rest.len() && i != j implies rest[i]
                != rest[j] by {
                assert(rest[i] == s[i] && rest[j] == s[j]);
            }
        }
        lemma_count_grows_by_one(rest, p, q, x);
        assert(s.last() == s[s.len() - 1]);
        if !s.contains(x) || s.last() == x {
            assert(!rest.contains(x)) by {
                if rest.contains(x) {
                    let j = choose|j: int| 0 <= j < rest.len() && rest[j] == x;
                    assert(s[j] == x);
                }
            }
        }
    }
}

/// The count of the elements of which one of two conditions holds is the sum
/// of the two counts, where no element meets both.
pub proof fn lemma_count_sum<A>(
    s: Seq<A>,
    p: spec_fn(A) -> bool,
    q: spec_fn(A) -> bool,
    either: spec_fn(A) -> bool,
)
    requires
        forall|i: int|
            0 <= i < s.len() ==> either(#[trigger] s[i]) == (p(s[i]) || q(s[i])) && !(p(s[i]) && q(
                s[i],
            )),
    ensures
        count(s, either) == count(s, p) + count(s, q),
    decreases s.len(),
{
    if s.len() > 0 {
        let rest = s.drop_last();
        assert forall|i: int| 0 <= i < rest.len() implies either(#[trigger] rest[i]) == (p(rest[i])
            || q(rest[i])) && !(p(rest[i]) && q(rest[i])) by {
            assert(rest[i] == s[i]);
        }
        lemma_count_sum(rest, p, q, either);
        assert(s.last() == s[s.len() - 1]);
    }
}

/// A condition that holds of no element counts nothing.
pub proof fn lemma_count_none<A>(s: Seq<A>, p: spec_fn(A) -> bool)
    requires
        forall|i: int| 0 <= i < s.len() ==> !p(#[trigger] s[i]),
    ensures
        count(s, p) == 0,
    decreases s.len(),
{
    if s.len() > 0 {
        let rest = s.drop_last();
        assert forall|i: int| 0 <= i < rest.len() implies !p(#[trigger] rest[i]) by {
            assert(rest[i] == s[i]);
        }
        lemma_count_none(rest, p);
        assert(s.last() == s[s.len() - 1]);
    }
}

/// Where no more proposals stand approved by the owner than there are places,
/// no approval is withdrawn.
pub proof fn lemma_within_cap_nothing_is_demoted(
    s: DworkView,
    task_id: Seq<char>,
    ids: Seq<ProposalIdView>,
    places: nat,
    now: Timestamp,
)
    requires
        s.approved_count(ids) <= places,
    ensures
        s.withdraw_late(task_id, ids, places, now) == (s, s.approved_count(ids)),
    decreases ids.len(),
{
    if ids.len() > 0 {
        lemma_within_cap_nothing_is_demoted(s, task_id, ids.drop_last(), places, now);
    }
}

/// Withdrawing the late approvals of a list changes only what `thinned_to`
/// allows.
pub proof fn lemma_cap_thins(
    s: DworkView,
    task_id: Seq<char>,
    ids: Seq<ProposalIdView>,
    places: nat,
    now: Timestamp,
)
    ensures
        s.thinned_to(s.withdraw_late(task_id, ids, places, now).0, now),
    decreases ids.len(),
{
    if ids.len() > 0 {
        lemma_cap_thins(s, task_id, ids.drop_last(), places, now);
        let (mid, kept) = s.withdraw_late(task_id, ids.drop_last(), places, now);
        let next = s.withdraw_late(task_id, ids, places, now).0;
        let last = ids.last();
        if mid.is_approved(last) && kept >= places {
            assert(next == mid.demote(task_id, last, now));
            assert(s.proposals.contains_key(last));
            assert(mid.proposals[last] == s.proposals[last]);
            assert forall|id: ProposalIdView| #[trigger]
                s.proposals.contains_key(id) implies next.proposals[id] == s.proposals[id] || (
                DworkView::loses_place(s.proposals[id].status, next.proposals[id].status, now)
                    && next.proposals[id] == ProposalView {
                    status: next.proposals[id].status,
                    ..s.proposals[id]
                }) by {
                assert(mid.proposals.contains_key(id));
                if id != last {
                    assert(next.proposals[id] == mid.proposals[id]);
                }
            }
            assert forall|id: ProposalIdView|
                s.proposals.contains_key(id) <==> #[trigger] next.proposals.contains_key(id) by {
                assert(s.proposals.contains_key(id) <==> mid.proposals.contains_key(id));
            }
        } else {
            assert(next == mid);
        }
    }
}

/// Taking out what is not there changes nothing.
pub proof fn lemma_without_nothing<A>(s: Seq<A>, x: A)
    requires
        !s.contains(x),
    ensures
        without(s, x) == s,
    decreases s.len(),
{
    if s.len() > 0 {
        let rest = s.drop_last();
        assert(s.last() == s[s.len() - 1]);
        assert(!rest.contains(x)) by {
            if rest.contains(x) {
                let j = choose|j: int| 0 <= j < rest.len() && rest[j] == x;
                assert(s[j] == x);
            }
        }
        lemma_without_nothing(rest, x);
        assert(rest.push(s.last()) =~= s);
    }
}

/// Dropping a locked balance twice is dropping it once.
pub proof fn lemma_unlock_twice(account: AccountView, task_id: Seq<char>)
    ensures
        account.unlock(task_id).unlock(task_id) == account.unlock(task_id),
{
    lemma_without_absent(account.locked_order, task_id);
    lemma_without_nothing(without(account.locked_order, task_id), task_id);
    assert(account.locked_balance.remove(task_id).remove(task_id) =~= account.locked_balance.remove(
        task_id,
    ));
}

/// Withdrawing the late approvals of a list touches the accounts only by
/// dropping the balance that is locked on the task for workers whose approval
/// could be withdrawn.
pub proof fn lemma_cap_only_unlocks(
    s: DworkView,
    task_id: Seq<char>,
    ids: Seq<ProposalIdView>,
    places: nat,
    now: Timestamp,
)
    ensures
        s.only_unlocks(s.withdraw_late(task_id, ids, places, now).0, ids, task_id),
    decreases ids.len(),
{
    let next = s.withdraw_late(task_id, ids, places, now).0;
    if ids.len() > 0 {
        let rest = ids.drop_last();
        let last = ids.last();
        lemma_cap_only_unlocks(s, task_id, rest, places, now);
        lemma_cap_thins(s, task_id, rest, places, now);
        let (mid, kept) = s.withdraw_late(task_id, rest, places, now);
        assert forall|a: Seq<char>| s.holds_place_for(rest, a) implies s.holds_place_for(ids, a) by {
            let i = choose|i: int|
                0 <= i < rest.len() && s.is_approved(#[trigger] rest[i])
                    && s.proposals[rest[i]].account_id == a;
            assert(ids[i] == rest[i]);
        }
        if mid.is_approved(last) && kept >= places {
            assert(next == mid.demote(task_id, last, now));
            assert(s.proposals.contains_key(last));
            assert(mid.proposals[last] == s.proposals[last]);
            let worker = s.proposals[last].account_id;
            assert(ids[ids.len() - 1] == last);
            assert(s.holds_place_for(ids, worker));
            assert forall|a: Seq<char>|
                {
                    &&& s.accounts.contains_key(a) <==> #[trigger] next.accounts.contains_key(a)
                    &&& s.accounts.contains_key(a) ==> next.accounts[a] == s.accounts[a] || (
                    next.accounts[a] == s.accounts[a].unlock(task_id) && s.holds_place_for(ids, a))
                } by {
                assert(s.accounts.contains_key(a) <==> mid.accounts.contains_key(a));
                if s.accounts.contains_key(a) {
                    if a == worker {
                        lemma_unlock_twice(s.accounts[a], task_id);
                    } else {
                        assert(next.accounts[a] == mid.accounts[a]);
                    }
                }
            }
            assert(s.only_unlocks(next, ids, task_id));
        } else {
            assert(next == mid);
            assert forall|a: Seq<char>|
                {
                    &&& s.accounts.contains_key(a) <==> #[trigger] next.accounts.contains_key(a)
                    &&& s.accounts.contains_key(a) ==> next.accounts[a] == s.accounts[a] || (
                    next.accounts[a] == s.accounts[a].unlock(task_id) && s.holds_place_for(ids, a))
                } by {
                assert(s.accounts.contains_key(a) <==> mid.accounts.contains_key(a));
            }
            assert(s.only_unlocks(next, ids, task_id));
        }
    } else {
        assert(next == s);
        assert(s.only_unlocks(next, ids, task_id));
    }
}

/// Where none of the proposals `ids` is decided by an admin, the list names
/// no admin who decided.
pub proof fn lemma_no_adjudicators(s: DworkView, ids: Seq<ProposalIdView>)
    requires
        forall|i: int| 0 <= i < ids.len() ==> !s.is_adjudicated(#[trigger] ids[i]),
    ensures
        s.adjudicators(ids) == Seq::<Seq<char>>::empty(),
    decreases ids.len(),
{
    if ids.len() > 0 {
        let rest = ids.drop_last();
        assert forall|i: int| 0 <= i < rest.len() implies !s.is_adjudicated(#[trigger] rest[i]) by {
            assert(rest[i] == ids[i]);
        }
        lemma_no_adjudicators(s, rest);
        assert(ids.last() == ids[ids.len() - 1]);
    }
}

/// After the late approvals of a list without repetitions are withdrawn, the
/// approvals by the owner that the list holds are those that were kept, no
/// more than there are places, and the approvals by admins are as before.
pub proof fn lemma_cap_keeps_within(
    s: DworkView,
    task_id: Seq<char>,
    ids: Seq<ProposalIdView>,
    places: nat,
    now: Timestamp,
)
    requires
        ids.no_duplicates(),
    ensures
        s.withdraw_late(task_id, ids, places, now).1 == s.withdraw_late(
            task_id,
            ids,
            places,
            now,
        ).0.approved_count(ids),
        s.withdraw_late(task_id, ids, places, now).1 <= places,
        s.withdraw_late(task_id, ids, places, now).0.reinstated_count(ids) == s.reinstated_count(ids),
    decreases ids.len(),
{
    let next = s.withdraw_late(task_id, ids, places, now).0;
    lemma_cap_thins(s, task_id, ids, places, now);
    assert forall|i: int| 0 <= i < ids.len() implies s.is_reinstated(#[trigger] ids[i])
        == next.is_reinstated(ids[i]) by {
        let id = ids[i];
        assert(s.proposals.contains_key(id) <==> next.proposals.contains_key(id));
    }
    lemma_count_agree(
        ids,
        |id: ProposalIdView| s.is_reinstated(id),
        |id: ProposalIdView| next.is_reinstated(id),
    );
    if ids.len() > 0 {
        let rest = ids.drop_last();
        let last = ids.last();
        assert(rest.no_duplicates()) by {
            assert forall|i: int, j: int| 0 <= i < rest.len() && 0 <= j < rest.len() && i != j implies rest[i]
                != rest[j] by {
                assert(rest[i] == ids[i] && rest[j] == ids[j]);
            }
        }
        lemma_cap_keeps_within(s, task_id, rest, places, now);
        let (mid, kept) = s.withdraw_late(task_id, rest, places, now);
        if mid.is_approved(last) && kept >= places {
            assert(next == mid.demote(task_id, last, now));
            assert forall|i: int| 0 <= i < rest.len() implies mid.is_approved(#[trigger] rest[i])
                == next.is_approved(rest[i]) by {
                assert(rest[i] == ids[i]);
                assert(last == ids[ids.len() - 1]);
                assert(rest[i] != last);
            }
            lemma_count_agree(
                rest,
                |id: ProposalIdView| mid.is_approved(id),
                |id: ProposalIdView| next.is_approved(id),
            );
            assert(!next.is_approved(last));
        } else {
            assert(next == mid);
        }
    }
}

/// A task stays sound where its list and its cap stay, the proposals that it
/// lists stay on record, and none of them becomes approved.
pub(crate) proof fn lemma_task_stays_sound(s: DworkView, next: DworkView, task_id: Seq<char>)
    requires
        s.task_sound(task_id),
        next.tasks[task_id].proposals == s.tasks[task_id].proposals,
        next.tasks[task_id].max_participants == s.tasks[task_id].max_participants,
        next.tasks[task_id].price == s.tasks[task_id].price,
        next.tasks[task_id].budget == s.tasks[task_id].budget,
        next.app_config.maximum_proposals_at_one_time
            == s.app_config.maximum_proposals_at_one_time,
        forall|i: int|
            0 <= i < s.tasks[task_id].proposals.len() ==> next.proposals.contains_key(
                #[trigger] s.tasks[task_id].proposals[i],
            ) && (next.is_entitled(s.tasks[task_id].proposals[i]) ==> s.is_entitled(
                s.tasks[task_id].proposals[i],
            )),
    ensures
        next.task_sound(task_id),
{
    let ids = s.tasks[task_id].proposals;
    let p = |id: ProposalIdView| s.is_entitled(id);
    let q = |id: ProposalIdView| next.is_entitled(id);
    assert forall|i: int| 0 <= i < ids.len() && q(#[trigger] ids[i]) implies p(ids[i]) by {}
    lemma_count_shrinks(ids, p, q);
    assert forall|i: int| 0 <= i < ids.len() implies (#[trigger] ids[i]).task_id == task_id
        && next.proposals.contains_key(ids[i]) by {}
}

/// What the approval of a report makes of the proposals: the disputed one
/// becomes approved by the admin, and every other one stays or loses its
/// place.
pub(crate) proof fn lemma_approval_of_report(s: DworkView, ctx: CallContextView, report_id: ReportIdView)
    requires
        s.approve_report(ctx, report_id) is Ok,
    ensures
        ({
            let next = s.approve_report(ctx, report_id)->Ok_0;
            let id = DworkView::disputed(s.reports[report_id]);
            &&& s.reinstate(ctx, report_id).thinned_to(next, ctx.block_timestamp)
            &&& next.proposals.contains_key(id)
            &&& next.proposals[id].status == (ProposalStatusView::ApprovedByAdmin {
                account_id: ctx.predecessor_account_id,
            })
            &&& s.proposals[id].status.under_review()
        }),
{
    let report = s.reports[report_id];
    let task = s.tasks[report.task_id];
    let mid = s.reinstate(ctx, report_id);
    lemma_cap_thins(
        mid,
        report.task_id,
        task.proposals,
        mid.places_left(task.proposals, task.max_participants as nat),
        ctx.block_timestamp,
    );
    let id = DworkView::disputed(report);
    assert(mid.proposals.contains_key(id));
}

/// A call that only keeps records: it leaves the proposals and the reports
/// as they are, keeps the list and the cap of every task, and records new
/// tasks without proposals.
pub(crate) proof fn lemma_quiet_call(s: DworkView, next: DworkView)
    requires
        s.keeps_records(next),
    ensures
        s.steps_to(next),
        s.reports_step_to(next),
        s.tasks_sound() ==> next.tasks_sound(),
        s.proposals_sound() ==> next.proposals_sound(),
        s.reports_sound() ==> next.reports_sound(),
{
    if s.proposals_sound() {
        assert forall|id: ProposalIdView| #[trigger] next.proposals.contains_key(id) implies next.proposal_sound(
            id,
        ) by {
            assert(s.proposal_sound(id));
        }
    }
    if s.tasks_sound() {
        assert forall|t: Seq<char>| #[trigger] next.tasks.contains_key(t) implies next.task_sound(t) by {
            if s.tasks.contains_key(t) {
                lemma_task_stays_sound(s, next, t);
            }
        }
    }
    if s.reports_sound() {
        assert forall|r: ReportIdView| #[trigger] next.reports.contains_key(r) implies next.report_sound(r) by {
            assert(s.report_sound(r));
        }
    }
}

pub(crate) proof fn lemma_new_task_keeps_records(s: DworkView, ctx: CallContextView, title: Seq<char>, description: Seq<char>, price: Balance, max_participants: u16, duration: Duration, category_id: Seq<char>)
    requires
        s.new_task(ctx, title, description, price, max_participants, duration, category_id) is Ok,
    ensures
        s.keeps_records(s.new_task(ctx, title, description, price, max_participants, duration, category_id)->Ok_0),
{
    let base = price * max_participants;
    let percent = s.app_config.service_fee_percent;
    assert(base * percent / 100 >= 0) by (nonlinear_arith)
        requires
            base >= 0,
            percent >= 0,
    ;
}

pub(crate) proof fn lemma_mark_task_as_completed_keeps_records(s: DworkView, ctx: CallContextView, task_id: Seq<char>)
    requires
        s.mark_task_as_completed(ctx, task_id) is Ok,
    ensures
        s.keeps_records(s.mark_task_as_completed(ctx, task_id)->Ok_0),
{
}

pub(crate) proof fn lemma_claim_keeps_records(s: DworkView, ctx: CallContextView, task_id: Seq<char>)
    requires
        s.claim(ctx, task_id) is Ok,
    ensures
        s.keeps_records(s.claim(ctx, task_id)->Ok_0),
{
}

pub(crate) proof fn lemma_initiate_transfer_keeps_records(s: DworkView, task_id: Seq<char>, beneficiary_id: Seq<char>, amount: Balance)
    requires
        s.initiate_transfer(task_id, beneficiary_id, amount) is Ok,
    ensures
        s.keeps_records(s.initiate_transfer(task_id, beneficiary_id, amount)->Ok_0),
{
}

pub(crate) proof fn lemma_on_transferd_keeps_records(s: DworkView, ctx: CallContextView, task_id: Seq<char>, beneficiary_id: Seq<char>, amount: Balance, outcome: TransferOutcome)
    requires
        s.on_transferd(ctx, task_id, beneficiary_id, amount, outcome) is Ok,
    ensures
        s.keeps_records(s.on_transferd(ctx, task_id, beneficiary_id, amount, outcome)->Ok_0),
{
}

pub(crate) proof fn lemma_register_keeps_records(s: DworkView, ctx: CallContextView)
    requires
        s.register(ctx) is Ok,
    ensures
        s.keeps_records(s.register(ctx)->Ok_0),
{
}

pub(crate) proof fn lemma_update_bio_keeps_records(s: DworkView, ctx: CallContextView, bio: Seq<char>)
    requires
        s.update_bio(ctx, bio) is Ok,
    ensures
        s.keeps_records(s.update_bio(ctx, bio)->Ok_0),
{
}

pub(crate) proof fn lemma_add_pos_point_keeps_records(s: DworkView, account_id: Seq<char>, point: u32)
    requires
        s.add_pos_point(account_id, point) is Ok,
    ensures
        s.keeps_records(s.add_pos_point(account_id, point)->Ok_0),
{
}

pub(crate) proof fn lemma_add_neg_point_keeps_records(s: DworkView, account_id: Seq<char>, point: u32)
    requires
        s.add_neg_point(account_id, point) is Ok,
    ensures
        s.keeps_records(s.add_neg_point(account_id, point)->Ok_0),
{
}

pub(crate) proof fn lemma_add_admin_keeps_records(s: DworkView, ctx: CallContextView, account_id: Seq<char>)
    requires
        s.add_admin(ctx, account_id) is Ok,
    ensures
        s.keeps_records(s.add_admin(ctx, account_id)->Ok_0),
{
}

pub(crate) proof fn lemma_remove_admin_keeps_records(s: DworkView, ctx: CallContextView, account_id: Seq<char>)
    requires
        s.remove_admin(ctx, account_id) is Ok,
    ensures
        s.keeps_records(s.remove_admin(ctx, account_id)->Ok_0),
{
}

pub(crate) proof fn lemma_change_state_keeps_records(s: DworkView, ctx: CallContextView, state: RunningState)
    requires
        s.change_state(ctx, state) is Ok,
    ensures
        s.keeps_records(s.change_state(ctx, state)->Ok_0),
{
}

pub(crate) proof fn lemma_add_category_keeps_records(s: DworkView, ctx: CallContextView, id: Seq<char>, name: Seq<char>)
    requires
        s.add_category(ctx, id, name) is Ok,
    ensures
        s.keeps_records(s.add_category(ctx, id, name)->Ok_0),
{
}

pub(crate) proof fn lemma_change_config_keeps_records(
    s: DworkView,
    register_bond: Option<Balance>,
    submit_bond: Option<Balance>,
    min_reward: Option<Balance>,
    max_reward: Option<Balance>,
)
    ensures
        s.keeps_records(s.change_config(register_bond, submit_bond, min_reward, max_reward)),
{
}

/// Every call but those that act on a proposal only keeps records.
pub(crate) proof fn lemma_quiet_calls_keep_records(s: DworkView, ctx: CallContextView, op: Operation)
    requires
        s.apply(ctx, op) is Ok,
        !op.acts_on_proposal(),
    ensures
        s.keeps_records(s.apply(ctx, op)->Ok_0),
{
    match op {
        Operation::NewTask { title, description, price, max_participants, duration, category_id } => {
            lemma_new_task_keeps_records(s, ctx, title, description, price, max_participants, duration, category_id);
        },
        Operation::MarkTaskAsCompleted { task_id } => {
            lemma_mark_task_as_completed_keeps_records(s, ctx, task_id);
        },
        Operation::Claim { task_id } => {
            lemma_claim_keeps_records(s, ctx, task_id);
        },
        Operation::InitiateTransfer { task_id, beneficiary_id, amount } => {
            lemma_initiate_transfer_keeps_records(s, task_id, beneficiary_id, amount);
        },
        Operation::OnTransferd { task_id, beneficiary_id, amount, outcome } => {
            lemma_on_transferd_keeps_records(s, ctx, task_id, beneficiary_id, amount, outcome);
        },
        Operation::Register => {
            lemma_register_keeps_records(s, ctx);
        },
        Operation::UpdateBio { bio } => {
            lemma_update_bio_keeps_records(s, ctx, bio);
        },
        Operation::AddPosPoint { account_id, point } => {
            lemma_add_pos_point_keeps_records(s, account_id, point);
        },
        Operation::AddNegPoint { account_id, point } => {
            lemma_add_neg_point_keeps_records(s, account_id, point);
        },
        Operation::AddAdmin { account_id } => {
            lemma_add_admin_keeps_records(s, ctx, account_id);
        },
        Operation::RemoveAdmin { account_id } => {
            lemma_remove_admin_keeps_records(s, ctx, account_id);
        },
        Operation::ChangeState { state } => {
            lemma_change_state_keeps_records(s, ctx, state);
        },
        Operation::AddCategory { id, name } => {
            lemma_add_category_keeps_records(s, ctx, id, name);
        },
        Operation::ChangeConfig { register_bond, submit_bond, min_reward, max_reward } => {
            lemma_change_config_keeps_records(s, register_bond, submit_bond, min_reward, max_reward);
        },
        _ => {},
    }
}

pub(crate) proof fn lemma_submit_work_steps(s: DworkView, ctx: CallContextView, task_id: Seq<char>, proof_of_work: Seq<char>)
    requires
        s.submit_work(ctx, task_id, proof_of_work) is Ok,
    ensures
        s.steps_to(s.submit_work(ctx, task_id, proof_of_work)->Ok_0),
        s.reports_step_to(s.submit_work(ctx, task_id, proof_of_work)->Ok_0),
{
}

pub(crate) proof fn lemma_approve_work_steps(s: DworkView, ctx: CallContextView, task_id: Seq<char>, worker_id: Seq<char>)
    requires
        s.approve_work(ctx, task_id, worker_id) is Ok,
    ensures
        s.steps_to(s.approve_work(ctx, task_id, worker_id)->Ok_0),
        s.reports_step_to(s.approve_work(ctx, task_id, worker_id)->Ok_0),
{
}

pub(crate) proof fn lemma_reject_work_steps(
    s: DworkView,
    ctx: CallContextView,
    task_id: Seq<char>,
    worker_id: Seq<char>,
    reason: Seq<char>,
)
    requires
        s.reject_work(ctx, task_id, worker_id, reason) is Ok,
    ensures
        s.steps_to(s.reject_work(ctx, task_id, worker_id, reason)->Ok_0),
        s.reports_step_to(s.reject_work(ctx, task_id, worker_id, reason)->Ok_0),
{
}

pub(crate) proof fn lemma_report_rejection_steps(s: DworkView, ctx: CallContextView, task_id: Seq<char>, report: Seq<char>)
    requires
        s.report_rejection(ctx, task_id, report) is Ok,
    ensures
        s.steps_to(s.report_rejection(ctx, task_id, report)->Ok_0),
        s.reports_sound() ==> s.reports_step_to(s.report_rejection(ctx, task_id, report)->Ok_0),
{
    let report_id = ReportIdView { account_id: ctx.predecessor_account_id, task_id };
    if s.reports_sound() && s.reports.contains_key(report_id) {
        assert(s.report_sound(report_id));
    }
}

pub(crate) proof fn lemma_reject_report_steps(s: DworkView, ctx: CallContextView, report_id: ReportIdView)
    requires
        s.reject_report(ctx, report_id) is Ok,
    ensures
        s.steps_to(s.reject_report(ctx, report_id)->Ok_0),
        s.reports_step_to(s.reject_report(ctx, report_id)->Ok_0),
{
}

/// The approval of a report decides the disputed proposal and leaves every
/// other one as it is or takes its place from it.
pub(crate) proof fn lemma_approve_report_steps(s: DworkView, ctx: CallContextView, report_id: ReportIdView)
    requires
        s.approve_report(ctx, report_id) is Ok,
    ensures
        s.steps_or_yields_to(s.approve_report(ctx, report_id)->Ok_0, ctx.block_timestamp),
        s.reports_step_to(s.approve_report(ctx, report_id)->Ok_0),
{
    let next = s.approve_report(ctx, report_id)->Ok_0;
    let mid = s.reinstate(ctx, report_id);
    let decided = DworkView::disputed(s.reports[report_id]);
    let now = ctx.block_timestamp;
    lemma_approval_of_report(s, ctx, report_id);
    assert forall|id: ProposalIdView| s.proposals.contains_key(id) implies #[trigger] next.proposals.contains_key(
        id,
    ) && (next.proposals[id].status == s.proposals[id].status || s.proposals[id].status.step(
        next.proposals[id].status,
    ) || DworkView::loses_place(s.proposals[id].status, next.proposals[id].status, now)) by {
        assert(mid.proposals.contains_key(id));
        if id == decided {
            assert(s.proposals[id].status.step(next.proposals[id].status));
        } else {
            assert(mid.proposals[id] == s.proposals[id]);
        }
    }
    assert forall|id: ProposalIdView|
        !s.proposals.contains_key(id) && #[trigger] next.proposals.contains_key(
            id,
        ) implies next.proposals[id].status is Pending by {
        assert(mid.proposals.contains_key(id));
    }
    assert forall|r: ReportIdView| s.reports.contains_key(r) implies #[trigger] next.reports.contains_key(r)
        && (next.reports[r] == s.reports[r] || (s.reports[r].status is Pending && !(
    next.reports[r].status is Pending) && next.reports[r] == ReportView {
        status: next.reports[r].status,
        ..s.reports[r]
    })) by {
        assert(mid.reports.contains_key(r));
    }
}

pub(crate) proof fn lemma_submit_work_keeps_tasks_sound(
    s: DworkView,
    ctx: CallContextView,
    task_id: Seq<char>,
    proof_of_work: Seq<char>,
)
    requires
        s.tasks_sound(),
        s.submit_work(ctx, task_id, proof_of_work) is Ok,
    ensures
        s.submit_work(ctx, task_id, proof_of_work)->Ok_0.tasks_sound(),
{
    let next = s.submit_work(ctx, task_id, proof_of_work)->Ok_0;
    let id = ProposalIdView { task_id, account_id: ctx.predecessor_account_id };
    assert forall|t: Seq<char>| #[trigger] next.tasks.contains_key(t) implies next.task_sound(t) by {
        assert(s.tasks.contains_key(t));
        if t != task_id {
            lemma_task_stays_sound(s, next, t);
        } else {
            let ids = s.tasks[t].proposals;
            let grown = next.tasks[t].proposals;
            assert(grown == ids.push(id));
            assert(!ids.contains(id)) by {
                if ids.contains(id) {
                    let j = choose|j: int| 0 <= j < ids.len() && ids[j] == id;
                    assert(s.proposals.contains_key(ids[j]));
                }
            }
            assert(grown.drop_last() =~= ids);
            let p = |x: ProposalIdView| s.is_entitled(x);
            let q = |x: ProposalIdView| next.is_entitled(x);
            assert forall|i: int| 0 <= i < ids.len() implies p(#[trigger] ids[i]) == q(ids[i]) by {
                assert(s.proposals.contains_key(ids[i]));
            }
            lemma_count_agree(ids, p, q);
            assert(!q(grown.last()));
            assert forall|i: int| 0 <= i < grown.len() implies (#[trigger] grown[i]).task_id == t
                && next.proposals.contains_key(grown[i]) by {
                if i < ids.len() {
                    assert(grown[i] == ids[i]);
                    assert(s.proposals.contains_key(ids[i]));
                }
            }
            assert(grown.no_duplicates()) by {
                assert forall|i: int, j: int|
                    0 <= i < grown.len() && 0 <= j < grown.len() && i != j implies grown[i]
                    != grown[j] by {
                    if i < ids.len() && j < ids.len() {
                        assert(grown[i] == ids[i] && grown[j] == ids[j]);
                    } else if i < ids.len() {
                        assert(grown[i] == ids[i]);
                    } else {
                        assert(grown[j] == ids[j]);
                    }
                }
            }
        }
    }
}

pub(crate) proof fn lemma_approve_work_keeps_tasks_sound(
    s: DworkView,
    ctx: CallContextView,
    task_id: Seq<char>,
    worker_id: Seq<char>,
)
    requires
        s.tasks_sound(),
        s.approve_work(ctx, task_id, worker_id) is Ok,
    ensures
        s.approve_work(ctx, task_id, worker_id)->Ok_0.tasks_sound(),
{
    let next = s.approve_work(ctx, task_id, worker_id)->Ok_0;
    let id = ProposalIdView { task_id, account_id: worker_id };
    assert forall|t: Seq<char>| #[trigger] next.tasks.contains_key(t) implies next.task_sound(t) by {
        assert(s.tasks.contains_key(t));
        let ids = s.tasks[t].proposals;
        let p = |x: ProposalIdView| s.is_entitled(x);
        let q = |x: ProposalIdView| next.is_entitled(x);
        assert forall|i: int| 0 <= i < ids.len() && ids[i] != id implies p(#[trigger] ids[i]) == q(
            ids[i],
        ) by {}
        lemma_count_grows_by_one(ids, p, q, id);
        if t != task_id {
            assert(!ids.contains(id)) by {
                if ids.contains(id) {
                    let j = choose|j: int| 0 <= j < ids.len() && ids[j] == id;
                    assert(ids[j].task_id == t);
                }
            }
        }
        assert forall|i: int| 0 <= i < ids.len() implies (#[trigger] ids[i]).task_id == t
            && next.proposals.contains_key(ids[i]) by {
            assert(s.proposals.contains_key(ids[i]));
        }
    }
}

/// A call after which no proposal is lost and none is newly approved keeps
/// the tasks sound, where it keeps the list and the cap of every task.
pub(crate) proof fn lemma_no_new_approval_keeps_tasks_sound(s: DworkView, next: DworkView)
    requires
        s.tasks_sound(),
        next.app_config.maximum_proposals_at_one_time
            == s.app_config.maximum_proposals_at_one_time,
        forall|t: Seq<char>| #[trigger]
            next.tasks.contains_key(t) ==> s.tasks.contains_key(t) && next.tasks[t].proposals
                == s.tasks[t].proposals && next.tasks[t].max_participants
                == s.tasks[t].max_participants && next.tasks[t].price == s.tasks[t].price
                && next.tasks[t].budget == s.tasks[t].budget,
        forall|id: ProposalIdView|
            s.proposals.contains_key(id) ==> #[trigger] next.proposals.contains_key(id) && (
            next.is_entitled(id) ==> s.is_entitled(id)),
    ensures
        next.tasks_sound(),
{
    assert forall|t: Seq<char>| #[trigger] next.tasks.contains_key(t) implies next.task_sound(t) by {
        let ids = s.tasks[t].proposals;
        assert(s.task_sound(t));
        assert forall|i: int| 0 <= i < ids.len() implies next.proposals.contains_key(
            #[trigger] ids[i],
        ) && (next.is_entitled(ids[i]) ==> s.is_entitled(ids[i])) by {
            assert(s.proposals.contains_key(ids[i]));
            assert(next.proposals.contains_key(ids[i]));
        }
        lemma_task_stays_sound(s, next, t);
    }
}

pub(crate) proof fn lemma_reject_work_keeps_tasks_sound(
    s: DworkView,
    ctx: CallContextView,
    task_id: Seq<char>,
    worker_id: Seq<char>,
    reason: Seq<char>,
)
    requires
        s.tasks_sound(),
        s.reject_work(ctx, task_id, worker_id, reason) is Ok,
    ensures
        s.reject_work(ctx, task_id, worker_id, reason)->Ok_0.tasks_sound(),
{
    lemma_no_new_approval_keeps_tasks_sound(s, s.reject_work(ctx, task_id, worker_id, reason)->Ok_0);
}

pub(crate) proof fn lemma_report_rejection_keeps_tasks_sound(
    s: DworkView,
    ctx: CallContextView,
    task_id: Seq<char>,
    report: Seq<char>,
)
    requires
        s.tasks_sound(),
        s.report_rejection(ctx, task_id, report) is Ok,
    ensures
        s.report_rejection(ctx, task_id, report)->Ok_0.tasks_sound(),
{
    lemma_no_new_approval_keeps_tasks_sound(s, s.report_rejection(ctx, task_id, report)->Ok_0);
}

pub(crate) proof fn lemma_reject_report_keeps_tasks_sound(s: DworkView, ctx: CallContextView, report_id: ReportIdView)
    requires
        s.tasks_sound(),
        s.reject_report(ctx, report_id) is Ok,
    ensures
        s.reject_report(ctx, report_id)->Ok_0.tasks_sound(),
{
    lemma_no_new_approval_keeps_tasks_sound(s, s.reject_report(ctx, report_id)->Ok_0);
}

/// After the approval of a report, where the task lists no proposal twice,
/// no more of its proposals stand approved, by the owner or by an admin, than
/// the task can have participants.
pub(crate) proof fn lemma_approve_report_keeps_the_cap(s: DworkView, ctx: CallContextView, report_id: ReportIdView)
    requires
        s.approve_report(ctx, report_id) is Ok,
        s.tasks[s.reports[report_id].task_id].proposals.no_duplicates(),
    ensures
        s.approve_report(ctx, report_id)->Ok_0.entitled_count(
            s.tasks[s.reports[report_id].task_id].proposals,
        ) <= s.tasks[s.reports[report_id].task_id].max_participants,
{
    let report = s.reports[report_id];
    let task = s.tasks[report.task_id];
    let ids = task.proposals;
    let max = task.max_participants as nat;
    let now = ctx.block_timestamp;
    let next = s.approve_report(ctx, report_id)->Ok_0;
    let mid = s.reinstate(ctx, report_id);
    let decided = DworkView::disputed(report);
    assert forall|i: int| 0 <= i < ids.len() && ids[i] != decided implies s.is_reinstated(
        #[trigger] ids[i],
    ) == mid.is_reinstated(ids[i]) by {}
    lemma_count_grows_by_one(
        ids,
        |id: ProposalIdView| s.is_reinstated(id),
        |id: ProposalIdView| mid.is_reinstated(id),
        decided,
    );
    let places = mid.places_left(ids, max);
    assert(places + mid.reinstated_count(ids) == max);
    lemma_cap_keeps_within(mid, report.task_id, ids, places, now);
    assert(next == mid.withdraw_late(report.task_id, ids, places, now).0);
    lemma_count_sum(
        ids,
        |id: ProposalIdView| next.is_approved(id),
        |id: ProposalIdView| next.is_reinstated(id),
        |id: ProposalIdView| next.is_entitled(id),
    );
}

pub(crate) proof fn lemma_approve_report_keeps_tasks_sound(s: DworkView, ctx: CallContextView, report_id: ReportIdView)
    requires
        s.tasks_sound(),
        s.approve_report(ctx, report_id) is Ok,
    ensures
        s.approve_report(ctx, report_id)->Ok_0.tasks_sound(),
{
    let report = s.reports[report_id];
    let next = s.approve_report(ctx, report_id)->Ok_0;
    let mid = s.reinstate(ctx, report_id);
    let decided = DworkView::disputed(report);
    lemma_approval_of_report(s, ctx, report_id);
    assert(s.tasks.contains_key(report.task_id));
    assert(s.task_sound(report.task_id));
    lemma_approve_report_keeps_the_cap(s, ctx, report_id);
    assert forall|t: Seq<char>| #[trigger] next.tasks.contains_key(t) implies next.task_sound(t) by {
        assert(s.tasks.contains_key(t));
        assert(s.task_sound(t));
        let ids = s.tasks[t].proposals;
        if t != report.task_id {
            assert forall|i: int| 0 <= i < ids.len() implies next.proposals.contains_key(
                #[trigger] ids[i],
            ) && (next.is_entitled(ids[i]) ==> s.is_entitled(ids[i])) by {
                assert(ids[i].task_id == t);
                assert(ids[i] != decided);
                assert(s.proposals.contains_key(ids[i]));
                assert(mid.proposals.contains_key(ids[i]));
                assert(mid.proposals[ids[i]] == s.proposals[ids[i]]);
            }
            lemma_task_stays_sound(s, next, t);
        } else {
            assert forall|i: int| 0 <= i < ids.len() implies (#[trigger] ids[i]).task_id == t
                && next.proposals.contains_key(ids[i]) by {
                assert(s.proposals.contains_key(ids[i]));
                assert(mid.proposals.contains_key(ids[i]));
            }
        }
    }
}

/// A call after which every old report stands to its proposal as before
/// keeps the reports sound.
pub(crate) proof fn lemma_untouched_reports_stay_sound(s: DworkView, next: DworkView)
    requires
        s.reports_sound(),
        next.reports == s.reports,
        forall|r: ReportIdView| #[trigger]
            s.reports.contains_key(r) ==> next.proposals.contains_key(
                DworkView::disputed(s.reports[r]),
            ) && next.proposals[DworkView::disputed(s.reports[r])].status
                == s.proposals[DworkView::disputed(s.reports[r])].status,
    ensures
        next.reports_sound(),
{
    assert forall|r: ReportIdView| #[trigger] next.reports.contains_key(r) implies next.report_sound(r) by {
        assert(s.report_sound(r));
    }
}

pub(crate) proof fn lemma_submit_work_keeps_reports_sound(
    s: DworkView,
    ctx: CallContextView,
    task_id: Seq<char>,
    proof_of_work: Seq<char>,
)
    requires
        s.reports_sound(),
        s.submit_work(ctx, task_id, proof_of_work) is Ok,
    ensures
        s.submit_work(ctx, task_id, proof_of_work)->Ok_0.reports_sound(),
{
    let next = s.submit_work(ctx, task_id, proof_of_work)->Ok_0;
    assert forall|r: ReportIdView| #[trigger] s.reports.contains_key(r) implies next.proposals.contains_key(
        DworkView::disputed(s.reports[r]),
    ) && next.proposals[DworkView::disputed(s.reports[r])].status
        == s.proposals[DworkView::disputed(s.reports[r])].status by {
        assert(s.report_sound(r));
    }
    lemma_untouched_reports_stay_sound(s, next);
}

pub(crate) proof fn lemma_approve_work_keeps_reports_sound(
    s: DworkView,
    ctx: CallContextView,
    task_id: Seq<char>,
    worker_id: Seq<char>,
)
    requires
        s.reports_sound(),
        s.approve_work(ctx, task_id, worker_id) is Ok,
    ensures
        s.approve_work(ctx, task_id, worker_id)->Ok_0.reports_sound(),
{
    let next = s.approve_work(ctx, task_id, worker_id)->Ok_0;
    assert forall|r: ReportIdView| #[trigger] s.reports.contains_key(r) implies next.proposals.contains_key(
        DworkView::disputed(s.reports[r]),
    ) && next.proposals[DworkView::disputed(s.reports[r])].status
        == s.proposals[DworkView::disputed(s.reports[r])].status by {
        assert(s.report_sound(r));
    }
    lemma_untouched_reports_stay_sound(s, next);
}

pub(crate) proof fn lemma_reject_work_keeps_reports_sound(
    s: DworkView,
    ctx: CallContextView,
    task_id: Seq<char>,
    worker_id: Seq<char>,
    reason: Seq<char>,
)
    requires
        s.reports_sound(),
        s.reject_work(ctx, task_id, worker_id, reason) is Ok,
    ensures
        s.reject_work(ctx, task_id, worker_id, reason)->Ok_0.reports_sound(),
{
    let next = s.reject_work(ctx, task_id, worker_id, reason)->Ok_0;
    assert forall|r: ReportIdView| #[trigger] s.reports.contains_key(r) implies next.proposals.contains_key(
        DworkView::disputed(s.reports[r]),
    ) && next.proposals[DworkView::disputed(s.reports[r])].status
        == s.proposals[DworkView::disputed(s.reports[r])].status by {
        assert(s.report_sound(r));
    }
    lemma_untouched_reports_stay_sound(s, next);
}

pub(crate) proof fn lemma_report_rejection_keeps_reports_sound(
    s: DworkView,
    ctx: CallContextView,
    task_id: Seq<char>,
    report: Seq<char>,
)
    requires
        s.reports_sound(),
        s.report_rejection(ctx, task_id, report) is Ok,
    ensures
        s.report_rejection(ctx, task_id, report)->Ok_0.reports_sound(),
{
    let next = s.report_rejection(ctx, task_id, report)->Ok_0;
    let report_id = ReportIdView { account_id: ctx.predecessor_account_id, task_id };
    assert forall|r: ReportIdView| #[trigger] next.reports.contains_key(r) implies next.report_sound(r) by {
        if r != report_id {
            assert(s.reports.contains_key(r));
            assert(s.report_sound(r));
        }
    }
}

pub(crate) proof fn lemma_reject_report_keeps_reports_sound(s: DworkView, ctx: CallContextView, report_id: ReportIdView)
    requires
        s.reports_sound(),
        s.reject_report(ctx, report_id) is Ok,
    ensures
        s.reject_report(ctx, report_id)->Ok_0.reports_sound(),
{
    let next = s.reject_report(ctx, report_id)->Ok_0;
    assert(s.report_sound(report_id));
    assert forall|r: ReportIdView| #[trigger] next.reports.contains_key(r) implies next.report_sound(r) by {
        assert(s.reports.contains_key(r));
        assert(s.report_sound(r));
    }
}

pub(crate) proof fn lemma_approve_report_keeps_reports_sound(s: DworkView, ctx: CallContextView, report_id: ReportIdView)
    requires
        s.reports_sound(),
        s.approve_report(ctx, report_id) is Ok,
    ensures
        s.approve_report(ctx, report_id)->Ok_0.reports_sound(),
{
    let next = s.approve_report(ctx, report_id)->Ok_0;
    let mid = s.reinstate(ctx, report_id);
    let decided = DworkView::disputed(s.reports[report_id]);
    lemma_approval_of_report(s, ctx, report_id);
    assert(s.report_sound(report_id));
    assert forall|r: ReportIdView| #[trigger] next.reports.contains_key(r) implies next.report_sound(r) by {
        assert(mid.reports.contains_key(r));
        assert(s.reports.contains_key(r));
        assert(s.report_sound(r));
        let id = DworkView::disputed(s.reports[r]);
        assert(mid.proposals.contains_key(id));
        if r == report_id {
            assert(id == decided);
        } else {
            assert(id != decided);
            assert(mid.proposals[id] == s.proposals[id]);
            assert(next.reports[r] == s.reports[r]);
        }
    }
}

/// A call that leaves the reports as they are, and after which no proposal is
/// under review that was not so before, keeps the proposals sound.
pub(crate) proof fn lemma_no_new_review_keeps_proposals_sound(s: DworkView, next: DworkView)
    requires
        s.proposals_sound(),
        next.reports == s.reports,
        forall|id: ProposalIdView| #[trigger]
            next.proposals.contains_key(id) ==> if s.proposals.contains_key(id) {
                &&& next.proposals[id].account_id == s.proposals[id].account_id
                &&& next.proposals[id].status.under_review() ==> next.proposals[id].status
                    == s.proposals[id].status
            } else {
                &&& next.proposals[id].account_id == id.account_id
                &&& !next.proposals[id].status.under_review()
            },
    ensures
        next.proposals_sound(),
{
    assert forall|id: ProposalIdView| #[trigger] next.proposals.contains_key(id) implies next.proposal_sound(
        id,
    ) by {
        if s.proposals.contains_key(id) {
            assert(s.proposal_sound(id));
        }
    }
}

pub(crate) proof fn lemma_submit_work_keeps_proposals_sound(
    s: DworkView,
    ctx: CallContextView,
    task_id: Seq<char>,
    proof_of_work: Seq<char>,
)
    requires
        s.proposals_sound(),
        s.submit_work(ctx, task_id, proof_of_work) is Ok,
    ensures
        s.submit_work(ctx, task_id, proof_of_work)->Ok_0.proposals_sound(),
{
    lemma_no_new_review_keeps_proposals_sound(s, s.submit_work(ctx, task_id, proof_of_work)->Ok_0);
}

pub(crate) proof fn lemma_approve_work_keeps_proposals_sound(
    s: DworkView,
    ctx: CallContextView,
    task_id: Seq<char>,
    worker_id: Seq<char>,
)
    requires
        s.proposals_sound(),
        s.approve_work(ctx, task_id, worker_id) is Ok,
    ensures
        s.approve_work(ctx, task_id, worker_id)->Ok_0.proposals_sound(),
{
    lemma_no_new_review_keeps_proposals_sound(s, s.approve_work(ctx, task_id, worker_id)->Ok_0);
}

pub(crate) proof fn lemma_reject_work_keeps_proposals_sound(
    s: DworkView,
    ctx: CallContextView,
    task_id: Seq<char>,
    worker_id: Seq<char>,
    reason: Seq<char>,
)
    requires
        s.proposals_sound(),
        s.reject_work(ctx, task_id, worker_id, reason) is Ok,
    ensures
        s.reject_work(ctx, task_id, worker_id, reason)->Ok_0.proposals_sound(),
{
    lemma_no_new_review_keeps_proposals_sound(
        s,
        s.reject_work(ctx, task_id, worker_id, reason)->Ok_0,
    );
}

pub(crate) proof fn lemma_report_rejection_keeps_proposals_sound(
    s: DworkView,
    ctx: CallContextView,
    task_id: Seq<char>,
    report: Seq<char>,
)
    requires
        s.proposals_sound(),
        s.report_rejection(ctx, task_id, report) is Ok,
    ensures
        s.report_rejection(ctx, task_id, report)->Ok_0.proposals_sound(),
{
    let next = s.report_rejection(ctx, task_id, report)->Ok_0;
    let disputed = ProposalIdView { task_id, account_id: ctx.predecessor_account_id };
    assert forall|id: ProposalIdView| #[trigger] next.proposals.contains_key(id) implies next.proposal_sound(
        id,
    ) by {
        if id != disputed {
            assert(s.proposal_sound(id));
        }
    }
}

pub(crate) proof fn lemma_reject_report_keeps_proposals_sound(s: DworkView, ctx: CallContextView, report_id: ReportIdView)
    requires
        s.proposals_sound(),
        s.reports_sound(),
        s.reject_report(ctx, report_id) is Ok,
    ensures
        s.reject_report(ctx, report_id)->Ok_0.proposals_sound(),
{
    let next = s.reject_report(ctx, report_id)->Ok_0;
    let decided = DworkView::disputed(s.reports[report_id]);
    assert(s.report_sound(report_id));
    assert forall|id: ProposalIdView| #[trigger] next.proposals.contains_key(id) implies next.proposal_sound(
        id,
    ) by {
        if id != decided {
            assert(s.proposal_sound(id));
        }
    }
}

pub(crate) proof fn lemma_approve_report_keeps_proposals_sound(s: DworkView, ctx: CallContextView, report_id: ReportIdView)
    requires
        s.proposals_sound(),
        s.reports_sound(),
        s.approve_report(ctx, report_id) is Ok,
    ensures
        s.approve_report(ctx, report_id)->Ok_0.proposals_sound(),
{
    let next = s.approve_report(ctx, report_id)->Ok_0;
    let mid = s.reinstate(ctx, report_id);
    let decided = DworkView::disputed(s.reports[report_id]);
    lemma_approval_of_report(s, ctx, report_id);
    assert(s.report_sound(report_id));
    assert forall|id: ProposalIdView| #[trigger] next.proposals.contains_key(id) implies next.proposal_sound(
        id,
    ) by {
        assert(mid.proposals.contains_key(id));
        if id != decided {
            assert(s.proposals.contains_key(id));
            assert(mid.proposals[id] == s.proposals[id]);
            assert(s.proposal_sound(id));
        }
    }
}

/// A call that locks nothing anew, keeps the tasks with their prices and
/// keeps the approvals keeps the locked balances sound.
pub(crate) proof fn lemma_no_new_lock_keeps_locks_sound(s: DworkView, next: DworkView)
    requires
        s.locks_sound(),
        s.locks_nothing_new(next),
        s.keeps_prices(next),
        s.keeps_approvals(next),
    ensures
        next.locks_sound(),
{
    assert forall|a: Seq<char>, t: Seq<char>|
        next.accounts.contains_key(a) && #[trigger] next.accounts[a].locked_balance.contains_key(
            t,
        ) implies next.lock_sound(a, t) by {
        assert(s.accounts[a].locked_balance.contains_key(t));
        assert(s.lock_sound(a, t));
        let id = ProposalIdView { task_id: t, account_id: a };
        assert(next.is_approved(id) || next.is_reinstated(id));
    }
}

pub(crate) proof fn lemma_new_task_keeps_locks_sound(s: DworkView, ctx: CallContextView, title: Seq<char>, description: Seq<char>, price: Balance, max_participants: u16, duration: Duration, category_id: Seq<char>)
    requires
        s.locks_sound(),
        s.new_task(ctx, title, description, price, max_participants, duration, category_id) is Ok,
    ensures
        s.new_task(ctx, title, description, price, max_participants, duration, category_id)->Ok_0.locks_sound(),
{
    let next = s.new_task(ctx, title, description, price, max_participants, duration, category_id)->Ok_0;
    assert(s.keeps_approvals(next));
    lemma_no_new_lock_keeps_locks_sound(s, next);
}

pub(crate) proof fn lemma_mark_task_as_completed_keeps_locks_sound(s: DworkView, ctx: CallContextView, task_id: Seq<char>)
    requires
        s.locks_sound(),
        s.mark_task_as_completed(ctx, task_id) is Ok,
    ensures
        s.mark_task_as_completed(ctx, task_id)->Ok_0.locks_sound(),
{
    let next = s.mark_task_as_completed(ctx, task_id)->Ok_0;
    assert(s.keeps_approvals(next));
    lemma_no_new_lock_keeps_locks_sound(s, next);
}

pub(crate) proof fn lemma_claim_keeps_locks_sound(s: DworkView, ctx: CallContextView, task_id: Seq<char>)
    requires
        s.locks_sound(),
        s.claim(ctx, task_id) is Ok,
    ensures
        s.claim(ctx, task_id)->Ok_0.locks_sound(),
{
    let next = s.claim(ctx, task_id)->Ok_0;
    assert(s.keeps_approvals(next));
    lemma_no_new_lock_keeps_locks_sound(s, next);
}

pub(crate) proof fn lemma_initiate_transfer_keeps_locks_sound(s: DworkView, task_id: Seq<char>, beneficiary_id: Seq<char>, amount: Balance)
    requires
        s.locks_sound(),
        s.initiate_transfer(task_id, beneficiary_id, amount) is Ok,
    ensures
        s.initiate_transfer(task_id, beneficiary_id, amount)->Ok_0.locks_sound(),
{
    let next = s.initiate_transfer(task_id, beneficiary_id, amount)->Ok_0;
    assert(s.keeps_approvals(next));
    lemma_no_new_lock_keeps_locks_sound(s, next);
}

pub(crate) proof fn lemma_on_transferd_keeps_locks_sound(s: DworkView, ctx: CallContextView, task_id: Seq<char>, beneficiary_id: Seq<char>, amount: Balance, outcome: TransferOutcome)
    requires
        s.locks_sound(),
        s.on_transferd(ctx, task_id, beneficiary_id, amount, outcome) is Ok,
    ensures
        s.on_transferd(ctx, task_id, beneficiary_id, amount, outcome)->Ok_0.locks_sound(),
{
    let next = s.on_transferd(ctx, task_id, beneficiary_id, amount, outcome)->Ok_0;
    assert(s.keeps_approvals(next));
    lemma_no_new_lock_keeps_locks_sound(s, next);
}

pub(crate) proof fn lemma_register_keeps_locks_sound(s: DworkView, ctx: CallContextView)
    requires
        s.locks_sound(),
        s.register(ctx) is Ok,
    ensures
        s.register(ctx)->Ok_0.locks_sound(),
{
    let next = s.register(ctx)->Ok_0;
    assert(s.keeps_approvals(next));
    lemma_no_new_lock_keeps_locks_sound(s, next);
}

pub(crate) proof fn lemma_update_bio_keeps_locks_sound(s: DworkView, ctx: CallContextView, bio: Seq<char>)
    requires
        s.locks_sound(),
        s.update_bio(ctx, bio) is Ok,
    ensures
        s.update_bio(ctx, bio)->Ok_0.locks_sound(),
{
    let next = s.update_bio(ctx, bio)->Ok_0;
    assert(s.keeps_approvals(next));
    lemma_no_new_lock_keeps_locks_sound(s, next);
}

pub(crate) proof fn lemma_add_pos_point_keeps_locks_sound(s: DworkView, account_id: Seq<char>, point: u32)
    requires
        s.locks_sound(),
        s.add_pos_point(account_id, point) is Ok,
    ensures
        s.add_pos_point(account_id, point)->Ok_0.locks_sound(),
{
    let next = s.add_pos_point(account_id, point)->Ok_0;
    assert(s.keeps_approvals(next));
    lemma_no_new_lock_keeps_locks_sound(s, next);
}

pub(crate) proof fn lemma_add_neg_point_keeps_locks_sound(s: DworkView, account_id: Seq<char>, point: u32)
    requires
        s.locks_sound(),
        s.add_neg_point(account_id, point) is Ok,
    ensures
        s.add_neg_point(account_id, point)->Ok_0.locks_sound(),
{
    let next = s.add_neg_point(account_id, point)->Ok_0;
    assert(s.keeps_approvals(next));
    lemma_no_new_lock_keeps_locks_sound(s, next);
}

pub(crate) proof fn lemma_add_admin_keeps_locks_sound(s: DworkView, ctx: CallContextView, account_id: Seq<char>)
    requires
        s.locks_sound(),
        s.add_admin(ctx, account_id) is Ok,
    ensures
        s.add_admin(ctx, account_id)->Ok_0.locks_sound(),
{
    let next = s.add_admin(ctx, account_id)->Ok_0;
    assert(s.keeps_approvals(next));
    lemma_no_new_lock_keeps_locks_sound(s, next);
}

pub(crate) proof fn lemma_remove_admin_keeps_locks_sound(s: DworkView, ctx: CallContextView, account_id: Seq<char>)
    requires
        s.locks_sound(),
        s.remove_admin(ctx, account_id) is Ok,
    ensures
        s.remove_admin(ctx, account_id)->Ok_0.locks_sound(),
{
    let next = s.remove_admin(ctx, account_id)->Ok_0;
    assert(s.keeps_approvals(next));
    lemma_no_new_lock_keeps_locks_sound(s, next);
}

pub(crate) proof fn lemma_change_state_keeps_locks_sound(s: DworkView, ctx: CallContextView, state: RunningState)
    requires
        s.locks_sound(),
        s.change_state(ctx, state) is Ok,
    ensures
        s.change_state(ctx, state)->Ok_0.locks_sound(),
{
    let next = s.change_state(ctx, state)->Ok_0;
    assert(s.keeps_approvals(next));
    lemma_no_new_lock_keeps_locks_sound(s, next);
}

pub(crate) proof fn lemma_add_category_keeps_locks_sound(s: DworkView, ctx: CallContextView, id: Seq<char>, name: Seq<char>)
    requires
        s.locks_sound(),
        s.add_category(ctx, id, name) is Ok,
    ensures
        s.add_category(ctx, id, name)->Ok_0.locks_sound(),
{
    let next = s.add_category(ctx, id, name)->Ok_0;
    assert(s.keeps_approvals(next));
    lemma_no_new_lock_keeps_locks_sound(s, next);
}

pub(crate) proof fn lemma_change_config_keeps_locks_sound(
    s: DworkView,
    register_bond: Option<Balance>,
    submit_bond: Option<Balance>,
    min_reward: Option<Balance>,
    max_reward: Option<Balance>,
)
    requires
        s.locks_sound(),
    ensures
        s.change_config(register_bond, submit_bond, min_reward, max_reward).locks_sound(),
{
    let next = s.change_config(register_bond, submit_bond, min_reward, max_reward);
    assert(s.keeps_approvals(next));
    lemma_no_new_lock_keeps_locks_sound(s, next);
}

pub(crate) proof fn lemma_submit_work_keeps_locks_sound(
    s: DworkView,
    ctx: CallContextView,
    task_id: Seq<char>,
    proof_of_work: Seq<char>,
)
    requires
        s.locks_sound(),
        s.submit_work(ctx, task_id, proof_of_work) is Ok,
    ensures
        s.submit_work(ctx, task_id, proof_of_work)->Ok_0.locks_sound(),
{
    let next = s.submit_work(ctx, task_id, proof_of_work)->Ok_0;
    assert(s.keeps_approvals(next));
    lemma_no_new_lock_keeps_locks_sound(s, next);
}

pub(crate) proof fn lemma_reject_work_keeps_locks_sound(
    s: DworkView,
    ctx: CallContextView,
    task_id: Seq<char>,
    worker_id: Seq<char>,
    reason: Seq<char>,
)
    requires
        s.locks_sound(),
        s.reject_work(ctx, task_id, worker_id, reason) is Ok,
    ensures
        s.reject_work(ctx, task_id, worker_id, reason)->Ok_0.locks_sound(),
{
    let next = s.reject_work(ctx, task_id, worker_id, reason)->Ok_0;
    assert(s.keeps_approvals(next));
    lemma_no_new_lock_keeps_locks_sound(s, next);
}

pub(crate) proof fn lemma_report_rejection_keeps_locks_sound(
    s: DworkView,
    ctx: CallContextView,
    task_id: Seq<char>,
    report: Seq<char>,
)
    requires
        s.locks_sound(),
        s.report_rejection(ctx, task_id, report) is Ok,
    ensures
        s.report_rejection(ctx, task_id, report)->Ok_0.locks_sound(),
{
    let next = s.report_rejection(ctx, task_id, report)->Ok_0;
    assert(s.keeps_approvals(next));
    lemma_no_new_lock_keeps_locks_sound(s, next);
}

pub(crate) proof fn lemma_reject_report_keeps_locks_sound(s: DworkView, ctx: CallContextView, report_id: ReportIdView)
    requires
        s.locks_sound(),
        s.reject_report(ctx, report_id) is Ok,
    ensures
        s.reject_report(ctx, report_id)->Ok_0.locks_sound(),
{
    let next = s.reject_report(ctx, report_id)->Ok_0;
    assert(s.keeps_approvals(next));
    lemma_no_new_lock_keeps_locks_sound(s, next);
}

pub(crate) proof fn lemma_approve_work_keeps_locks_sound(
    s: DworkView,
    ctx: CallContextView,
    task_id: Seq<char>,
    worker_id: Seq<char>,
)
    requires
        s.locks_sound(),
        s.approve_work(ctx, task_id, worker_id) is Ok,
    ensures
        s.approve_work(ctx, task_id, worker_id)->Ok_0.locks_sound(),
{
    let next = s.approve_work(ctx, task_id, worker_id)->Ok_0;
    assert forall|a: Seq<char>, t: Seq<char>|
        next.accounts.contains_key(a) && #[trigger] next.accounts[a].locked_balance.contains_key(
            t,
        ) implies next.lock_sound(a, t) by {
        if !(a == worker_id && t == task_id) {
            assert(s.accounts[a].locked_balance.contains_key(t));
            assert(s.lock_sound(a, t));
        }
    }
}

/// Holding a list of proposals of one task to the cap keeps the locked
/// balances sound: a proposal that loses its place loses its locked balance.
pub(crate) proof fn lemma_cap_keeps_locks_sound(
    s: DworkView,
    task_id: Seq<char>,
    ids: Seq<ProposalIdView>,
    places: nat,
    now: Timestamp,
)
    requires
        s.locks_sound(),
        s.proposals_sound(),
        forall|i: int| 0 <= i < ids.len() ==> (#[trigger] ids[i]).task_id == task_id,
    ensures
        s.withdraw_late(task_id, ids, places, now).0.locks_sound(),
        s.withdraw_late(task_id, ids, places, now).0.proposals_sound(),
    decreases ids.len(),
{
    if ids.len() > 0 {
        let rest = ids.drop_last();
        assert forall|i: int| 0 <= i < rest.len() implies (#[trigger] rest[i]).task_id == task_id by {
            assert(rest[i] == ids[i]);
        }
        lemma_cap_keeps_locks_sound(s, task_id, rest, places, now);
        lemma_cap_thins(s, task_id, rest, places, now);
        let (mid, kept) = s.withdraw_late(task_id, rest, places, now);
        let next = s.withdraw_late(task_id, ids, places, now).0;
        let last = ids.last();
        assert(last == ids[ids.len() - 1]);
        if mid.is_approved(last) && kept >= places {
            assert(next == mid.demote(task_id, last, now));
            assert(mid.proposal_sound(last));
            assert forall|id: ProposalIdView| #[trigger] next.proposals.contains_key(id) implies next.proposal_sound(
                id,
            ) by {
                if id != last {
                    assert(mid.proposal_sound(id));
                }
            }
            assert forall|a: Seq<char>, t: Seq<char>|
                next.accounts.contains_key(a) && #[trigger] next.accounts[a].locked_balance.contains_key(
                    t,
                ) implies next.lock_sound(a, t) by {
                assert(mid.accounts[a].locked_balance.contains_key(t));
                assert(mid.lock_sound(a, t));
            }
        } else {
            assert(next == mid);
        }
    }
}

pub(crate) proof fn lemma_approve_report_keeps_locks_sound(s: DworkView, ctx: CallContextView, report_id: ReportIdView)
    requires
        s.consistent(),
        s.approve_report(ctx, report_id) is Ok,
    ensures
        s.approve_report(ctx, report_id)->Ok_0.locks_sound(),
{
    let report = s.reports[report_id];
    let task = s.tasks[report.task_id];
    let mid = s.reinstate(ctx, report_id);
    let decided = DworkView::disputed(report);
    assert(s.report_sound(report_id));
    assert(s.tasks.contains_key(report.task_id));
    assert(s.task_sound(report.task_id));
    assert forall|id: ProposalIdView| #[trigger] mid.proposals.contains_key(id) implies mid.proposal_sound(
        id,
    ) by {
        if id != decided {
            assert(s.proposal_sound(id));
        } else {
            assert(s.proposal_sound(decided));
        }
    }
    assert forall|a: Seq<char>, t: Seq<char>|
        mid.accounts.contains_key(a) && #[trigger] mid.accounts[a].locked_balance.contains_key(
            t,
        ) implies mid.lock_sound(a, t) by {
        if !(a == report.account_id && t == report.task_id) {
            assert(s.accounts[a].locked_balance.contains_key(t));
            assert(s.lock_sound(a, t));
        }
    }
    lemma_cap_keeps_locks_sound(
        mid,
        report.task_id,
        task.proposals,
        mid.places_left(task.proposals, task.max_participants as nat),
        ctx.block_timestamp,
    );
}

/// Every call but those that act on a proposal keeps the locked balances
/// sound.
pub(crate) proof fn lemma_quiet_calls_keep_locks_sound(s: DworkView, ctx: CallContextView, op: Operation)
    requires
        s.locks_sound(),
        s.apply(ctx, op) is Ok,
        !op.acts_on_proposal(),
    ensures
        s.apply(ctx, op)->Ok_0.locks_sound(),
{
    match op {
        Operation::NewTask { title, description, price, max_participants, duration, category_id } => {
            lemma_new_task_keeps_locks_sound(
                s,
                ctx,
                title,
                description,
                price,
                max_participants,
                duration,
                category_id,
            );
        },
        Operation::MarkTaskAsCompleted { task_id } => {
            lemma_mark_task_as_completed_keeps_locks_sound(s, ctx, task_id);
        },
        Operation::Claim { task_id } => {
            lemma_claim_keeps_locks_sound(s, ctx, task_id);
        },
        Operation::InitiateTransfer { task_id, beneficiary_id, amount } => {
            lemma_initiate_transfer_keeps_locks_sound(s, task_id, beneficiary_id, amount);
        },
        Operation::OnTransferd { task_id, beneficiary_id, amount, outcome } => {
            lemma_on_transferd_keeps_locks_sound(s, ctx, task_id, beneficiary_id, amount, outcome);
        },
        Operation::Register => {
            lemma_register_keeps_locks_sound(s, ctx);
        },
        Operation::UpdateBio { bio } => {
            lemma_update_bio_keeps_locks_sound(s, ctx, bio);
        },
        Operation::AddPosPoint { account_id, point } => {
            lemma_add_pos_point_keeps_locks_sound(s, account_id, point);
        },
        Operation::AddNegPoint { account_id, point } => {
            lemma_add_neg_point_keeps_locks_sound(s, account_id, point);
        },
        Operation::AddAdmin { account_id } => {
            lemma_add_admin_keeps_locks_sound(s, ctx, account_id);
        },
        Operation::RemoveAdmin { account_id } => {
            lemma_remove_admin_keeps_locks_sound(s, ctx, account_id);
        },
        Operation::ChangeConfig { register_bond, submit_bond, min_reward, max_reward } => {
            lemma_change_config_keeps_locks_sound(s, register_bond, submit_bond, min_reward, max_reward);
        },
        Operation::ChangeState { state } => {
            lemma_change_state_keeps_locks_sound(s, ctx, state);
        },
        Operation::AddCategory { id, name } => {
            lemma_add_category_keeps_locks_sound(s, ctx, id, name);
        },
        _ => {},
    }
}

/// Every call but the approval of a report moves the proposals along the
/// status graph.
pub(crate) proof fn lemma_plain_calls_step(s: DworkView, ctx: CallContextView, op: Operation)
    requires
        s.apply(ctx, op) is Ok,
        !(op is ApproveReport),
    ensures
        s.steps_to(s.apply(ctx, op)->Ok_0),
{
    match op {
        Operation::SubmitWork { task_id, proof_of_work } => {
            lemma_submit_work_steps(s, ctx, task_id, proof_of_work);
        },
        Operation::ApproveWork { task_id, worker_id } => {
            lemma_approve_work_steps(s, ctx, task_id, worker_id);
        },
        Operation::RejectWork { task_id, worker_id, reason } => {
            lemma_reject_work_steps(s, ctx, task_id, worker_id, reason);
        },
        Operation::ReportRejection { task_id, report } => {
            lemma_report_rejection_steps(s, ctx, task_id, report);
        },
        Operation::RejectReport { report_id } => {
            lemma_reject_report_steps(s, ctx, report_id);
        },
        _ => {
            lemma_quiet_calls_keep_records(s, ctx, op);
            lemma_quiet_call(s, s.apply(ctx, op)->Ok_0);
        },
    }
}

/// Where every status stays, steps or yields, and no approved proposal ends
/// up rejected, every status stays or steps.
pub(crate) proof fn lemma_no_yield_is_step(s: DworkView, next: DworkView, now: Timestamp)
    requires
        s.steps_or_yields_to(next, now),
        forall|id: ProposalIdView| s.is_approved(id) ==> !(#[trigger] next.proposals[id].status is Rejected),
    ensures
        s.steps_to(next),
{
    assert forall|id: ProposalIdView| s.proposals.contains_key(id) implies #[trigger] next.proposals.contains_key(
        id,
    ) && (next.proposals[id].status == s.proposals[id].status || s.proposals[id].status.step(
        next.proposals[id].status,
    )) by {
        assert(next.proposals.contains_key(id));
        if DworkView::loses_place(s.proposals[id].status, next.proposals[id].status, now) {
            assert(s.is_approved(id));
            assert(next.proposals[id].status is Rejected);
        }
    }
}

/// A status that may step may also step or yield.
pub(crate) proof fn lemma_step_is_step_or_yield(s: DworkView, next: DworkView, now: Timestamp)
    requires
        s.steps_to(next),
    ensures
        s.steps_or_yields_to(next, now),
{
    assert forall|id: ProposalIdView|
        {
            &&& s.proposals.contains_key(id) ==> #[trigger] next.proposals.contains_key(id) && (
            next.proposals[id].status == s.proposals[id].status || s.proposals[id].status.step(
                next.proposals[id].status,
            ) || DworkView::loses_place(s.proposals[id].status, next.proposals[id].status, now))
            &&& !s.proposals.contains_key(id) && next.proposals.contains_key(id)
                ==> next.proposals[id].status is Pending
        } by {
        if s.proposals.contains_key(id) {
            assert(next.proposals.contains_key(id));
        }
        if next.proposals.contains_key(id) && !s.proposals.contains_key(id) {
            assert(next.proposals[id].status is Pending);
        }
    }
}
/// Every call keeps the marketplace consistent.
pub(crate) proof fn lemma_call_keeps_consistency(s: DworkView, ctx: CallContextView, op: Operation)
    requires
        s.consistent(),
        s.apply(ctx, op) is Ok,
    ensures
        s.apply(ctx, op)->Ok_0.consistent(),
{
    match op {
        Operation::SubmitWork { task_id, proof_of_work } => {
            lemma_submit_work_keeps_tasks_sound(s, ctx, task_id, proof_of_work);
            lemma_submit_work_keeps_proposals_sound(s, ctx, task_id, proof_of_work);
            lemma_submit_work_keeps_reports_sound(s, ctx, task_id, proof_of_work);
            lemma_submit_work_keeps_locks_sound(s, ctx, task_id, proof_of_work);
        },
        Operation::ApproveWork { task_id, worker_id } => {
            lemma_approve_work_keeps_tasks_sound(s, ctx, task_id, worker_id);
            lemma_approve_work_keeps_proposals_sound(s, ctx, task_id, worker_id);
            lemma_approve_work_keeps_reports_sound(s, ctx, task_id, worker_id);
            lemma_approve_work_keeps_locks_sound(s, ctx, task_id, worker_id);
        },
        Operation::RejectWork { task_id, worker_id, reason } => {
            lemma_reject_work_keeps_tasks_sound(s, ctx, task_id, worker_id, reason);
            lemma_reject_work_keeps_proposals_sound(s, ctx, task_id, worker_id, reason);
            lemma_reject_work_keeps_reports_sound(s, ctx, task_id, worker_id, reason);
            lemma_reject_work_keeps_locks_sound(s, ctx, task_id, worker_id, reason);
        },
        Operation::ReportRejection { task_id, report } => {
            lemma_report_rejection_keeps_tasks_sound(s, ctx, task_id, report);
            lemma_report_rejection_keeps_proposals_sound(s, ctx, task_id, report);
            lemma_report_rejection_keeps_reports_sound(s, ctx, task_id, report);
            lemma_report_rejection_keeps_locks_sound(s, ctx, task_id, report);
        },
        Operation::ApproveReport { report_id } => {
            lemma_approve_report_keeps_tasks_sound(s, ctx, report_id);
            lemma_approve_report_keeps_proposals_sound(s, ctx, report_id);
            lemma_approve_report_keeps_reports_sound(s, ctx, report_id);
            lemma_approve_report_keeps_locks_sound(s, ctx, report_id);
        },
        Operation::RejectReport { report_id } => {
            lemma_reject_report_keeps_tasks_sound(s, ctx, report_id);
            lemma_reject_report_keeps_proposals_sound(s, ctx, report_id);
            lemma_reject_report_keeps_reports_sound(s, ctx, report_id);
            lemma_reject_report_keeps_locks_sound(s, ctx, report_id);
        },
        _ => {
            lemma_quiet_calls_keep_records(s, ctx, op);
            lemma_quiet_call(s, s.apply(ctx, op)->Ok_0);
            lemma_quiet_calls_keep_locks_sound(s, ctx, op);
        },
    }
}
/// Every call records a report or decides a pending one, and leaves every
/// other report as it is.
pub(crate) proof fn lemma_call_steps_reports(s: DworkView, ctx: CallContextView, op: Operation)
    requires
        s.consistent(),
        s.apply(ctx, op) is Ok,
    ensures
        s.reports_step_to(s.apply(ctx, op)->Ok_0),
{
    match op {
        Operation::SubmitWork { task_id, proof_of_work } => {
            lemma_submit_work_steps(s, ctx, task_id, proof_of_work);
        },
        Operation::ApproveWork { task_id, worker_id } => {
            lemma_approve_work_steps(s, ctx, task_id, worker_id);
        },
        Operation::RejectWork { task_id, worker_id, reason } => {
            lemma_reject_work_steps(s, ctx, task_id, worker_id, reason);
        },
        Operation::ReportRejection { task_id, report } => {
            lemma_report_rejection_steps(s, ctx, task_id, report);
        },
        Operation::ApproveReport { report_id } => {
            lemma_approve_report_steps(s, ctx, report_id);
        },
        Operation::RejectReport { report_id } => {
            lemma_reject_report_steps(s, ctx, report_id);
        },
        _ => {
            lemma_quiet_calls_keep_records(s, ctx, op);
            lemma_quiet_call(s, s.apply(ctx, op)->Ok_0);
        },
    }
}

} // verus!
