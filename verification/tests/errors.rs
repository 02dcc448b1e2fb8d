use dwork::ext::{ExtDupwork, TransferOutcome};
use dwork::proposal::{Proposal, ProposalId, ProposalStatus};
use dwork::report::ReportId;
use dwork::state::Dwork;
use dwork::types::{CallContext, Error};

const REGISTER_BOND: u128 = 500_000_000_000_000_000_000_000;
const SUBMIT_BOND: u128 = 10_000_000_000_000_000_000_000;
const PRICE: u128 = 1_000_000_000_000_000_000_000_000;
const DAY: u64 = 86_400_000_000_000;

fn ctx(caller: &str, now: u64, deposit: u128, block: u64) -> CallContext {
    CallContext {
        predecessor_account_id: caller.to_string(),
        current_account_id: "dwork.near".to_string(),
        attached_deposit: deposit,
        block_timestamp: now,
        block_index: block,
    }
}

fn pid(task: &str, worker: &str) -> ProposalId {
    ProposalId { task_id: task.to_string(), account_id: worker.to_string() }
}

fn rid(worker: &str, task: &str) -> ReportId {
    ReportId { account_id: worker.to_string(), task_id: task.to_string() }
}

fn market(parties: &[&str]) -> Dwork {
    let mut d = Dwork::new();
    for p in parties {
        assert_eq!(d.register(&ctx(p, 1, REGISTER_BOND, 1)), Ok(()));
    }
    assert_eq!(d.add_admin(&ctx("dwork.near", 1, 0, 1), "judge".to_string()), Ok(true));
    assert_eq!(d.new_category(&ctx("owner", 1, 0, 1), "Web Design".to_string()), Ok(true));
    d
}

fn post(d: &mut Dwork, max: u16) -> String {
    d.new_task(
        &ctx("owner", 100, PRICE * max as u128, 7),
        "Logo".to_string(),
        "Draw a logo".to_string(),
        PRICE,
        max,
        DAY,
        "web_design".to_string(),
    )
    .unwrap()
}

fn submit(d: &mut Dwork, task: &str, worker: &str) {
    assert_eq!(
        d.submit_work(&ctx(worker, 200, SUBMIT_BOND, 8), task.to_string(), "link".to_string()),
        Ok(())
    );
}

fn task(d: &mut Dwork, price: u128, max: u16, deposit: u128, block: u64, category: &str) -> Result<String, Error> {
    d.new_task(
        &ctx("owner", 100, deposit, block),
        "Logo".to_string(),
        "Draw a logo".to_string(),
        price,
        max,
        DAY,
        category.to_string(),
    )
}

#[test]
fn new_task_refuses_what_breaks_a_bound() {
    let mut d = market(&["owner"]);
    // the deposit must be the cost exactly
    assert_eq!(task(&mut d, PRICE, 2, 2 * PRICE - 1, 7, "web_design"), Err(Error::Validation));
    assert_eq!(task(&mut d, PRICE, 2, 2 * PRICE + 1, 7, "web_design"), Err(Error::Validation));
    // the cost must lie between the least and the largest reward
    let least = d.app_config.minimum_reward_per_task;
    let most = d.app_config.maximum_reward_per_task;
    assert_eq!(task(&mut d, least - 1, 1, least - 1, 7, "web_design"), Err(Error::Validation));
    assert_eq!(task(&mut d, most + 1, 1, most + 1, 7, "web_design"), Err(Error::Validation));
    // the cost must fit an amount
    assert_eq!(task(&mut d, u128::MAX, 2, u128::MAX, 7, "web_design"), Err(Error::Validation));
    // no more participants than a task can have
    let small = least / 200;
    assert_eq!(task(&mut d, small, 201, small * 201, 7, "web_design"), Err(Error::Validation));
    assert_eq!(task(&mut d, small, 200, small * 200, 7, "web_design"), Ok("owner_7".to_string()));
    // the title keeps to its length
    let r = d.new_task(
        &ctx("owner", 100, PRICE, 8),
        "t".repeat(101),
        "Draw a logo".to_string(),
        PRICE,
        1,
        DAY,
        "web_design".to_string(),
    );
    assert_eq!(r, Err(Error::Validation));
    // the deadline must fit a timestamp
    let r = d.new_task(
        &ctx("owner", u64::MAX, PRICE, 8),
        "Logo".to_string(),
        "Draw a logo".to_string(),
        PRICE,
        1,
        1,
        "web_design".to_string(),
    );
    assert_eq!(r, Err(Error::Validation));
    assert_eq!(d.task_records.len(), 1);
}

#[test]
fn new_task_needs_account_and_category() {
    let mut d = market(&["owner"]);
    assert_eq!(task(&mut d, PRICE, 1, PRICE, 7, "cooking"), Err(Error::NotFound));
    let r = d.new_task(
        &ctx("stranger", 100, PRICE, 7),
        "Logo".to_string(),
        "Draw a logo".to_string(),
        PRICE,
        1,
        DAY,
        "web_design".to_string(),
    );
    assert_eq!(r, Err(Error::NotFound));
}

#[test]
fn new_task_twice_under_one_sequence_number_is_a_duplicate() {
    let mut d = market(&["owner"]);
    assert_eq!(task(&mut d, PRICE, 1, PRICE, 7, "web_design"), Ok("owner_7".to_string()));
    assert_eq!(task(&mut d, PRICE, 1, PRICE, 7, "web_design"), Err(Error::DuplicateTask));
    assert_eq!(task(&mut d, PRICE, 1, PRICE, 8, "web_design"), Ok("owner_8".to_string()));
    assert_eq!(d.task_records.len(), 2);
}

#[test]
fn submit_work_errors() {
    let mut d = market(&["owner", "w1", "w2"]);
    let id = post(&mut d, 1);
    let link = || "link".to_string();
    assert_eq!(d.submit_work(&ctx("w1", 200, SUBMIT_BOND - 1, 8), id.clone(), link()), Err(Error::Validation));
    assert_eq!(d.submit_work(&ctx("w1", 200, SUBMIT_BOND, 8), "owner_9".to_string(), link()), Err(Error::NotFound));
    assert_eq!(d.submit_work(&ctx("w1", 100 + DAY, SUBMIT_BOND, 8), id.clone(), link()), Err(Error::Timing));
    assert_eq!(d.submit_work(&ctx("ghost", 200, SUBMIT_BOND, 8), id.clone(), link()), Err(Error::NotFound));
    assert_eq!(d.submit_work(&ctx("w1", 100 + DAY - 1, SUBMIT_BOND, 8), id.clone(), link()), Ok(()));
    assert_eq!(d.submit_work(&ctx("w1", 201, SUBMIT_BOND, 8), id.clone(), link()), Err(Error::StateConflict));
    assert_eq!(d.approve_work(&ctx("owner", 300, 0, 9), id.clone(), "w1".to_string()), Ok(()));
    // the task has no room for another approval
    assert_eq!(d.submit_work(&ctx("w2", 301, SUBMIT_BOND, 8), id.clone(), link()), Err(Error::StateConflict));
    assert_eq!(d.proposals.len(), 1);
    assert_eq!(d.task_records.get(&id).unwrap().proposals, vec![pid(&id, "w1")]);
    assert_eq!(d.accounts.get(&"w1".to_string()).unwrap().current_jobs.to_vec(), vec![id.clone()]);
}

#[test]
fn only_the_owner_decides_and_only_once() {
    let mut d = market(&["owner", "w1", "w2"]);
    let id = post(&mut d, 2);
    submit(&mut d, &id, "w1");
    let w1 = || "w1".to_string();
    assert_eq!(d.approve_work(&ctx("w2", 300, 0, 9), id.clone(), w1()), Err(Error::Authorization));
    assert_eq!(
        d.reject_work(&ctx("w2", 300, 0, 9), id.clone(), w1(), "slow".to_string()),
        Err(Error::Authorization)
    );
    assert_eq!(d.approve_work(&ctx("owner", 300, 0, 9), "owner_9".to_string(), w1()), Err(Error::NotFound));
    assert_eq!(d.approve_work(&ctx("owner", 300, 0, 9), id.clone(), "w2".to_string()), Err(Error::NotFound));
    assert_eq!(d.approve_work(&ctx("owner", 300, 0, 9), id.clone(), w1()), Ok(()));
    assert_eq!(d.approve_work(&ctx("owner", 301, 0, 9), id.clone(), w1()), Err(Error::StateConflict));
    assert_eq!(
        d.reject_work(&ctx("owner", 301, 0, 9), id.clone(), w1(), "slow".to_string()),
        Err(Error::StateConflict)
    );
    assert_eq!(d.proposals.get(&pid(&id, "w1")).unwrap().status, ProposalStatus::Approved);
    assert_eq!(d.task_records.get(&id).unwrap().last_rejection_published_at, None);
}

#[test]
fn report_rejection_errors() {
    let mut d = market(&["owner", "w1", "w2", "w3"]);
    let id = post(&mut d, 3);
    for w in ["w1", "w2", "w3"] {
        submit(&mut d, &id, w);
    }
    let why = || "why".to_string();
    // a pending or approved proposal cannot be disputed
    assert_eq!(d.report_rejection(&ctx("w1", 300, 0, 9), id.clone(), why()), Err(Error::StateConflict));
    assert_eq!(d.approve_work(&ctx("owner", 300, 0, 9), id.clone(), "w1".to_string()), Ok(()));
    assert_eq!(d.report_rejection(&ctx("w1", 301, 0, 9), id.clone(), why()), Err(Error::StateConflict));
    assert_eq!(d.report_rejection(&ctx("ghost", 301, 0, 9), id.clone(), why()), Err(Error::NotFound));
    assert_eq!(d.report_rejection(&ctx("w2", 301, 0, 9), "owner_9".to_string(), why()), Err(Error::NotFound));
    assert_eq!(
        d.reject_work(&ctx("owner", 1000, 0, 9), id.clone(), "w2".to_string(), "slow".to_string()),
        Ok(())
    );
    // the window closes after the report interval
    assert_eq!(d.report_rejection(&ctx("w2", 1001 + 2 * DAY, 0, 9), id.clone(), why()), Err(Error::Timing));
    assert_eq!(d.get_reports(0, 10), vec![]);
    assert_eq!(d.report_rejection(&ctx("w2", 1000 + 2 * DAY, 0, 9), id.clone(), why()), Ok(()));
    // one report for each rejection
    assert_eq!(d.report_rejection(&ctx("w2", 1001, 0, 9), id.clone(), why()), Err(Error::StateConflict));
    assert_eq!(d.get_reports(0, 10).len(), 1);
}

#[test]
fn late_rejection_cannot_be_reported() {
    let mut d = market(&["owner", "w1"]);
    let id = post(&mut d, 1);
    submit(&mut d, &id, "w1");
    assert_eq!(
        d.reject_work(&ctx("owner", 300, 0, 9), id.clone(), "w1".to_string(), "late".to_string()),
        Ok(())
    );
    assert_eq!(
        d.report_rejection(&ctx("w1", 301, 0, 9), id.clone(), "why".to_string()),
        Err(Error::StateConflict)
    );
    assert_eq!(d.get_reports(0, 10), vec![]);
    assert_eq!(d.get_report_by_id(rid("w1", &id)), Err(Error::NotFound));
    assert_eq!(
        d.proposals.get(&pid(&id, "w1")).unwrap().status,
        ProposalStatus::Rejected { reason: "late".to_string(), reject_at: 300, report_id: None }
    );
}

#[test]
fn reports_are_decided_by_admins_and_only_once() {
    let mut d = market(&["owner", "w1"]);
    let id = post(&mut d, 1);
    submit(&mut d, &id, "w1");
    assert_eq!(
        d.reject_work(&ctx("owner", 300, 0, 9), id.clone(), "w1".to_string(), "slow".to_string()),
        Ok(())
    );
    assert_eq!(d.approve_report(&ctx("judge", 400, 0, 9), rid("w1", &id)), Err(Error::NotFound));
    assert_eq!(d.report_rejection(&ctx("w1", 400, 0, 9), id.clone(), "why".to_string()), Ok(()));
    assert_eq!(d.approve_report(&ctx("owner", 500, 0, 9), rid("w1", &id)), Err(Error::Authorization));
    assert_eq!(d.reject_report(&ctx("w1", 500, 0, 9), rid("w1", &id)), Err(Error::Authorization));
    assert_eq!(d.reject_report(&ctx("judge", 500, 0, 9), rid("w1", &id)), Ok(()));
    assert_eq!(
        d.proposals.get(&pid(&id, "w1")).unwrap().status,
        ProposalStatus::RejectedByAdmin { account_id: "judge".to_string() }
    );
    let worker = d.accounts.get(&"w1".to_string()).unwrap();
    assert_eq!(worker.neg_point, 15);
    assert_eq!(worker.locked_balance.len(), 0);
    assert_eq!(d.reject_report(&ctx("judge", 501, 0, 9), rid("w1", &id)), Err(Error::StateConflict));
    assert_eq!(d.approve_report(&ctx("judge", 501, 0, 9), rid("w1", &id)), Err(Error::StateConflict));
    // a decided proposal takes no further step
    assert_eq!(d.approve_work(&ctx("owner", 502, 0, 9), id.clone(), "w1".to_string()), Err(Error::StateConflict));
    assert_eq!(d.report_rejection(&ctx("w1", 502, 0, 9), id.clone(), "why".to_string()), Err(Error::StateConflict));
}

#[test]
fn settlement_errors() {
    let mut d = market(&["owner", "w1"]);
    let id = post(&mut d, 1);
    assert_eq!(d.mark_task_as_completed(&ctx("owner", 200, 0, 9), "owner_9".to_string()), Err(Error::NotFound));
    assert_eq!(d.mark_task_as_completed(&ctx("w1", 200, 0, 9), id.clone()), Err(Error::Authorization));
    // without proposals the submission deadline must have passed
    assert_eq!(d.mark_task_as_completed(&ctx("owner", 100 + DAY - 1, 0, 9), id.clone()), Err(Error::Timing));
    submit(&mut d, &id, "w1");
    assert_eq!(
        d.reject_work(&ctx("owner", 300, 0, 9), id.clone(), "w1".to_string(), "slow".to_string()),
        Ok(())
    );
    // the release window after the rejection must have passed
    assert_eq!(d.mark_task_as_completed(&ctx("owner", 300 + 5 * DAY, 0, 9), id.clone()), Err(Error::Timing));
    assert_eq!(d.report_rejection(&ctx("w1", 400, 0, 9), id.clone(), "why".to_string()), Ok(()));
    // a report awaits its decision
    assert_eq!(
        d.mark_task_as_completed(&ctx("owner", 301 + 5 * DAY, 0, 9), id.clone()),
        Err(Error::StateConflict)
    );
    assert_eq!(d.reject_report(&ctx("judge", 500, 0, 9), rid("w1", &id)), Ok(()));
    assert!(d.mark_task_as_completed(&ctx("owner", 301 + 5 * DAY, 0, 9), id.clone()).is_ok());
    assert_eq!(
        d.mark_task_as_completed(&ctx("owner", 302 + 5 * DAY, 0, 9), id.clone()),
        Err(Error::AlreadyCompleted)
    );
    // a settled task takes no further submissions or decisions
    assert_eq!(
        d.approve_work(&ctx("owner", 303 + 5 * DAY, 0, 9), id.clone(), "w1".to_string()),
        Err(Error::StateConflict)
    );
}

#[test]
fn settled_task_takes_no_submission() {
    let mut d = market(&["owner", "w1"]);
    let id = d
        .new_task(
            &ctx("owner", 100, PRICE, 7),
            "Logo".to_string(),
            "Draw a logo".to_string(),
            PRICE,
            1,
            0,
            "web_design".to_string(),
        )
        .unwrap();
    let out = d.mark_task_as_completed(&ctx("owner", 100, 0, 9), id.clone()).unwrap();
    assert_eq!(out.refund, PRICE);
    assert_eq!(
        d.submit_work(&ctx("w1", 50, SUBMIT_BOND, 8), id.clone(), "link".to_string()),
        Err(Error::StateConflict)
    );
}

#[test]
fn claim_errors() {
    let mut d = market(&["owner", "w1"]);
    let id = post(&mut d, 1);
    assert_eq!(d.claim(&ctx("ghost", 300, 0, 9), id.clone()), Err(Error::NotFound));
    assert_eq!(d.claim(&ctx("w1", 300, 0, 9), id.clone()), Err(Error::NotFound));
    submit(&mut d, &id, "w1");
    assert_eq!(d.approve_work(&ctx("owner", 300, 0, 9), id.clone(), "w1".to_string()), Ok(()));
    assert_eq!(d.claim(&ctx("w1", 300, 0, 9), id.clone()), Err(Error::StillLocked));
    // a reputation that cannot grow blocks the claim and changes nothing
    let i = d.accounts.index_of(&"w1".to_string()).unwrap();
    d.accounts.entries[i].value.pos_point = u32::MAX - 4;
    assert_eq!(d.claim(&ctx("w1", 301, 0, 9), id.clone()), Err(Error::Validation));
    assert_eq!(d.accounts.entries[i].value.balance, 0);
    assert_eq!(d.accounts.entries[i].value.locked_balance.len(), 1);
    d.accounts.entries[i].value.pos_point = u32::MAX - 5;
    assert_eq!(d.claim(&ctx("w1", 301, 0, 9), id.clone()), Ok(PRICE));
    assert_eq!(d.accounts.entries[i].value.pos_point, u32::MAX);
}

#[test]
fn transfer_in_two_steps() {
    let mut d = market(&["owner", "w1"]);
    let id = post(&mut d, 1);
    submit(&mut d, &id, "w1");
    assert_eq!(d.approve_work(&ctx("owner", 300, 0, 9), id.clone(), "w1".to_string()), Ok(()));
    assert_eq!(d.claim(&ctx("w1", 301, 0, 9), id.clone()), Ok(PRICE));
    let w1 = || "w1".to_string();
    assert_eq!(d.initiate_transfer(id.clone(), "ghost".to_string(), 1).map(|_| ()), Err(Error::NotFound));
    assert_eq!(d.initiate_transfer(id.clone(), w1(), PRICE + 1).map(|_| ()), Err(Error::Validation));
    let token = d.initiate_transfer(id.clone(), w1(), PRICE).unwrap();
    assert_eq!((token.task_id.as_str(), token.beneficiary_id.as_str(), token.amount), (id.as_str(), "w1", PRICE));
    assert_eq!(d.accounts.get(&w1()).unwrap().balance, 0);
    assert_eq!(d.pending_transfers.len(), 1);
    assert_eq!(d.initiate_transfer(id.clone(), w1(), PRICE).map(|_| ()), Err(Error::StateConflict));
    let by_self = ctx("dwork.near", 400, 0, 10);
    // only the marketplace itself delivers a result
    assert_eq!(
        d.on_transferd(&ctx("w1", 400, 0, 10), id.clone(), w1(), PRICE, TransferOutcome::Successful),
        Err(Error::Authorization)
    );
    // a failure changes nothing and can be tried again
    assert_eq!(
        d.on_transferd(&by_self, id.clone(), w1(), PRICE, TransferOutcome::Failed),
        Err(Error::TransferFailure)
    );
    assert_eq!(d.pending_transfers.len(), 1);
    assert_eq!(d.accounts.get(&w1()).unwrap().total_earn, 0);
    // the result of a transfer that is not awaited is ignored
    assert_eq!(d.on_transferd(&by_self, id.clone(), w1(), PRICE - 1, TransferOutcome::Successful), Ok(false));
    assert_eq!(d.on_transferd(&by_self, id.clone(), w1(), PRICE, TransferOutcome::Successful), Ok(true));
    let worker = d.accounts.get(&w1()).unwrap();
    assert_eq!(worker.total_earn, PRICE);
    assert_eq!(worker.balance, 0);
    assert_eq!(worker.current_jobs.to_vec(), Vec::<String>::new());
    assert_eq!(worker.completed_jobs.to_vec(), vec![id.clone()]);
    assert_eq!(d.pending_transfers.len(), 0);
    // a result that is delivered again is ignored
    assert_eq!(d.on_transferd(&by_self, id.clone(), w1(), PRICE, TransferOutcome::Successful), Ok(false));
    assert_eq!(d.accounts.get(&w1()).unwrap().total_earn, PRICE);
}

#[test]
fn approval_beyond_the_cap_is_demoted_when_a_report_is_approved() {
    let mut d = market(&["owner", "w1", "w2", "w3"]);
    let id = post(&mut d, 1);
    for w in ["w1", "w2", "w3"] {
        submit(&mut d, &id, w);
    }
    assert_eq!(d.approve_work(&ctx("owner", 300, 0, 9), id.clone(), "w1".to_string()), Ok(()));
    // a second approval, which no call would have granted
    d.proposals.insert(
        pid(&id, "w2"),
        Proposal {
            account_id: "w2".to_string(),
            submit_time: 200,
            proof_of_work: "link".to_string(),
            status: ProposalStatus::Approved,
        },
    );
    let i = d.accounts.index_of(&"w2".to_string()).unwrap();
    d.accounts.entries[i].value.lock(id.clone(), PRICE, 300);
    assert_eq!(
        d.reject_work(&ctx("owner", 400, 0, 9), id.clone(), "w3".to_string(), "slow".to_string()),
        Ok(())
    );
    assert_eq!(d.report_rejection(&ctx("w3", 500, 0, 9), id.clone(), "why".to_string()), Ok(()));
    assert_eq!(d.approve_report(&ctx("judge", 600, 0, 9), rid("w3", &id)), Ok(()));
    // the reinstated worker takes the one place, so both approvals go
    for w in ["w1", "w2"] {
        assert_eq!(
            d.proposals.get(&pid(&id, w)).unwrap().status,
            ProposalStatus::Rejected { reason: "late".to_string(), reject_at: 600, report_id: None }
        );
    }
    assert_eq!(
        d.proposals.get(&pid(&id, "w3")).unwrap().status,
        ProposalStatus::ApprovedByAdmin { account_id: "judge".to_string() }
    );
    assert_eq!(d.accounts.get(&"w1".to_string()).unwrap().locked_balance.len(), 0);
    assert_eq!(d.accounts.get(&"w2".to_string()).unwrap().locked_balance.len(), 0);
    assert_eq!(d.accounts.get(&"w3".to_string()).unwrap().locked_balance.len(), 1);
    // the demoted worker cannot dispute
    assert_eq!(
        d.report_rejection(&ctx("w2", 601, 0, 9), id.clone(), "why".to_string()),
        Err(Error::StateConflict)
    );
}

#[test]
fn reinstated_earlier_proposal_takes_the_place_of_a_later_approval() {
    let mut d = market(&["owner", "w1", "w2"]);
    let id = post(&mut d, 1);
    submit(&mut d, &id, "w1");
    submit(&mut d, &id, "w2");
    assert_eq!(
        d.reject_work(&ctx("owner", 300, 0, 9), id.clone(), "w1".to_string(), "slow".to_string()),
        Ok(())
    );
    assert_eq!(d.approve_work(&ctx("owner", 310, 0, 9), id.clone(), "w2".to_string()), Ok(()));
    assert_eq!(d.accounts.get(&"w2".to_string()).unwrap().locked_balance.len(), 1);
    assert_eq!(d.report_rejection(&ctx("w1", 400, 0, 9), id.clone(), "why".to_string()), Ok(()));
    assert_eq!(d.approve_report(&ctx("judge", 600, 0, 9), rid("w1", &id)), Ok(()));
    assert_eq!(
        d.proposals.get(&pid(&id, "w1")).unwrap().status,
        ProposalStatus::ApprovedByAdmin { account_id: "judge".to_string() }
    );
    assert_eq!(
        d.proposals.get(&pid(&id, "w2")).unwrap().status,
        ProposalStatus::Rejected { reason: "late".to_string(), reject_at: 600, report_id: None }
    );
    assert_eq!(d.accounts.get(&"w1".to_string()).unwrap().locked_balance.len(), 1);
    assert_eq!(d.accounts.get(&"w2".to_string()).unwrap().locked_balance.len(), 0);
    // the points that the approval gave stay
    assert_eq!(d.accounts.get(&"w2".to_string()).unwrap().pos_point, 5);
    assert_eq!(d.claim(&ctx("w2", 601 + 5 * DAY, 0, 9), id.clone()), Err(Error::NotFound));
    assert_eq!(d.claim(&ctx("w1", 301 + 5 * DAY, 0, 9), id.clone()), Ok(PRICE));
}

#[test]
fn reinstated_worker_who_submitted_last_takes_the_place_of_an_earlier_approval() {
    let mut d = market(&["owner", "w1", "w2"]);
    let id = post(&mut d, 1);
    submit(&mut d, &id, "w1");
    submit(&mut d, &id, "w2");
    assert_eq!(d.approve_work(&ctx("owner", 300, 0, 9), id.clone(), "w1".to_string()), Ok(()));
    assert_eq!(
        d.reject_work(&ctx("owner", 310, 0, 9), id.clone(), "w2".to_string(), "slow".to_string()),
        Ok(())
    );
    assert_eq!(d.report_rejection(&ctx("w2", 400, 0, 9), id.clone(), "why".to_string()), Ok(()));
    assert_eq!(d.approve_report(&ctx("judge", 600, 0, 9), rid("w2", &id)), Ok(()));
    assert_eq!(
        d.proposals.get(&pid(&id, "w1")).unwrap().status,
        ProposalStatus::Rejected { reason: "late".to_string(), reject_at: 600, report_id: None }
    );
    assert_eq!(
        d.proposals.get(&pid(&id, "w2")).unwrap().status,
        ProposalStatus::ApprovedByAdmin { account_id: "judge".to_string() }
    );
    // one place, one worker paid
    assert_eq!(d.accounts.get(&"w1".to_string()).unwrap().locked_balance.len(), 0);
    assert_eq!(
        d.accounts.get(&"w2".to_string()).unwrap().locked_balance.to_vec(),
        vec![(id.clone(), dwork::account::LockedBalance { amount: PRICE, release_at: 310 + 5 * DAY })]
    );
    assert_eq!(d.count_entitled(&d.task_records.get(&id).unwrap().proposals), 1);
}

#[test]
fn the_latest_approvals_go_first_when_places_run_out() {
    let mut d = market(&["owner", "w1", "w2", "w3"]);
    let id = post(&mut d, 2);
    for w in ["w1", "w2", "w3"] {
        submit(&mut d, &id, w);
    }
    assert_eq!(
        d.reject_work(&ctx("owner", 300, 0, 9), id.clone(), "w3".to_string(), "slow".to_string()),
        Ok(())
    );
    assert_eq!(d.approve_work(&ctx("owner", 310, 0, 9), id.clone(), "w2".to_string()), Ok(()));
    assert_eq!(d.approve_work(&ctx("owner", 320, 0, 9), id.clone(), "w1".to_string()), Ok(()));
    assert_eq!(d.report_rejection(&ctx("w3", 400, 0, 9), id.clone(), "why".to_string()), Ok(()));
    assert_eq!(d.approve_report(&ctx("judge", 600, 0, 9), rid("w3", &id)), Ok(()));
    // w1 submitted before w2 and keeps its place, though it was approved later
    assert_eq!(d.proposals.get(&pid(&id, "w1")).unwrap().status, ProposalStatus::Approved);
    assert_eq!(
        d.proposals.get(&pid(&id, "w2")).unwrap().status,
        ProposalStatus::Rejected { reason: "late".to_string(), reject_at: 600, report_id: None }
    );
    assert_eq!(
        d.proposals.get(&pid(&id, "w3")).unwrap().status,
        ProposalStatus::ApprovedByAdmin { account_id: "judge".to_string() }
    );
    assert_eq!(d.accounts.get(&"w1".to_string()).unwrap().locked_balance.len(), 1);
    assert_eq!(d.accounts.get(&"w2".to_string()).unwrap().locked_balance.len(), 0);
    assert_eq!(d.accounts.get(&"w3".to_string()).unwrap().locked_balance.len(), 1);
    let list = &d.task_records.get(&id).unwrap().proposals;
    assert_eq!((d.count_approved(list), d.count_reinstated(list), d.count_entitled(list)), (1, 1, 2));
}

#[test]
fn admins_cannot_reinstate_more_workers_than_the_task_has_places() {
    let mut d = market(&["owner", "w1", "w2"]);
    let id = post(&mut d, 1);
    for w in ["w1", "w2"] {
        submit(&mut d, &id, w);
        assert_eq!(
            d.reject_work(&ctx("owner", 300, 0, 9), id.clone(), w.to_string(), "slow".to_string()),
            Ok(())
        );
        assert_eq!(d.report_rejection(&ctx(w, 400, 0, 9), id.clone(), "why".to_string()), Ok(()));
    }
    assert_eq!(d.approve_report(&ctx("judge", 600, 0, 9), rid("w1", &id)), Ok(()));
    let before = d.clone();
    assert_eq!(d.approve_report(&ctx("judge", 601, 0, 9), rid("w2", &id)), Err(Error::StateConflict));
    assert_eq!(d, before);
    // the report can still be decided against the worker
    assert_eq!(d.reject_report(&ctx("judge", 602, 0, 9), rid("w2", &id)), Ok(()));
    assert_eq!(d.count_entitled(&d.task_records.get(&id).unwrap().proposals), 1);
}

#[test]
fn owner_cannot_approve_into_a_place_that_an_admin_has_given() {
    let mut d = market(&["owner", "w1", "w2"]);
    let id = post(&mut d, 1);
    submit(&mut d, &id, "w1");
    submit(&mut d, &id, "w2");
    assert_eq!(
        d.reject_work(&ctx("owner", 300, 0, 9), id.clone(), "w1".to_string(), "slow".to_string()),
        Ok(())
    );
    assert_eq!(d.report_rejection(&ctx("w1", 400, 0, 9), id.clone(), "why".to_string()), Ok(()));
    assert_eq!(d.approve_report(&ctx("judge", 600, 0, 9), rid("w1", &id)), Ok(()));
    let before = d.clone();
    assert_eq!(
        d.approve_work(&ctx("owner", 700, 0, 9), id.clone(), "w2".to_string()),
        Err(Error::StateConflict)
    );
    assert_eq!(d, before);
    assert_eq!(d.proposals.get(&pid(&id, "w2")).unwrap().status, ProposalStatus::Pending);
}

#[test]
fn a_task_lists_no_more_proposals_than_a_task_can_have() {
    let mut d = market(&["owner", "w1", "w2", "w3"]);
    d.app_config.maximum_proposals_at_one_time = 2;
    let id = post(&mut d, 2);
    submit(&mut d, &id, "w1");
    submit(&mut d, &id, "w2");
    let before = d.clone();
    assert_eq!(
        d.submit_work(&ctx("w3", 200, SUBMIT_BOND, 8), id.clone(), "link".to_string()),
        Err(Error::Validation)
    );
    assert_eq!(d, before);
    assert_eq!(d.task_records.get(&id).unwrap().proposals.len(), 2);
    d.app_config.maximum_proposals_at_one_time = 3;
    submit(&mut d, &id, "w3");
    assert_eq!(d.task_records.get(&id).unwrap().proposals.len(), 3);
}

#[test]
fn reinstatement_with_room_displaces_nobody() {
    let mut d = market(&["owner", "w1", "w2"]);
    let id = post(&mut d, 2);
    submit(&mut d, &id, "w1");
    submit(&mut d, &id, "w2");
    assert_eq!(
        d.reject_work(&ctx("owner", 300, 0, 9), id.clone(), "w1".to_string(), "slow".to_string()),
        Ok(())
    );
    assert_eq!(d.approve_work(&ctx("owner", 310, 0, 9), id.clone(), "w2".to_string()), Ok(()));
    assert_eq!(d.report_rejection(&ctx("w1", 400, 0, 9), id.clone(), "why".to_string()), Ok(()));
    assert_eq!(d.approve_report(&ctx("judge", 600, 0, 9), rid("w1", &id)), Ok(()));
    assert_eq!(d.proposals.get(&pid(&id, "w2")).unwrap().status, ProposalStatus::Approved);
    assert_eq!(d.accounts.get(&"w2".to_string()).unwrap().locked_balance.len(), 1);
}

#[test]
fn ledger_entry_point_takes_the_result_of_a_transfer() {
    let mut d = market(&["owner", "w1"]);
    let id = post(&mut d, 1);
    submit(&mut d, &id, "w1");
    assert_eq!(d.approve_work(&ctx("owner", 300, 0, 9), id.clone(), "w1".to_string()), Ok(()));
    assert_eq!(d.claim(&ctx("w1", 301, 0, 9), id.clone()), Ok(PRICE));
    assert!(d.initiate_transfer(id.clone(), "w1".to_string(), PRICE / 2).is_ok());
    let by_self = ctx("dwork.near", 400, 0, 10);
    let done = <Dwork as ExtDupwork>::on_transferd(
        &mut d,
        &by_self,
        id.clone(),
        "w1".to_string(),
        PRICE / 2,
        TransferOutcome::Successful,
    );
    assert_eq!(done, Ok(true));
    let worker = d.accounts.get(&"w1".to_string()).unwrap();
    assert_eq!((worker.balance, worker.total_earn), (PRICE - PRICE / 2, PRICE / 2));
    // the same result delivered again completes nothing
    let again = <Dwork as ExtDupwork>::on_transferd(
        &mut d,
        &by_self,
        id.clone(),
        "w1".to_string(),
        PRICE / 2,
        TransferOutcome::Successful,
    );
    assert_eq!(again, Ok(false));
    assert_eq!(d.accounts.get(&"w1".to_string()).unwrap().total_earn, PRICE / 2);
}
