use dwork::account::LockedBalance;
use dwork::proposal::{ProposalId, ProposalStatus};
use dwork::report::{ReportId, ReportStatus};
use dwork::requester_action::Settlement;
use dwork::state::Dwork;
use dwork::types::{CallContext, Error};

const REGISTER_BOND: u128 = 500_000_000_000_000_000_000_000;
const SUBMIT_BOND: u128 = 10_000_000_000_000_000_000_000;
const PRICE: u128 = 1_000_000_000_000_000_000_000_000;
const DAY: u64 = 86_400_000_000_000;

fn ctx(caller: &str, now: u64, deposit: u128, block: u64) -> CallContext {
    CallContext {
        predecessor_account_id: caller.to_string(),
        current_account_id: "dwork.near".to_string(),
        attached_deposit: deposit,
        block_timestamp: now,
        block_index: block,
    }
}

fn pid(task: &str, worker: &str) -> ProposalId {
    ProposalId { task_id: task.to_string(), account_id: worker.to_string() }
}

fn rid(worker: &str, task: &str) -> ReportId {
    ReportId { account_id: worker.to_string(), task_id: task.to_string() }
}

/// A marketplace with the parties registered, one admin and one category.
fn market(parties: &[&str]) -> Dwork {
    let mut d = Dwork::new();
    for p in parties {
        assert_eq!(d.register(&ctx(p, 1, REGISTER_BOND, 1)), Ok(()));
    }
    assert_eq!(d.add_admin(&ctx("dwork.near", 1, 0, 1), "judge".to_string()), Ok(true));
    assert_eq!(d.new_category(&ctx("owner", 1, 0, 1), "Web Design".to_string()), Ok(true));
    d
}

/// Posts a task for `max` participants at time 100 in block 7, open for one day.
fn post(d: &mut Dwork, max: u16) -> String {
    let cost = PRICE * max as u128;
    let id = d
        .new_task(
            &ctx("owner", 100, cost, 7),
            "Logo".to_string(),
            "Draw a logo".to_string(),
            PRICE,
            max,
            DAY,
            "web_design".to_string(),
        )
        .unwrap();
    assert_eq!(id, "owner_7");
    id
}

fn status(d: &Dwork, task: &str, worker: &str) -> ProposalStatus {
    d.proposals.get(&pid(task, worker)).unwrap().status.clone()
}

#[test]
fn two_of_three_workers_are_paid_and_the_rest_is_refunded() {
    let mut d = market(&["owner", "w1", "w2", "w3"]);
    d.app_config.service_fee_percent = 10;
    let budget = 2 * PRICE + 2 * PRICE / 10;
    let id = d
        .new_task(
            &ctx("owner", 100, budget, 7),
            "Logo".to_string(),
            "Draw a logo".to_string(),
            PRICE,
            2,
            DAY,
            "web_design".to_string(),
        )
        .unwrap();
    for w in ["w1", "w2", "w3"] {
        assert_eq!(d.submit_work(&ctx(w, 200, SUBMIT_BOND, 8), id.clone(), "link".to_string()), Ok(()));
    }
    assert_eq!(d.approve_work(&ctx("owner", 300, 0, 9), id.clone(), "w1".to_string()), Ok(()));
    assert_eq!(d.approve_work(&ctx("owner", 301, 0, 9), id.clone(), "w2".to_string()), Ok(()));
    assert_eq!(
        d.approve_work(&ctx("owner", 302, 0, 9), id.clone(), "w3".to_string()),
        Err(Error::StateConflict)
    );
    let out = d.mark_task_as_completed(&ctx("owner", 400, 0, 10), id.clone()).unwrap();
    assert_eq!(out, Settlement { refund: budget - 2 * PRICE, share: 0, beneficiaries: vec![] });
    assert_eq!(out.refund + 2 * PRICE, budget);
    let owner = d.accounts.get(&"owner".to_string()).unwrap();
    assert_eq!(owner.total_spent, 2 * PRICE);
    assert_eq!(owner.pos_point, 5);
    assert_eq!(owner.current_jobs.to_vec(), Vec::<String>::new());
    assert_eq!(owner.completed_jobs.to_vec(), vec![id.clone()]);
    assert!(d.task_records.get(&id).unwrap().completed);
    assert_eq!(status(&d, &id, "w3"), ProposalStatus::Pending);
}

#[test]
fn without_a_fee_two_paid_workers_leave_no_refund() {
    let mut d = market(&["owner", "w1", "w2", "w3"]);
    let id = post(&mut d, 2);
    for w in ["w1", "w2", "w3"] {
        assert_eq!(d.submit_work(&ctx(w, 200, SUBMIT_BOND, 8), id.clone(), "link".to_string()), Ok(()));
    }
    assert_eq!(d.approve_work(&ctx("owner", 300, 0, 9), id.clone(), "w1".to_string()), Ok(()));
    assert_eq!(d.approve_work(&ctx("owner", 301, 0, 9), id.clone(), "w2".to_string()), Ok(()));
    let out = d.mark_task_as_completed(&ctx("owner", 400, 0, 10), id.clone()).unwrap();
    assert_eq!(out, Settlement { refund: 0, share: 0, beneficiaries: vec![] });
}

#[test]
fn admin_overturns_a_rejection() {
    let mut d = market(&["owner", "w1"]);
    let id = post(&mut d, 1);
    assert_eq!(d.submit_work(&ctx("w1", 200, SUBMIT_BOND, 8), id.clone(), "link".to_string()), Ok(()));
    assert_eq!(
        d.reject_work(&ctx("owner", 300, 0, 9), id.clone(), "w1".to_string(), "slow".to_string()),
        Ok(())
    );
    assert_eq!(
        status(&d, &id, "w1"),
        ProposalStatus::Rejected { reason: "slow".to_string(), reject_at: 300, report_id: None }
    );
    assert_eq!(d.task_records.get(&id).unwrap().last_rejection_published_at, Some(300));
    assert_eq!(
        d.report_rejection(&ctx("w1", 300 + 2 * DAY, 0, 10), id.clone(), "I was on time".to_string()),
        Ok(())
    );
    assert_eq!(
        status(&d, &id, "w1"),
        ProposalStatus::Rejected {
            reason: "slow".to_string(),
            reject_at: 300,
            report_id: Some(rid("w1", &id)),
        }
    );
    let report = d.get_report_by_id(rid("w1", &id)).unwrap();
    assert_eq!(report.status, ReportStatus::Pending);
    assert_eq!(report.report, "I was on time");
    assert_eq!(d.approve_report(&ctx("judge", 400 + 2 * DAY, 0, 11), rid("w1", &id)), Ok(()));
    assert_eq!(status(&d, &id, "w1"), ProposalStatus::ApprovedByAdmin { account_id: "judge".to_string() });
    assert_eq!(d.get_report_by_id(rid("w1", &id)).unwrap().status, ReportStatus::Approved);
    let worker = d.accounts.get(&"w1".to_string()).unwrap();
    assert_eq!(
        worker.locked_balance.get(&id),
        Some(&LockedBalance { amount: PRICE, release_at: 300 + 5 * DAY })
    );
    assert_eq!(worker.pos_point, 5);
    let owner = d.accounts.get(&"owner".to_string()).unwrap();
    assert_eq!(owner.neg_point, 20);
}

#[test]
fn claim_waits_for_the_release() {
    let mut d = market(&["owner", "w1"]);
    let id = post(&mut d, 1);
    assert_eq!(d.submit_work(&ctx("w1", 200, SUBMIT_BOND, 8), id.clone(), "link".to_string()), Ok(()));
    assert_eq!(d.approve_work(&ctx("owner", 300, 0, 9), id.clone(), "w1".to_string()), Ok(()));
    assert_eq!(
        d.accounts.get(&"w1".to_string()).unwrap().locked_balance.get(&id),
        Some(&LockedBalance { amount: PRICE, release_at: 300 })
    );
    assert_eq!(d.claim(&ctx("w1", 299, 0, 10), id.clone()), Err(Error::StillLocked));
    assert_eq!(d.claim(&ctx("w1", 300, 0, 10), id.clone()), Err(Error::StillLocked));
    assert_eq!(d.accounts.get(&"w1".to_string()).unwrap().balance, 0);
    assert_eq!(d.claim(&ctx("w1", 301, 0, 10), id.clone()), Ok(PRICE));
    let worker = d.accounts.get(&"w1".to_string()).unwrap();
    assert_eq!(worker.locked_balance.get(&id), None);
    assert_eq!(worker.balance, PRICE);
    assert_eq!(worker.pos_point, 10);
    assert_eq!(d.claim(&ctx("w1", 302, 0, 10), id.clone()), Err(Error::NotFound));
}

#[test]
fn release_is_delayed_by_a_rejection_on_the_task() {
    let mut d = market(&["owner", "w1", "w2"]);
    let id = post(&mut d, 2);
    for w in ["w1", "w2"] {
        assert_eq!(d.submit_work(&ctx(w, 200, SUBMIT_BOND, 8), id.clone(), "link".to_string()), Ok(()));
    }
    assert_eq!(
        d.reject_work(&ctx("owner", 300, 0, 9), id.clone(), "w1".to_string(), "slow".to_string()),
        Ok(())
    );
    assert_eq!(d.approve_work(&ctx("owner", 400, 0, 9), id.clone(), "w2".to_string()), Ok(()));
    let release = 300 + 5 * DAY;
    assert_eq!(
        d.accounts.get(&"w2".to_string()).unwrap().locked_balance.get(&id),
        Some(&LockedBalance { amount: PRICE, release_at: release })
    );
    assert_eq!(d.claim(&ctx("w2", release, 0, 10), id.clone()), Err(Error::StillLocked));
    assert_eq!(d.claim(&ctx("w2", release + 1, 0, 10), id.clone()), Ok(PRICE));
}

#[test]
fn long_description_is_refused() {
    let mut d = market(&["owner"]);
    let long = "x".repeat(10001);
    let r = d.new_task(
        &ctx("owner", 100, PRICE, 7),
        "Logo".to_string(),
        long,
        PRICE,
        1,
        DAY,
        "web_design".to_string(),
    );
    assert_eq!(r, Err(Error::Validation));
    assert_eq!(d.task_records.len(), 0);
    assert_eq!(d.available_tasks(0, 10), vec![]);
    assert_eq!(d.accounts.get(&"owner".to_string()).unwrap().current_jobs.len(), 0);
    assert_eq!(d.categories(0, 10)[0].num_posts, 0);
    let fits = "x".repeat(10000);
    let ok = d.new_task(
        &ctx("owner", 100, PRICE, 7),
        "Logo".to_string(),
        fits,
        PRICE,
        1,
        DAY,
        "web_design".to_string(),
    );
    assert_eq!(ok, Ok("owner_7".to_string()));
    assert_eq!(d.categories(0, 10)[0].num_posts, 1);
}

/// A refused call leaves the marketplace exactly as it was.
#[test]
fn refused_calls_change_nothing() {
    let mut d = market(&["owner", "w1", "w2"]);
    let id = post(&mut d, 1);
    assert_eq!(d.submit_work(&ctx("w1", 200, SUBMIT_BOND, 8), id.clone(), "link".to_string()), Ok(()));
    assert_eq!(
        d.reject_work(&ctx("owner", 300, 0, 9), id.clone(), "w1".to_string(), "slow".to_string()),
        Ok(())
    );
    assert_eq!(d.report_rejection(&ctx("w1", 400, 0, 10), id.clone(), "why".to_string()), Ok(()));
    let before = d.clone();
    let w1 = || "w1".to_string();
    assert!(d.new_task(&ctx("owner", 100, 1, 7), w1(), w1(), PRICE, 1, DAY, "web_design".to_string()).is_err());
    assert!(d.submit_work(&ctx("w1", 200, SUBMIT_BOND, 8), id.clone(), w1()).is_err());
    assert!(d.approve_work(&ctx("owner", 500, 0, 9), id.clone(), w1()).is_err());
    assert!(d.reject_work(&ctx("owner", 500, 0, 9), id.clone(), w1(), w1()).is_err());
    assert!(d.report_rejection(&ctx("w1", 500, 0, 9), id.clone(), w1()).is_err());
    assert!(d.approve_report(&ctx("w2", 500, 0, 9), rid("w1", &id)).is_err());
    assert!(d.reject_report(&ctx("w2", 500, 0, 9), rid("w1", &id)).is_err());
    assert!(d.mark_task_as_completed(&ctx("owner", 500 + 9 * DAY, 0, 9), id.clone()).is_err());
    assert!(d.claim(&ctx("w1", 500, 0, 9), id.clone()).is_err());
    assert!(d.initiate_transfer(id.clone(), w1(), 1).is_err());
    assert!(d.register(&ctx("w1", 500, REGISTER_BOND, 9)).is_err());
    assert!(d.add_admin(&ctx("w1", 500, 0, 9), w1()).is_err());
    assert!(d.new_category(&ctx("w1", 500, 0, 9), "web design".to_string()).is_err());
    assert_eq!(d, before);
    // the worker and the owner at the limits of their points: the approval of
    // the report is refused as a whole
    let i = d.accounts.index_of(&"owner".to_string()).unwrap();
    d.accounts.entries[i].value.neg_point = u32::MAX - 19;
    let before = d.clone();
    assert_eq!(d.approve_report(&ctx("judge", 500, 0, 9), rid("w1", &id)), Err(Error::Validation));
    assert_eq!(d, before);
    d.accounts.entries[i].value.neg_point = u32::MAX - 20;
    assert_eq!(d.approve_report(&ctx("judge", 500, 0, 9), rid("w1", &id)), Ok(()));
    assert_eq!(d.accounts.entries[i].value.neg_point, u32::MAX);
}

/// A proposal that the owner approved, or that an admin decided, stays as it
/// is whatever is called.
#[test]
fn decided_proposals_stay_as_they_are() {
    let mut d = market(&["owner", "w1", "w2", "w3"]);
    let id = post(&mut d, 3);
    for w in ["w1", "w2", "w3"] {
        assert_eq!(d.submit_work(&ctx(w, 200, SUBMIT_BOND, 8), id.clone(), "link".to_string()), Ok(()));
    }
    assert_eq!(d.approve_work(&ctx("owner", 300, 0, 9), id.clone(), "w1".to_string()), Ok(()));
    for w in ["w2", "w3"] {
        assert_eq!(
            d.reject_work(&ctx("owner", 300, 0, 9), id.clone(), w.to_string(), "slow".to_string()),
            Ok(())
        );
        assert_eq!(d.report_rejection(&ctx(w, 400, 0, 10), id.clone(), "why".to_string()), Ok(()));
    }
    assert_eq!(d.approve_report(&ctx("judge", 500, 0, 9), rid("w2", &id)), Ok(()));
    assert_eq!(d.reject_report(&ctx("judge", 500, 0, 9), rid("w3", &id)), Ok(()));
    let statuses = |d: &Dwork| [status(d, &id, "w1"), status(d, &id, "w2"), status(d, &id, "w3")];
    let before = statuses(&d);
    assert_eq!(
        before,
        [
            ProposalStatus::Approved,
            ProposalStatus::ApprovedByAdmin { account_id: "judge".to_string() },
            ProposalStatus::RejectedByAdmin { account_id: "judge".to_string() },
        ]
    );
    for w in ["w1", "w2", "w3"] {
        let _ = d.approve_work(&ctx("owner", 600, 0, 9), id.clone(), w.to_string());
        let _ = d.reject_work(&ctx("owner", 600, 0, 9), id.clone(), w.to_string(), "no".to_string());
        let _ = d.report_rejection(&ctx(w, 600, 0, 9), id.clone(), "why".to_string());
        let _ = d.approve_report(&ctx("judge", 600, 0, 9), rid(w, &id));
        let _ = d.reject_report(&ctx("judge", 600, 0, 9), rid(w, &id));
        let _ = d.submit_work(&ctx(w, 600, SUBMIT_BOND, 9), id.clone(), "again".to_string());
        let _ = d.claim(&ctx(w, 601 + 5 * DAY, 0, 9), id.clone());
    }
    let _ = d.mark_task_as_completed(&ctx("owner", 601 + 5 * DAY, 0, 9), id.clone());
    assert_eq!(statuses(&d), before);
    assert!(d.task_records.get(&id).unwrap().completed);
}
