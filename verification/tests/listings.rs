use dwork::account::LockedBalance;
use dwork::admin::RunningState;
use dwork::report::ReportId;
use dwork::state::Dwork;
use dwork::types::{CallContext, Error};

const REGISTER_BOND: u128 = 500_000_000_000_000_000_000_000;
const SUBMIT_BOND: u128 = 10_000_000_000_000_000_000_000;
const PRICE: u128 = 1_000_000_000_000_000_000_000_000;
const DAY: u64 = 86_400_000_000_000;

fn call(caller: &str, now: u64, deposit: u128, block: u64) -> CallContext {
    CallContext {
        predecessor_account_id: caller.to_string(),
        current_account_id: "dwork.near".to_string(),
        attached_deposit: deposit,
        block_timestamp: now,
        block_index: block,
    }
}

fn busy_market() -> Dwork {
    let mut d = Dwork::new();
    for p in ["owner", "w1", "w2"] {
        assert_eq!(d.register(&call(p, 1, REGISTER_BOND, 1)), Ok(()));
    }
    assert_eq!(d.add_admin(&call("neilharan.testnet", 1, 0, 1), "judge".to_string()), Ok(true));
    for name in ["Art", "Code", "Text"] {
        assert_eq!(d.new_category(&call("owner", 5, 0, 1), name.to_string()), Ok(true));
    }
    for block in 1..=5u64 {
        let r = d.new_task(
            &call("owner", 100 + block, PRICE, block),
            format!("Task {}", block),
            "Do it".to_string(),
            PRICE,
            1,
            DAY,
            "code".to_string(),
        );
        assert_eq!(r, Ok(format!("owner_{}", block)));
    }
    d
}

fn ids(shown: &[(String, dwork::task::WrappedTask)]) -> Vec<String> {
    shown.iter().map(|(id, _)| id.clone()).collect()
}

#[test]
fn tasks_are_listed_newest_first() {
    let d = busy_market();
    assert_eq!(ids(&d.available_tasks(0, 2)), vec!["owner_5", "owner_4"]);
    assert_eq!(ids(&d.available_tasks(2, 2)), vec!["owner_3", "owner_2"]);
    assert_eq!(ids(&d.available_tasks(4, 2)), vec!["owner_1"]);
    assert_eq!(ids(&d.available_tasks(5, 2)), Vec::<String>::new());
    assert_eq!(ids(&d.available_tasks(0, 100)).len(), 5);
    assert_eq!(ids(&d.available_tasks(0, 0)), Vec::<String>::new());
    let shown = d.available_tasks(0, 1);
    let (id, task) = &shown[0];
    assert_eq!(id, "owner_5");
    assert_eq!(task.owner, "owner");
    assert_eq!(task.title, "Task 5");
    assert_eq!(task.description, "Do it");
    assert_eq!(task.max_participants, 1);
    assert_eq!(task.price, PRICE);
    assert_eq!(task.created_at, 105);
    assert_eq!(task.available_until, 105 + DAY);
    assert_eq!(task.category_id, "code");
    assert_eq!(task.proposals, vec![]);
}

#[test]
fn task_by_id_shows_the_proposals_in_full() {
    let mut d = busy_market();
    for w in ["w1", "w2"] {
        assert_eq!(
            d.submit_work(&call(w, 200, SUBMIT_BOND, 8), "owner_2".to_string(), format!("work of {}", w)),
            Ok(())
        );
    }
    let task = d.task_by_id("owner_2".to_string()).unwrap();
    assert_eq!(task.proposals.len(), 2);
    assert_eq!(task.proposals[0].account_id, "w1");
    assert_eq!(task.proposals[0].proof_of_work, "work of w1");
    assert_eq!(task.proposals[0].submit_time, 200);
    assert_eq!(task.proposals[1].account_id, "w2");
    assert_eq!(d.task_by_id("owner_9".to_string()), Err(Error::NotFound));
    let both = d.tasks_by_ids(vec!["owner_2".to_string(), "owner_1".to_string()]).unwrap();
    assert_eq!(ids(&both), vec!["owner_2", "owner_1"]);
    assert_eq!(both[0].1, task);
    assert_eq!(d.tasks_by_ids(vec!["owner_2".to_string(), "nobody_1".to_string()]), Err(Error::NotFound));
}

#[test]
fn jobs_of_an_account_are_listed_newest_first() {
    let mut d = busy_market();
    assert_eq!(ids(&d.current_tasks("owner".to_string(), 0, 3).unwrap()), vec!["owner_5", "owner_4", "owner_3"]);
    assert_eq!(ids(&d.current_tasks("owner".to_string(), 3, 3).unwrap()), vec!["owner_2", "owner_1"]);
    assert_eq!(d.completed_tasks("owner".to_string(), 0, 3).unwrap(), vec![]);
    assert_eq!(d.current_tasks("ghost".to_string(), 0, 3), Err(Error::NotFound));
    assert_eq!(d.completed_tasks("ghost".to_string(), 0, 3), Err(Error::NotFound));
    assert!(d.mark_task_as_completed(&call("owner", 200 + DAY, 0, 9), "owner_3".to_string()).is_ok());
    assert_eq!(ids(&d.current_tasks("owner".to_string(), 0, 9).unwrap()), vec!["owner_5", "owner_4", "owner_2", "owner_1"]);
    assert_eq!(ids(&d.completed_tasks("owner".to_string(), 0, 9).unwrap()), vec!["owner_3"]);
}

#[test]
fn categories_and_reports_are_listed_newest_first() {
    let mut d = busy_market();
    let names: Vec<String> = d.categories(0, 2).iter().map(|c| c.name.clone()).collect();
    assert_eq!(names, vec!["Text", "Code"]);
    let shown = d.categories(2, 2);
    assert_eq!(shown.len(), 1);
    assert_eq!((shown[0].id.as_str(), shown[0].name.as_str(), shown[0].created, shown[0].num_posts), ("art", "Art", 5, 0));
    assert_eq!(d.categories(0, 9)[1].num_posts, 5);
    assert_eq!(d.new_category(&call("owner", 6, 0, 1), "art".to_string()), Err(Error::StateConflict));
    assert_eq!(d.new_category(&call("owner", 6, 0, 1), "x".repeat(101)), Err(Error::Validation));
    for (task, w) in [("owner_1", "w1"), ("owner_2", "w2")] {
        assert_eq!(d.submit_work(&call(w, 200, SUBMIT_BOND, 8), task.to_string(), "link".to_string()), Ok(()));
        assert_eq!(
            d.reject_work(&call("owner", 300, 0, 9), task.to_string(), w.to_string(), "slow".to_string()),
            Ok(())
        );
        assert_eq!(d.report_rejection(&call(w, 400, 0, 9), task.to_string(), format!("says {}", w)), Ok(()));
    }
    let shown = d.get_reports(0, 1);
    assert_eq!(shown.len(), 1);
    assert_eq!(shown[0].report, "says w2");
    assert_eq!(shown[0].report_id, ReportId { account_id: "w2".to_string(), task_id: "owner_2".to_string() });
    assert_eq!(d.get_reports(1, 5)[0].report, "says w1");
    assert_eq!(d.get_reports(2, 5), vec![]);
}

#[test]
fn overdue_reviews_are_found() {
    let mut d = busy_market();
    let task = || "owner_1".to_string();
    assert_eq!(d.check_available_review_report("nobody_1".to_string(), 0), Err(Error::NotFound));
    assert_eq!(d.check_available_review_proposal("nobody_1".to_string(), 0), Err(Error::NotFound));
    assert_eq!(d.check_available_review_proposal(task(), u64::MAX), Ok(false));
    assert_eq!(d.submit_work(&call("w1", 200, SUBMIT_BOND, 8), task(), "link".to_string()), Ok(()));
    assert_eq!(d.check_available_review_proposal(task(), 100 + DAY), Ok(false));
    assert_eq!(d.check_available_review_proposal(task(), 101 + DAY), Ok(true));
    assert_eq!(d.reject_work(&call("owner", 300, 0, 9), task(), "w1".to_string(), "slow".to_string()), Ok(()));
    assert_eq!(d.check_available_review_proposal(task(), 101 + DAY), Ok(false));
    assert_eq!(d.check_available_review_report(task(), u64::MAX), Ok(false));
    assert_eq!(d.report_rejection(&call("w1", 400, 0, 9), task(), "why".to_string()), Ok(()));
    assert_eq!(d.check_available_review_report(task(), 300 + 5 * DAY), Ok(false));
    assert_eq!(d.check_available_review_report(task(), 301 + 5 * DAY), Ok(true));
    let report = ReportId { account_id: "w1".to_string(), task_id: task() };
    assert_eq!(d.reject_report(&call("judge", 500, 0, 9), report), Ok(()));
    assert_eq!(d.check_available_review_report(task(), 301 + 5 * DAY), Ok(false));
}

#[test]
fn accounts_are_shown_to_clients() {
    let mut d = busy_market();
    assert_eq!(d.user_info("ghost".to_string()).map(|_| ()), Err(Error::NotFound));
    assert_eq!(d.register(&call("w1", 2, REGISTER_BOND, 1)), Err(Error::StateConflict));
    assert_eq!(d.register(&call("w3", 2, REGISTER_BOND + 1, 1)), Err(Error::Validation));
    assert_eq!(d.update_bio(&call("ghost", 2, 0, 1), "hi".to_string()), Err(Error::NotFound));
    assert_eq!(d.update_bio(&call("w1", 2, 0, 1), "I draw".to_string()), Ok(()));
    assert_eq!(d.submit_work(&call("w1", 200, SUBMIT_BOND, 8), "owner_1".to_string(), "link".to_string()), Ok(()));
    assert_eq!(d.approve_work(&call("owner", 300, 0, 9), "owner_1".to_string(), "w1".to_string()), Ok(()));
    assert_eq!(d.add_pos_point("w1".to_string(), 3), Ok(()));
    assert_eq!(d.add_neg_point("w1".to_string(), 4), Ok(()));
    assert_eq!(d.add_neg_point("w1".to_string(), u32::MAX), Err(Error::Validation));
    assert_eq!(d.add_pos_point("ghost".to_string(), 1), Err(Error::NotFound));
    let w = d.user_info("w1".to_string()).unwrap();
    assert_eq!(w.account_id, "w1");
    assert_eq!(w.bio, "I draw");
    assert_eq!(w.locked_balance, vec![("owner_1".to_string(), LockedBalance { amount: PRICE, release_at: 300 })]);
    assert_eq!((w.balance, w.total_spent, w.total_earn), (0, 0, 0));
    assert_eq!(w.current_jobs, vec!["owner_1".to_string()]);
    assert_eq!(w.completed_jobs, Vec::<String>::new());
    assert_eq!((w.pos_point, w.neg_point), (8, 4));
}

#[test]
fn admin_rights_and_configuration() {
    let mut d = Dwork::new();
    let root = call("neilharan.testnet", 1, 0, 1);
    let itself = call("dwork.near", 1, 0, 1);
    let other = call("mallory", 1, 0, 1);
    assert!(!d.is_admin(&"judge".to_string()));
    assert_eq!(d.add_admin(&other, "mallory".to_string()), Err(Error::Authorization));
    assert_eq!(d.add_admin(&root, "judge".to_string()), Ok(true));
    assert_eq!(d.add_admin(&itself, "judge".to_string()), Err(Error::StateConflict));
    assert_eq!(d.add_admin(&itself, "jury".to_string()), Ok(true));
    assert!(d.is_admin(&"judge".to_string()));
    assert_eq!(d.remove_admin(&other, "judge".to_string()), Err(Error::Authorization));
    assert_eq!(d.remove_admin(&root, "nobody".to_string()), Err(Error::StateConflict));
    assert_eq!(d.remove_admin(&root, "judge".to_string()), Ok(true));
    assert!(!d.is_admin(&"judge".to_string()));
    assert!(d.is_admin(&"jury".to_string()));

    d.change_config(Some(1), None, Some(3), None);
    assert_eq!(d.app_config.register_bond, 1);
    assert_eq!(d.app_config.submit_bond, 10_000_000_000_000_000_000_000);
    assert_eq!(d.app_config.minimum_reward_per_task, 3);
    assert_eq!(d.app_config.maximum_reward_per_task, 100_000_000_000_000_000_000_000_000);
    d.change_config(None, Some(2), None, Some(4));
    assert_eq!((d.app_config.submit_bond, d.app_config.maximum_reward_per_task), (2, 4));

    assert_eq!(d.change_state(&call("mallory", 1, 0, 1), RunningState::Paused), Err(Error::Validation));
    assert_eq!(d.change_state(&call("mallory", 1, 1, 1), RunningState::Running), Ok(None));
    assert_eq!(
        d.change_state(&call("mallory", 1, 1, 1), RunningState::Paused),
        Ok(Some("Contract state changed from Running to Paused by mallory".to_string()))
    );
    assert_eq!(d.app_config.running_state, RunningState::Paused);
    assert_eq!(d.change_state(&call("mallory", 1, 1, 1), RunningState::Running), Err(Error::Authorization));
    assert_eq!(
        d.change_state(&call("jury", 1, 1, 1), RunningState::Running),
        Ok(Some("Contract state changed from Paused to Running by jury".to_string()))
    );
    assert_eq!(d.app_config.running_state, RunningState::Running);
}
