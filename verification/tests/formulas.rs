use dwork::account::{Account, LockedBalance};
use dwork::admin::{describe_state_change, AppConfig, RunningState};
use dwork::categories::make_category_id;
use dwork::report::ReportId;
use dwork::requester_action::{cost_of, Settlement};
use dwork::state::Dwork;
use dwork::table::{KeySet, Table};
use dwork::types::{CallContext, Error};
use dwork::utils::{assert_one_yocto, calculate_rev_limit, make_task_id, text_len, to_decimal};

const REGISTER_BOND: u128 = 500_000_000_000_000_000_000_000;
const SUBMIT_BOND: u128 = 10_000_000_000_000_000_000_000;
const PRICE: u128 = 1_000_000_000_000_000_000_000_003;
const DAY: u64 = 86_400_000_000_000;

fn context(caller: &str, now: u64, deposit: u128, block: u64) -> CallContext {
    CallContext {
        predecessor_account_id: caller.to_string(),
        current_account_id: "dwork.near".to_string(),
        attached_deposit: deposit,
        block_timestamp: now,
        block_index: block,
    }
}

#[test]
fn window_of_newest_entries() {
    assert_eq!(calculate_rev_limit(10, 0, 3), 7..10);
    assert_eq!(calculate_rev_limit(10, 2, 3), 5..8);
    assert_eq!(calculate_rev_limit(10, 8, 3), 0..2);
    assert_eq!(calculate_rev_limit(10, 10, 3), 0..0);
    assert_eq!(calculate_rev_limit(10, 12, 3), 0..0);
    assert_eq!(calculate_rev_limit(10, 0, 0), 10..10);
    assert_eq!(calculate_rev_limit(0, 0, 5), 0..0);
    assert_eq!(calculate_rev_limit(10, u64::MAX, u64::MAX), 0..0);
    assert_eq!(calculate_rev_limit(u64::MAX, 1, u64::MAX), 0..u64::MAX - 1);
}

#[test]
fn decimal_numbers_and_task_ids() {
    assert_eq!(to_decimal(0), "0");
    assert_eq!(to_decimal(7), "7");
    assert_eq!(to_decimal(10), "10");
    assert_eq!(to_decimal(1234567890), "1234567890");
    assert_eq!(to_decimal(u64::MAX), "18446744073709551615");
    assert_eq!(make_task_id(&"alice.near".to_string(), 42), "alice.near_42");
    assert_eq!(make_task_id(&"".to_string(), 0), "_0");
}

#[test]
fn category_ids_are_lower_case_with_underscores() {
    assert_eq!(make_category_id(&"Web Design".to_string()), "web_design");
    assert_eq!(make_category_id(&"  A b  ".to_string()), "__a_b__");
    assert_eq!(make_category_id(&"ÉCOLE d'Art".to_string()), "école_d'art");
    assert_eq!(make_category_id(&"plain".to_string()), "plain");
}

#[test]
fn texts_are_measured_in_bytes() {
    assert_eq!(text_len(&"".to_string()), 0);
    assert_eq!(text_len(&"abc".to_string()), 3);
    assert_eq!(text_len(&"é".to_string()), 2);
    assert_eq!(text_len(&"日本".to_string()), 6);
}

#[test]
fn cost_is_price_for_all_and_the_fee() {
    assert_eq!(cost_of(100, 3, 0), Some(300));
    assert_eq!(cost_of(100, 3, 10), Some(330));
    assert_eq!(cost_of(5, 3, 10), Some(16));
    assert_eq!(cost_of(33, 1, 10), Some(36));
    assert_eq!(cost_of(199, 1, 1), Some(200));
    assert_eq!(cost_of(1, 1, 65535), Some(656));
    assert_eq!(cost_of(0, 9, 50), Some(0));
    assert_eq!(cost_of(u128::MAX, 1, 0), Some(u128::MAX));
    assert_eq!(cost_of(u128::MAX, 1, 1), None);
    assert_eq!(cost_of(u128::MAX, 2, 0), None);
    assert_eq!(cost_of(u128::MAX / 2, 1, 100), Some(u128::MAX - 1));
    assert_eq!(cost_of(u128::MAX / 2 + 1, 1, 100), None);
    assert_eq!(cost_of(u128::MAX / 3, 3, 0), Some(u128::MAX));
}

#[test]
fn one_yocto() {
    assert_eq!(assert_one_yocto(&context("a", 1, 1, 1)), Ok(()));
    assert_eq!(assert_one_yocto(&context("a", 1, 0, 1)), Err(Error::Validation));
    assert_eq!(assert_one_yocto(&context("a", 1, 2, 1)), Err(Error::Validation));
}

#[test]
fn default_configuration() {
    let c = AppConfig::default();
    assert_eq!(c.running_state, RunningState::Running);
    assert_eq!(c.register_bond, 500_000_000_000_000_000_000_000);
    assert_eq!(c.submit_bond, 10_000_000_000_000_000_000_000);
    assert_eq!(c.report_interval, 2 * DAY);
    assert_eq!(c.validate_report_interval, 3 * DAY);
    assert_eq!(c.minimum_reward_per_task, 10_000_000_000_000_000_000_000);
    assert_eq!(c.maximum_reward_per_task, 100_000_000_000_000_000_000_000_000);
    assert_eq!(c.maximum_description_length, 10000);
    assert_eq!(c.maximum_title_length, 100);
    assert_eq!(c.maximum_proposals_at_one_time, 200);
    assert_eq!((c.big_plus, c.med_plus, c.sml_plus), (15, 10, 5));
    assert_eq!((c.big_minus, c.med_minus, c.sml_minus), (20, 15, 10));
    assert_eq!(c.claim_point_bonus, 10);
    assert_eq!(c.critical_point, 85);
    assert_eq!(c.service_fee_percent, 0);
    assert_eq!(Dwork::new().app_config, c);
    assert_eq!(Dwork::new().maximum_participants_per_task(), 200);
}

#[test]
fn running_state_names_and_change_message() {
    assert_eq!(RunningState::Running.name(), "Running");
    assert_eq!(RunningState::Paused.name(), "Paused");
    assert_eq!(
        describe_state_change(RunningState::Running, RunningState::Paused, &"judge".to_string()),
        "Contract state changed from Running to Paused by judge"
    );
}

#[test]
fn reputation_points_add_up() {
    let mut a = Account::new("w1".to_string());
    assert_eq!(a.bio, "A member of dWork");
    a.add_pos_point(5);
    a.add_pos_point(7);
    a.add_neg_point(20);
    assert_eq!((a.pos_point, a.neg_point), (12, 20));
    a.lock("t".to_string(), 9, 4);
    a.lock("u".to_string(), 1, 2);
    a.lock("t".to_string(), 8, 3);
    assert_eq!(a.locked_balance.to_vec(), vec![
        ("t".to_string(), LockedBalance { amount: 8, release_at: 3 }),
        ("u".to_string(), LockedBalance { amount: 1, release_at: 2 }),
    ]);
    a.unlock(&"t".to_string());
    assert_eq!(a.locked_balance.to_vec(), vec![("u".to_string(), LockedBalance { amount: 1, release_at: 2 })]);
    a.join("t".to_string());
    a.join("u".to_string());
    a.join("t".to_string());
    assert_eq!(a.current_jobs.to_vec(), vec!["t".to_string(), "u".to_string()]);
    a.finish(&"t".to_string());
    assert_eq!(a.current_jobs.to_vec(), vec!["u".to_string()]);
    assert_eq!(a.completed_jobs.to_vec(), vec!["t".to_string()]);
}

#[test]
fn table_keeps_first_arrival_order() {
    let mut t: Table<String, LockedBalance> = Table::new();
    for (i, k) in ["a", "b", "c", "d"].iter().enumerate() {
        t.insert(k.to_string(), LockedBalance { amount: i as u128, release_at: 0 });
    }
    t.insert("b".to_string(), LockedBalance { amount: 9, release_at: 9 });
    assert_eq!(t.len(), 4);
    assert_eq!(t.get(&"b".to_string()), Some(&LockedBalance { amount: 9, release_at: 9 }));
    assert_eq!(t.index_of(&"c".to_string()), Some(2));
    assert_eq!(t.page(0, 2), vec!["d".to_string(), "c".to_string()]);
    assert_eq!(t.page(1, 2), vec!["c".to_string(), "b".to_string()]);
    assert_eq!(t.page(3, 2), vec!["a".to_string()]);
    assert_eq!(t.page(4, 2), Vec::<String>::new());
    t.remove(&"b".to_string());
    assert!(!t.contains_key(&"b".to_string()));
    assert_eq!(t.page(0, 10), vec!["d".to_string(), "c".to_string(), "a".to_string()]);
    let mut s: KeySet<String> = KeySet::new();
    assert!(s.insert("x".to_string()));
    assert!(s.insert("y".to_string()));
    assert!(!s.insert("x".to_string()));
    assert_eq!(s.to_vec(), vec!["x".to_string(), "y".to_string()]);
    assert!(s.remove(&"x".to_string()));
    assert!(!s.remove(&"x".to_string()));
    assert_eq!(s.to_vec(), vec!["y".to_string()]);
}

/// Two admins decided three reports: the remainder is split in three shares,
/// and what cannot be split stays behind.
#[test]
fn remainder_is_shared_by_the_admins_who_decided() {
    let mut d = Dwork::new();
    for p in ["owner", "w1", "w2", "w3", "w4"] {
        assert_eq!(d.register(&context(p, 1, REGISTER_BOND, 1)), Ok(()));
    }
    let by_self = context("dwork.near", 1, 0, 1);
    assert_eq!(d.add_admin(&by_self, "judge".to_string()), Ok(true));
    assert_eq!(d.add_admin(&by_self, "jury".to_string()), Ok(true));
    assert_eq!(d.new_category(&by_self, "Art".to_string()), Ok(true));
    let budget = 4 * PRICE;
    let id = d
        .new_task(
            &context("owner", 100, budget, 7),
            "Logo".to_string(),
            "Draw a logo".to_string(),
            PRICE,
            4,
            DAY,
            "art".to_string(),
        )
        .unwrap();
    for w in ["w1", "w2", "w3", "w4"] {
        assert_eq!(d.submit_work(&context(w, 200, SUBMIT_BOND, 8), id.clone(), "link".to_string()), Ok(()));
    }
    assert_eq!(d.approve_work(&context("owner", 300, 0, 9), id.clone(), "w1".to_string()), Ok(()));
    for w in ["w2", "w3", "w4"] {
        assert_eq!(
            d.reject_work(&context("owner", 300, 0, 9), id.clone(), w.to_string(), "slow".to_string()),
            Ok(())
        );
        assert_eq!(d.report_rejection(&context(w, 400, 0, 9), id.clone(), "why".to_string()), Ok(()));
    }
    let report = |w: &str| ReportId { account_id: w.to_string(), task_id: "owner_7".to_string() };
    assert_eq!(d.reject_report(&context("judge", 500, 0, 9), report("w2")), Ok(()));
    assert_eq!(d.reject_report(&context("jury", 500, 0, 9), report("w3")), Ok(()));
    assert_eq!(d.approve_report(&context("judge", 500, 0, 9), report("w4")), Ok(()));
    let out = d.mark_task_as_completed(&context("owner", 301 + 5 * DAY, 0, 10), id.clone()).unwrap();
    let remainder = budget - PRICE;
    assert_eq!(remainder % 3, 0);
    assert_eq!(
        out,
        Settlement {
            refund: 0,
            share: remainder / 3,
            beneficiaries: vec!["judge".to_string(), "jury".to_string(), "judge".to_string()],
        }
    );
    assert_eq!(PRICE + 3 * out.share + remainder % 3, budget);
    let owner = d.accounts.get(&"owner".to_string()).unwrap();
    assert_eq!(owner.total_spent, budget);
    assert_eq!(owner.neg_point, 20);
}

#[test]
fn share_leaves_what_cannot_be_split() {
    let mut d = Dwork::new();
    for p in ["owner", "w1", "w2"] {
        assert_eq!(d.register(&context(p, 1, REGISTER_BOND, 1)), Ok(()));
    }
    let by_self = context("dwork.near", 1, 0, 1);
    assert_eq!(d.add_admin(&by_self, "judge".to_string()), Ok(true));
    assert_eq!(d.new_category(&by_self, "Art".to_string()), Ok(true));
    let budget = 2 * PRICE;
    let id = d
        .new_task(
            &context("owner", 100, budget, 7),
            "Logo".to_string(),
            "Draw a logo".to_string(),
            PRICE,
            2,
            DAY,
            "art".to_string(),
        )
        .unwrap();
    for w in ["w1", "w2"] {
        assert_eq!(d.submit_work(&context(w, 200, SUBMIT_BOND, 8), id.clone(), "link".to_string()), Ok(()));
        assert_eq!(
            d.reject_work(&context("owner", 300, 0, 9), id.clone(), w.to_string(), "slow".to_string()),
            Ok(())
        );
        assert_eq!(d.report_rejection(&context(w, 400, 0, 9), id.clone(), "why".to_string()), Ok(()));
        let report = ReportId { account_id: w.to_string(), task_id: id.clone() };
        assert_eq!(d.reject_report(&context("judge", 500, 0, 9), report), Ok(()));
    }
    // an odd budget for two shares
    let i = d.task_records.index_of(&id).unwrap();
    d.task_records.entries[i].value.budget = budget + 1;
    let out = d.mark_task_as_completed(&context("owner", 301 + 5 * DAY, 0, 10), id.clone()).unwrap();
    assert_eq!(out.refund, 0);
    assert_eq!(out.share, PRICE);
    assert_eq!(out.beneficiaries.len(), 2);
    assert_eq!(2 * out.share + 1, budget + 1);
}
