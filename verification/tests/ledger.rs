use chrono::{DateTime, Duration, Utc};
use plugdeck::codex_reset_ledger::{can_reconcile, estimate, reconcile, CreditStatus, Ledger};
use plugdeck::times::Moment;

fn moment(at: DateTime<Utc>) -> Moment {
    Moment {
        seconds: at.timestamp(),
        nanos: at.timestamp_subsec_nanos(),
    }
}

fn first_time() -> DateTime<Utc> {
    DateTime::parse_from_rfc3339("2026-06-23T10:00:00Z")
        .unwrap()
        .with_timezone(&Utc)
}

#[test]
fn first_observation_is_untracked_baseline() {
    let mut ledger = Ledger::new();
    let now = first_time();
    let estimate = reconcile(&mut ledger, 2, &moment(now));
    assert_eq!(estimate.remote_available_count, 2);
    assert_eq!(estimate.tracked_available_count, 0);
    assert_eq!(estimate.untracked_available_count, 2);
    assert!(estimate.next_expires_at.is_none());
}

#[test]
fn increased_count_tracks_new_credits_for_30_days() {
    let mut ledger = Ledger::new();
    let first = first_time();
    reconcile(&mut ledger, 2, &moment(first));
    let second = first + Duration::days(2);
    let estimate = reconcile(&mut ledger, 4, &moment(second));
    assert_eq!(estimate.remote_available_count, 4);
    assert_eq!(estimate.tracked_available_count, 2);
    assert_eq!(estimate.untracked_available_count, 2);
    assert_eq!(
        estimate.next_expires_at,
        Some((second + Duration::days(30)).to_rfc3339())
    );
}

#[test]
fn decreased_count_marks_tracked_credits_removed() {
    let mut ledger = Ledger::new();
    let first = first_time();
    reconcile(&mut ledger, 0, &moment(first));
    reconcile(&mut ledger, 2, &moment(first + Duration::days(1)));
    let estimate = reconcile(&mut ledger, 1, &moment(first + Duration::days(2)));
    assert_eq!(estimate.remote_available_count, 1);
    assert_eq!(estimate.tracked_available_count, 1);
    assert_eq!(estimate.untracked_available_count, 0);
}

#[test]
fn credits_expire_after_thirty_days_and_not_before() {
    let mut ledger = Ledger::new();
    let first = first_time();
    reconcile(&mut ledger, 0, &moment(first));
    reconcile(&mut ledger, 1, &moment(first));
    let last = first + Duration::days(30) - Duration::nanoseconds(1);
    assert_eq!(estimate(&mut ledger, 1, &moment(last)).tracked_available_count, 1);
    let over = first + Duration::days(30);
    let after = estimate(&mut ledger, 1, &moment(over));
    assert_eq!(after.tracked_available_count, 0);
    assert_eq!(after.untracked_available_count, 1);
    assert_eq!(ledger.credits[0].status, CreditStatus::Expired);
    assert_eq!(ledger.credits[0].updated_at, over.to_rfc3339());
}

#[test]
fn a_fall_takes_the_credits_that_expire_first() {
    let mut ledger = Ledger::new();
    let first = first_time();
    reconcile(&mut ledger, 0, &moment(first));
    reconcile(&mut ledger, 1, &moment(first + Duration::days(1)));
    reconcile(&mut ledger, 3, &moment(first + Duration::days(2)));
    let estimate = reconcile(&mut ledger, 1, &moment(first + Duration::days(3)));
    assert_eq!(estimate.tracked_available_count, 1);
    assert_eq!(ledger.credits[0].status, CreditStatus::UsedOrRemoved);
    assert_eq!(ledger.credits[1].status, CreditStatus::UsedOrRemoved);
    assert_eq!(ledger.credits[2].status, CreditStatus::Available);
    assert_eq!(ledger.credits[2].id, 3);
    assert_eq!(
        estimate.next_expires_at,
        Some((first + Duration::days(32)).to_rfc3339())
    );
}

#[test]
fn a_negative_count_is_taken_as_none() {
    let mut ledger = Ledger::new();
    let now = moment(first_time());
    let estimate = reconcile(&mut ledger, -3, &now);
    assert_eq!(estimate.remote_available_count, 0);
    assert_eq!(ledger.observations.len(), 1);
    assert_eq!(ledger.observations[0].available_count, 0);
    assert_eq!(ledger.last_count.unwrap().value, "0");
}

#[test]
fn repeating_a_count_changes_no_credit() {
    let mut ledger = Ledger::new();
    let first = first_time();
    reconcile(&mut ledger, 0, &moment(first));
    let once = reconcile(&mut ledger, 2, &moment(first));
    let twice = reconcile(&mut ledger, 2, &moment(first));
    assert_eq!(once, twice);
    assert_eq!(ledger.credits.len(), 2);
    assert_eq!(ledger.next_id, 3);
    assert_eq!(ledger.observations.len(), 3);
}

#[test]
fn credits_count_at_once_in_a_leap_second() {
    let day = Moment {
        seconds: 1_483_142_400,
        nanos: 0,
    };
    let leap = Moment {
        seconds: 1_483_228_799,
        nanos: 1_500_000_000,
    };
    let mut ledger = Ledger::new();
    reconcile(&mut ledger, 1, &day);
    let estimate = reconcile(&mut ledger, 3, &leap);
    assert_eq!(estimate.tracked_available_count, 2);
    assert_eq!(estimate.untracked_available_count, 1);
    assert_eq!(ledger.credits[0].first_seen_at, "2016-12-31T23:59:60.500+00:00");
    assert_eq!(
        estimate.next_expires_at.as_deref(),
        Some("2017-01-30T23:59:59.500+00:00")
    );
}

#[test]
fn a_ledger_has_bounds() {
    let day = moment(first_time());
    let mut ledger = Ledger::new();
    assert!(can_reconcile(&ledger, i64::MAX, &day));
    reconcile(&mut ledger, 0, &day);
    assert!(can_reconcile(&ledger, i64::MAX - 1, &day));
    assert!(!can_reconcile(&ledger, i64::MAX, &day));
    reconcile(&mut ledger, 2, &day);
    assert!(can_reconcile(&ledger, -5, &day));
    let end = Moment {
        seconds: 8_210_266_876_799,
        nanos: 0,
    };
    assert!(can_reconcile(&ledger, 2, &end));
    assert!(!can_reconcile(&ledger, 3, &end));
    ledger.credits.swap(0, 1);
    assert!(!can_reconcile(&ledger, 2, &day));
    ledger.credits.swap(0, 1);
    ledger.next_id = 2;
    assert!(!can_reconcile(&ledger, 2, &day));
}
