use std::collections::HashMap;

use chrono::{DateTime, TimeZone, Utc};
use pypes::executors::cron::{
    is_searchable, next_fire_after, parse, CronAction, CronError, NextDue, Scheduler,
    LAST_REPRESENTABLE_SECS,
};
use pypes::executors::webhook::WebhookAction;
use pypes::executors::Action;
use pypes::scheduler_loop::{build_scheduler, empty_scheduler};
use pypes::time::Timestamp;

fn ts(dt: DateTime<Utc>) -> Timestamp {
    Timestamp::new(dt.timestamp(), dt.timestamp_subsec_nanos())
}

fn dt(t: Timestamp) -> DateTime<Utc> {
    DateTime::from_timestamp(t.secs, t.nanos).unwrap()
}

fn at(h: u32, m: u32, s: u32) -> Timestamp {
    ts(Utc.with_ymd_and_hms(2026, 5, 3, h, m, s).unwrap())
}

fn webhook_dummy() -> Box<Action> {
    Box::new(Action::Webhook(WebhookAction {
        url: "http://127.0.0.1:1/unused".to_string(),
        headers: HashMap::new(),
        payload: None,
    }))
}

fn cron(expression: &str) -> CronAction {
    CronAction { expression: expression.to_string(), action: webhook_dummy() }
}

#[test]
fn parses_five_field_expression() {
    let schedule = parse("*/5 * * * *").unwrap();
    let after = at(12, 0, 0);
    let next = schedule.next_after(after).unwrap();
    // Five-field padding fires on second 0; the next */5 boundary after 12:00:00 is 12:05:00.
    assert_eq!(next, at(12, 5, 0));
}

#[test]
fn parses_six_field_expression_with_seconds() {
    // Every second.
    let schedule = parse("* * * * * *").unwrap();
    let after = at(12, 0, 0);
    let next = schedule.next_after(after).unwrap();
    assert_eq!(next, at(12, 0, 1));
}

#[test]
fn rejects_wrong_field_count() {
    assert!(matches!(parse("* * *"), Err(CronError::InvalidExpression(_))));
    assert!(matches!(parse("* * * * * * * *"), Err(CronError::InvalidExpression(_))));
}

#[test]
fn rejects_garbage_expression() {
    assert!(matches!(parse("not a cron"), Err(CronError::InvalidExpression(_))));
}

#[test]
fn next_fire_is_strictly_after_input() {
    let now = at(12, 0, 0);
    // "0 12 * * *" => daily at noon. now == noon; next fire is tomorrow noon.
    let next = next_fire_after("0 12 * * *", now).unwrap();
    assert_eq!(next, ts(Utc.with_ymd_and_hms(2026, 5, 4, 12, 0, 0).unwrap()));
}

#[test]
fn scheduler_fires_on_time_with_mock_clock() {
    let started = at(12, 0, 0);
    let mut scheduler = Scheduler::from_actions(&[cron("* * * * * *")], started).unwrap();

    // First fire is 12:00:01.
    let first = scheduler.entries()[0].next_fire;
    assert_eq!(first, at(12, 0, 1));

    // Just before the tick, nothing is due.
    let just_before = ts(dt(first) - chrono::Duration::milliseconds(1));
    assert!(scheduler.due_at(just_before).is_empty());

    // At the tick, our entry is due.
    assert_eq!(scheduler.due_at(first), vec![0]);

    // After advancing, the next fire is one second later and the same
    // instant is no longer due.
    let next = scheduler.advance(0, first).unwrap();
    assert_eq!(next, at(12, 0, 2));
    assert!(scheduler.due_at(first).is_empty());
    assert_eq!(scheduler.due_at(next), vec![0]);
}

#[test]
fn scheduler_earliest_next_picks_min() {
    let now = at(12, 0, 0);
    let scheduler =
        Scheduler::from_actions(&[cron("* * * * *"), cron("* * * * * *")], now).unwrap();
    let earliest = scheduler.earliest_next().unwrap();
    assert_eq!(earliest, at(12, 0, 1));
}

#[test]
fn seven_field_expression_is_passed_through() {
    let schedule = parse("  30 15 10 * * * 2027  ").unwrap();
    assert_eq!(schedule.next_after(at(12, 0, 0)).unwrap(), ts(Utc.with_ymd_and_hms(2027, 1, 1, 10, 15, 30).unwrap()));
}

#[test]
fn field_count_error_names_the_count() {
    match parse("* * *") {
        Err(e) => assert_eq!(e.message(), "invalid cron expression: expected 5, 6, or 7 fields, got 3"),
        Ok(_) => panic!("expected an error"),
    }
    match parse("\t \n") {
        Err(CronError::InvalidExpression(m)) => assert_eq!(m, "expected 5, 6, or 7 fields, got 0"),
        _ => panic!("expected an error"),
    }
    match parse("1 2 3 4 5 6 7 8 9 10 11 12") {
        Err(CronError::InvalidExpression(m)) => assert_eq!(m, "expected 5, 6, or 7 fields, got 12"),
        _ => panic!("expected an error"),
    }
}

#[test]
fn garbage_error_carries_the_cron_crate_text() {
    match parse("a b c d e") {
        Err(CronError::InvalidExpression(m)) => assert!(!m.is_empty()),
        _ => panic!("expected an error"),
    }
}

#[test]
fn no_upcoming_fire_after_the_last_year() {
    let after = ts(Utc.with_ymd_and_hms(2101, 1, 1, 0, 0, 0).unwrap());
    assert!(matches!(next_fire_after("0 0 0 1 1 * 2100", after), Err(CronError::NoUpcomingFire)));
    assert_eq!(
        CronError::NoUpcomingFire.message(),
        "cron expression has no upcoming fire time"
    );
}

#[test]
fn from_actions_reports_first_failing_expression() {
    let now = at(12, 0, 0);
    match Scheduler::from_actions(&[cron("* * * * *"), cron("bad"), cron("* *")], now) {
        Err(CronError::InvalidExpression(m)) => assert_eq!(m, "expected 5, 6, or 7 fields, got 1"),
        _ => panic!("expected an error"),
    }
}

#[test]
fn built_scheduler_has_nothing_due_at_build_time() {
    let now = at(12, 0, 0);
    let scheduler =
        Scheduler::from_actions(&[cron("* * * * *"), cron("*/2 * * * * *")], now).unwrap();
    assert!(scheduler.due_at(now).is_empty());
    assert_eq!(scheduler.entries().len(), 2);
    assert_eq!(scheduler.entries()[1].action.expression, "*/2 * * * * *");
}

#[test]
fn advance_error_leaves_entry_unchanged() {
    let now = at(12, 0, 0);
    let mut scheduler = Scheduler::from_actions(&[cron("0 0 0 1 1 * 2100")], now).unwrap();
    let before = scheduler.entries()[0].next_fire;
    let late = ts(Utc.with_ymd_and_hms(2101, 1, 1, 0, 0, 0).unwrap());
    assert!(matches!(scheduler.advance(0, late), Err(CronError::NoUpcomingFire)));
    assert_eq!(scheduler.entries()[0].next_fire, before);
}

#[test]
fn poll_reports_due_wait_and_idle() {
    let now = at(12, 0, 0);
    let scheduler = Scheduler::from_actions(&[cron("* * * * *"), cron("*/10 * * * * *")], now).unwrap();
    match scheduler.poll(now) {
        NextDue::WaitUntil(t) => assert_eq!(t, at(12, 0, 10)),
        other => panic!("expected a wait, got {other:?}"),
    }
    match scheduler.poll(at(12, 0, 30)) {
        NextDue::Due(v) => assert_eq!(v, vec![1]),
        other => panic!("expected due entries, got {other:?}"),
    }
    match scheduler.poll(at(12, 1, 0)) {
        NextDue::Due(v) => assert_eq!(v, vec![0, 1]),
        other => panic!("expected due entries, got {other:?}"),
    }
    assert!(matches!(empty_scheduler(now).poll(now), NextDue::Idle));
    assert!(empty_scheduler(now).earliest_next().is_none());
}

#[test]
fn build_scheduler_falls_back_to_empty() {
    let now = at(12, 0, 0);
    let (s, err) = build_scheduler(&[cron("* * * * *"), cron("nope")], now);
    assert!(s.entries().is_empty());
    assert!(matches!(err, Some(CronError::InvalidExpression(_))));
    let (s, err) = build_scheduler(&[cron("* * * * *")], now);
    assert!(err.is_none());
    assert_eq!(s.entries()[0].next_fire, at(12, 1, 0));
}

#[test]
fn leap_second_input_orders_after_its_second() {
    let a = Timestamp::new(10, 999_999_999);
    let b = Timestamp::new(10, 1_500_000_000);
    let c = Timestamp::new(11, 0);
    assert!(a.is_at_or_before(&b));
    assert!(b.is_at_or_before(&c));
    assert!(!c.is_at_or_before(&b));
}

#[test]
fn end_of_representable_time() {
    let last = Timestamp::new(LAST_REPRESENTABLE_SECS, 0);
    assert!(!is_searchable(last));
    // An expression that does not parse is refused before any search.
    assert!(matches!(next_fire_after("bad", last), Err(CronError::InvalidExpression(_))));
    // Past chrono's range there is no instant to search from.
    let beyond = Timestamp::new(LAST_REPRESENTABLE_SECS + 1, 0);
    assert!(matches!(next_fire_after("* * * * * *", beyond), Err(CronError::NoUpcomingFire)));
    assert!(is_searchable(Timestamp::new(LAST_REPRESENTABLE_SECS - 1, 999_999_999)));
    assert_eq!(DateTime::<Utc>::MAX_UTC.timestamp(), LAST_REPRESENTABLE_SECS);
}

#[test]
fn five_fields_mean_a_zero_seconds_field() {
    let a = parse("*/5 * * * *").unwrap();
    let b = parse("0 */5 * * * *").unwrap();
    let mut t = at(12, 0, 7);
    for _ in 0..5 {
        let x = a.next_after(t).unwrap();
        assert_eq!(Some(x), b.next_after(t));
        assert_eq!(x.secs % 60, 0);
        assert_eq!(x.nanos, 0);
        t = x;
    }
    assert!(matches!(parse("*/5 x * * *"), Err(CronError::InvalidExpression(_))));
    assert!(matches!(parse("0 */5 x * * *"), Err(CronError::InvalidExpression(_))));
}

#[test]
fn a_leading_list_joins_the_padded_seconds() {
    // ",5 * * * *" pads to "0 ,5 * * * * *", which the cron crate reads as
    // seconds {0, 5}: the padded zero is not the whole seconds field.
    let next = next_fire_after(",5 * * * *", at(12, 0, 0)).unwrap();
    assert_eq!(next, at(12, 0, 5));
}

#[test]
fn an_advanced_instant_fires_once() {
    let started = at(12, 0, 0);
    let mut scheduler = Scheduler::from_actions(&[cron("*/2 * * * * *")], started).unwrap();
    let first = scheduler.entries()[0].next_fire;
    assert_eq!(first, at(12, 0, 2));
    let fired_at = at(12, 0, 3);
    assert_eq!(scheduler.due_at(fired_at), vec![0]);
    let next = scheduler.advance(0, fired_at).unwrap();
    assert_eq!(next, at(12, 0, 4));
    assert!(scheduler.due_at(fired_at).is_empty());
    assert!(scheduler.due_at(ts(dt(next) - chrono::Duration::nanoseconds(1))).is_empty());
}
