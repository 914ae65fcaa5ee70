use std::collections::HashMap;

use chrono::{TimeZone, Utc};
use pypes::executors::cron::{CronAction, CronError};
use pypes::executors::webhook::{
    capture_chunk, check_headers, response_outcome, transport_error, transport_failure,
    WebhookAction, WebhookError, MAX_HEADER_NAME_LEN, RESPONSE_BODY_LIMIT_BYTES,
    WEBHOOK_TIMEOUT_SECS,
};
use pypes::executors::{
    cron_actions, fire_target, plan_action, Action, ActionPlan, ExecutionOutcome,
};
use pypes::text::{count_words, decimal_string, trimmed};
use pypes::time::Timestamp;

fn noon() -> Timestamp {
    let dt = Utc.with_ymd_and_hms(2026, 5, 3, 12, 0, 0).unwrap();
    Timestamp::new(dt.timestamp(), dt.timestamp_subsec_nanos())
}

fn webhook(url: &str) -> WebhookAction {
    WebhookAction { url: url.to_string(), headers: HashMap::new(), payload: None }
}

fn json_error() -> serde_json::Error {
    serde_json::from_str::<serde_json::Value>("not json").unwrap_err()
}

#[test]
fn decimal_rendering() {
    assert_eq!(decimal_string(0), "0");
    assert_eq!(decimal_string(7), "7");
    assert_eq!(decimal_string(10), "10");
    assert_eq!(decimal_string(65536), "65536");
    assert_eq!(decimal_string(usize::MAX), usize::MAX.to_string());
}

#[test]
fn trimming_and_word_counting() {
    assert_eq!(trimmed("  a b \u{3000}"), "a b");
    assert_eq!(trimmed(" \t\n"), "");
    assert_eq!(count_words("  */5  *\t* * *  "), 5);
    assert_eq!(count_words(""), 0);
    assert_eq!(count_words("a\u{a0}b"), 2);
}

#[test]
fn header_checks_report_first_problem() {
    let ok = vec![("Authorization".to_string(), "Bearer abc123".to_string())];
    assert!(check_headers(&ok).is_ok());
    let bad_name = vec![
        ("X-Good".to_string(), "v".to_string()),
        ("bad header\n".to_string(), "value".to_string()),
    ];
    match check_headers(&bad_name) {
        Err(WebhookError::InvalidHeaderName(n)) => assert_eq!(n, "bad header\n"),
        other => panic!("expected InvalidHeaderName, got {other:?}"),
    }
    let bad_value = vec![("X-Line".to_string(), "a\nb".to_string())];
    match check_headers(&bad_value) {
        Err(WebhookError::InvalidHeaderValue(n)) => assert_eq!(n, "X-Line"),
        other => panic!("expected InvalidHeaderValue, got {other:?}"),
    }
    let del = vec![("X-Del".to_string(), "\u{7f}".to_string())];
    assert!(matches!(check_headers(&del), Err(WebhookError::InvalidHeaderValue(_))));
    let tab = vec![("X-Tab".to_string(), "a\tb".to_string())];
    assert!(check_headers(&tab).is_ok());
}

#[test]
fn body_capture_stops_at_the_limit() {
    let cap: usize = 16;
    let mut buf = Vec::new();
    assert!(!capture_chunk(&mut buf, b"0123456789", cap));
    assert_eq!(buf, b"0123456789".to_vec());
    assert!(capture_chunk(&mut buf, b"abcdefghij", cap));
    assert_eq!(buf, b"0123456789abcdef".to_vec());
    assert_eq!(buf.len(), cap);
    let mut exact = Vec::new();
    assert!(!capture_chunk(&mut exact, &[b'x'; 16], cap));
    assert!(capture_chunk(&mut exact, b"y", cap));
    assert_eq!(exact.len(), cap);
}

#[test]
fn oversized_success_body_is_truncated() {
    let cap: usize = 16;
    let big_body = "x".repeat(cap + 1);
    let mut buf = Vec::new();
    let truncated = capture_chunk(&mut buf, big_body.as_bytes(), cap);
    let result = response_outcome(200, &buf, truncated).unwrap();
    assert_eq!(result.status, 200);
    assert!(result.body_truncated);
    assert_eq!(result.body.len(), cap);
    assert_eq!(result.body, "x".repeat(cap));
}

#[test]
fn oversized_error_body_gives_response_too_large() {
    let cap: usize = 16;
    let big_body = "e".repeat(cap + 1);
    let mut buf = Vec::new();
    let truncated = capture_chunk(&mut buf, big_body.as_bytes(), cap);
    match response_outcome(500, &buf, truncated) {
        Err(WebhookError::ResponseTooLarge { status, captured_bytes }) => {
            assert_eq!(status, 500);
            assert_eq!(captured_bytes, cap);
        }
        other => panic!("expected ResponseTooLarge, got {other:?}"),
    }
}

#[test]
fn non_success_status_is_an_error() {
    let mut buf = Vec::new();
    let truncated = capture_chunk(&mut buf, b"kaboom", RESPONSE_BODY_LIMIT_BYTES);
    let err = response_outcome(500, &buf, truncated).unwrap_err();
    assert_eq!(err.message(), "webhook returned non-success status 500: kaboom");
    match err {
        WebhookError::NonSuccessStatus { status, body } => {
            assert_eq!(status, 500);
            assert_eq!(body, "kaboom");
        }
        other => panic!("expected NonSuccessStatus, got {other:?}"),
    }
}

#[test]
fn success_body_is_decoded_lossily() {
    let r = response_outcome(204, &[], false).unwrap();
    assert_eq!(r.status, 204);
    assert_eq!(r.body, "");
    assert!(!r.body_truncated);
    let r = response_outcome(299, &[b'o', b'k', 0xff], false).unwrap();
    assert_eq!(r.body, "ok\u{fffd}");
    assert!(response_outcome(300, b"moved", false).is_err());
    assert!(response_outcome(199, b"early", false).is_err());
}

#[test]
fn error_messages() {
    assert_eq!(
        WebhookError::InvalidHeaderName("a b".to_string()).message(),
        "invalid header name: a b"
    );
    assert_eq!(
        WebhookError::InvalidHeaderValue("X".to_string()).message(),
        "invalid header value for X"
    );
    assert_eq!(
        WebhookError::ResponseTooLarge { status: 502, captured_bytes: 16 }.message(),
        "webhook response body exceeded limit (16 bytes captured, status 502)"
    );
    assert_eq!(
        CronError::InvalidExpression("x".to_string()).message(),
        "invalid cron expression: x"
    );
}

#[test]
fn plan_fires_webhooks_and_schedules_crons() {
    let now = noon();
    match plan_action("w", Ok(Action::Webhook(webhook("https://example.com/hook"))), now) {
        ActionPlan::FireWebhook(w) => assert_eq!(w.url, "https://example.com/hook"),
        other => panic!("expected a webhook to fire, got {other:?}"),
    }
    let c = CronAction {
        expression: "*/5 * * * *".to_string(),
        action: Box::new(Action::Webhook(webhook("https://example.com/hook"))),
    };
    match plan_action("c", Ok(Action::Cron(c)), now) {
        ActionPlan::Report(o) => {
            assert!(o.is_ok());
            match o {
                ExecutionOutcome::Cron(Ok(s)) => {
                    assert_eq!(s.expression, "*/5 * * * *");
                    assert_eq!(s.next_fire, Timestamp::new(now.secs + 300, 0));
                }
                other => panic!("expected a scheduled cron, got {other:?}"),
            }
        }
        other => panic!("expected a report, got {other:?}"),
    }
    let bad = CronAction {
        expression: "* *".to_string(),
        action: Box::new(Action::Webhook(webhook("https://example.com/hook"))),
    };
    match plan_action("b", Ok(Action::Cron(bad)), now) {
        ActionPlan::Report(o) => {
            assert!(!o.is_ok());
            assert!(matches!(o, ExecutionOutcome::Cron(Err(CronError::InvalidExpression(_)))));
        }
        other => panic!("expected a report, got {other:?}"),
    }
    match plan_action("not json", Err(json_error()), now) {
        ActionPlan::Report(o) => {
            assert!(!o.is_ok());
            match o {
                ExecutionOutcome::Unrecognized { raw, .. } => assert_eq!(raw, "not json"),
                other => panic!("expected unrecognized, got {other:?}"),
            }
        }
        other => panic!("expected a report, got {other:?}"),
    }
}

#[test]
fn collects_only_cron_actions_in_order() {
    let mk = |e: &str| CronAction {
        expression: e.to_string(),
        action: Box::new(Action::Webhook(webhook("http://127.0.0.1:1/unused"))),
    };
    let parsed = vec![
        Ok(Action::Cron(mk("*/5 * * * *"))),
        Ok(Action::Webhook(webhook("http://127.0.0.1:1/unused"))),
        Err(json_error()),
        Ok(Action::Cron(mk("0 12 * * *"))),
    ];
    let crons = cron_actions(&parsed);
    assert_eq!(crons.len(), 2);
    assert_eq!(crons[0].expression, "*/5 * * * *");
    assert_eq!(crons[1].expression, "0 12 * * *");
}

#[test]
fn cloning_keeps_nested_actions() {
    let inner = CronAction {
        expression: "* * * * *".to_string(),
        action: Box::new(Action::Webhook(webhook("http://a"))),
    };
    let outer = Action::Cron(CronAction { expression: "0 * * * *".to_string(), action: Box::new(Action::Cron(inner)) });
    match outer.clone() {
        Action::Cron(c) => {
            assert_eq!(c.expression, "0 * * * *");
            match *c.action {
                Action::Cron(i) => assert_eq!(i.expression, "* * * * *"),
                other => panic!("expected nested cron, got {other:?}"),
            }
        }
        other => panic!("expected cron, got {other:?}"),
    }
}

fn refused_connection() -> reqwest::Error {
    let runtime = tokio::runtime::Builder::new_current_thread()
        .enable_all()
        .build()
        .unwrap();
    runtime.block_on(async {
        reqwest::Client::new()
            .post("http://127.0.0.1:1/unused")
            .send()
            .await
            .unwrap_err()
    })
}

#[test]
fn transport_errors_are_reported() {
    let err = WebhookError::Transport(refused_connection());
    assert!(err.message().starts_with("webhook transport error: "));
    if let WebhookError::Transport(e) = &err {
        assert_eq!(err.message(), format!("webhook transport error: {e}"));
    }
    assert!(err.message().len() > "webhook transport error: ".len());
    let outcome = ExecutionOutcome::Webhook(Err(err));
    assert!(!outcome.is_ok());
    let ok = ExecutionOutcome::Webhook(response_outcome(200, b"{\"ok\":true}", false));
    assert!(ok.is_ok());
}

#[test]
fn header_name_rule() {
    let ok = |n: String| check_headers(&[(n, "v".to_string())]).is_ok();
    assert!(ok("x-Custom_Header.1!#$%&'*+-^`|~".to_string()));
    assert!(!ok("".to_string()));
    assert!(!ok("caf\u{e9}".to_string()));
    assert!(!ok("a:b".to_string()));
    assert!(ok("a".repeat(MAX_HEADER_NAME_LEN)));
    assert!(!ok("a".repeat(MAX_HEADER_NAME_LEN + 1)));
    assert!(ok("b".repeat(100)));
    assert!(!ok(format!("{}\"", "b".repeat(100))));
}

#[test]
fn timeouts_are_told_apart() {
    assert_eq!(WEBHOOK_TIMEOUT_SECS, 30);
    assert!(matches!(transport_error(transport_error_value(), true), WebhookError::Timeout));
    assert!(matches!(transport_error(transport_error_value(), false), WebhookError::Transport(_)));
    // A refused connection is a transport error, not a timeout.
    assert!(matches!(transport_failure(transport_error_value()), WebhookError::Transport(_)));
    assert_eq!(WebhookError::Timeout.message(), "webhook timed out");
}

fn transport_error_value() -> reqwest::Error {
    refused_connection()
}

#[test]
fn fire_target_picks_webhooks_only() {
    let w = CronAction {
        expression: "* * * * *".to_string(),
        action: Box::new(Action::Webhook(webhook("http://a/hook"))),
    };
    assert_eq!(fire_target(&w).unwrap().url, "http://a/hook");
    let nested = CronAction {
        expression: "* * * * *".to_string(),
        action: Box::new(Action::Cron(CronAction {
            expression: "0 * * * *".to_string(),
            action: Box::new(Action::Webhook(webhook("http://b/hook"))),
        })),
    };
    assert!(fire_target(&nested).is_none());
}
