//! Typed actions stored on agents, and what dispatching one of them gives.
use vstd::prelude::*;

pub mod cron;
pub mod webhook;

use self::cron::{
    next_fire_outcome, parse_outcome, schedule_action, searchable, CronAction, CronActionView,
    CronError, CronErrorView, CronScheduled,
};
use self::webhook::{WebhookAction, WebhookActionView, WebhookError, WebhookResult};
use crate::time::Timestamp;

verus! {

/// A typed action spec, stored as JSON on an agent.
#[derive(Debug)]
pub enum Action {
    Webhook(WebhookAction),
    Cron(CronAction),
}

/// What an [`Action`] holds, as values.
pub enum ActionView {
    Webhook(WebhookActionView),
    Cron(CronActionView),
}

/// The view of an action, given by its structure.
pub open spec fn action_view(a: Action) -> ActionView
    decreases a,
{
    match a {
        Action::Webhook(w) => ActionView::Webhook(w@),
        Action::Cron(c) => ActionView::Cron(
            CronActionView { expression: c.expression@, action: Box::new(action_view(*c.action)) },
        ),
    }
}

impl View for Action {
    type V = ActionView;

    open spec fn view(&self) -> ActionView {
        action_view(*self)
    }
}

fn clone_action(a: &Action) -> (r: Action)
    ensures
        r@ == a@,
    decreases a,
{
    match a {
        Action::Webhook(w) => Action::Webhook(w.clone()),
        Action::Cron(c) => {
            let inner = clone_action(&c.action);
            Action::Cron(CronAction { expression: c.expression.clone(), action: Box::new(inner) })
        },
    }
}

impl Clone for Action {
    fn clone(&self) -> (r: Self)
        ensures
            r@ == self@,
    {
        clone_action(self)
    }
}

impl Clone for CronAction {
    fn clone(&self) -> (r: Self)
        ensures
            r@ == self@,
    {
        let inner = clone_action(&self.action);
        CronAction { expression: self.expression.clone(), action: Box::new(inner) }
    }
}

/// Result of dispatching one action.
#[derive(Debug)]
pub enum ExecutionOutcome {
    Webhook(Result<WebhookResult, WebhookError>),
    /// Cron actions don't fire inline — they are handed to the
    /// [`cron::Scheduler`]; the outcome reports the next computed fire time.
    Cron(Result<CronScheduled, CronError>),
    /// The stored string did not parse as a known action spec.
    Unrecognized { raw: String, error: serde_json::Error },
}

impl ExecutionOutcome {
    /// The dispatch succeeded.
    pub fn is_ok(&self) -> (b: bool)
        ensures
            b == match self {
                ExecutionOutcome::Webhook(r) => r is Ok,
                ExecutionOutcome::Cron(r) => r is Ok,
                ExecutionOutcome::Unrecognized { .. } => false,
            },
    {
        match self {
            ExecutionOutcome::Webhook(r) => r.is_ok(),
            ExecutionOutcome::Cron(r) => r.is_ok(),
            ExecutionOutcome::Unrecognized { .. } => false,
        }
    }
}

/// The webhook that firing a cron action posts: its wrapped action when that
/// is a webhook; `None` when it wraps another cron action, which is not fired.
pub fn fire_target(action: &CronAction) -> (res: Option<&WebhookAction>)
    ensures
        match *action.action {
            Action::Webhook(w) => res == Some(&w),
            Action::Cron(_) => res is None,
        },
{
    match &*action.action {
        Action::Webhook(w) => Some(w),
        Action::Cron(_) => None,
    }
}

/// What to do with one stored action string once it has been decoded.
#[derive(Debug)]
pub enum ActionPlan {
    /// POST this webhook now; its outcome is the action's outcome.
    FireWebhook(WebhookAction),
    /// The action's outcome is already known.
    Report(ExecutionOutcome),
}

/// Decide what running the stored action `raw`, decoded as `parsed`, at
/// `now` comes to: a webhook is fired, a cron action reports its next fire
/// instant without firing, and an undecodable string is reported as
/// unrecognized, without halting the run.
pub fn plan_action(raw: &str, parsed: Result<Action, serde_json::Error>, now: Timestamp) -> (res: ActionPlan)
    requires
        parsed matches Ok(Action::Cron(c)) ==> (parse_outcome(c.expression@) is Ok ==> searchable(now)),
    ensures
        match parsed {
            Ok(Action::Webhook(w)) => res == ActionPlan::FireWebhook(w),
            Ok(Action::Cron(c)) => match res {
                ActionPlan::Report(ExecutionOutcome::Cron(Ok(s))) => s.expression@ == c.expression@
                    && next_fire_outcome(c.expression@, now) == Ok::<Timestamp, CronErrorView>(s.next_fire),
                ActionPlan::Report(ExecutionOutcome::Cron(Err(e))) => next_fire_outcome(c.expression@, now)
                    == Err::<Timestamp, CronErrorView>(e@),
                _ => false,
            },
            Err(e) => res matches ActionPlan::Report(ExecutionOutcome::Unrecognized { raw: r, error: x })
                && r@ == raw@ && x == e,
        },
{
    match parsed {
        Ok(Action::Webhook(w)) => ActionPlan::FireWebhook(w),
        Ok(Action::Cron(c)) => ActionPlan::Report(ExecutionOutcome::Cron(schedule_action(&c, now))),
        Err(error) => ActionPlan::Report(ExecutionOutcome::Unrecognized { raw: raw.to_owned(), error }),
    }
}

/// The cron actions among decoded action strings, in order.
pub open spec fn cron_views(parsed: Seq<Result<Action, serde_json::Error>>) -> Seq<CronActionView>
    decreases parsed.len(),
{
    if parsed.len() == 0 {
        Seq::empty()
    } else {
        let rest = cron_views(parsed.drop_last());
        match parsed.last() {
            Ok(Action::Cron(c)) => rest.push(c@),
            _ => rest,
        }
    }
}

/// The decoded action string is a cron action.
pub open spec fn is_cron_entry(r: Result<Action, serde_json::Error>) -> bool {
    r matches Ok(Action::Cron(_))
}

/// The cron action that a decoded action string holds, as values.
pub open spec fn cron_entry_view(r: Result<Action, serde_json::Error>) -> CronActionView
    recommends
        is_cron_entry(r),
{
    match r {
        Ok(Action::Cron(c)) => c@,
        _ => arbitrary(),
    }
}

/// Collecting cron actions keeps every decoded string that is a cron action,
/// once and in its place, and nothing else: the collected list is the input
/// filtered to its cron actions.
pub proof fn lemma_cron_views_keep_every_cron_action(parsed: Seq<Result<Action, serde_json::Error>>)
    ensures
        cron_views(parsed) == parsed.filter(|r: Result<Action, serde_json::Error>| is_cron_entry(r)).map_values(
            |r: Result<Action, serde_json::Error>| cron_entry_view(r),
        ),
    decreases parsed.len(),
{
    reveal(Seq::filter);
    if parsed.len() > 0 {
        lemma_cron_views_keep_every_cron_action(parsed.drop_last());
        let kept = parsed.drop_last().filter(|r: Result<Action, serde_json::Error>| is_cron_entry(r));
        if is_cron_entry(parsed.last()) {
            assert(kept.push(parsed.last()).map_values(|r: Result<Action, serde_json::Error>| cron_entry_view(r))
                =~= kept.map_values(|r: Result<Action, serde_json::Error>| cron_entry_view(r)).push(
                cron_entry_view(parsed.last()),
            ));
        }
    }
}

/// Keep the cron actions among decoded action strings, in order; webhook
/// actions and strings that did not decode are skipped.
pub fn cron_actions(parsed: &[Result<Action, serde_json::Error>]) -> (res: Vec<CronAction>)
    ensures
        res@.map_values(|c: CronAction| c@) == cron_views(parsed@),
        res@.map_values(|c: CronAction| c@) == parsed@.filter(
            |r: Result<Action, serde_json::Error>| is_cron_entry(r),
        ).map_values(|r: Result<Action, serde_json::Error>| cron_entry_view(r)),
        res@.len() == parsed@.filter(|r: Result<Action, serde_json::Error>| is_cron_entry(r)).len(),
{
    let mut res: Vec<CronAction> = Vec::new();
    let mut i: usize = 0;
    while i < parsed.len()
        invariant
            i <= parsed@.len(),
            res@.map_values(|c: CronAction| c@) == cron_views(parsed@.take(i as int)),
        decreases parsed@.len() - i,
    {
        assert(parsed@.take(i + 1).drop_last() =~= parsed@.take(i as int));
        if let Ok(Action::Cron(c)) = &parsed[i] {
            res.push(c.clone());
        }
        i = i + 1;
        assert(res@.map_values(|c: CronAction| c@) =~= cron_views(parsed@.take(i as int)));
    }
    assert(parsed@.take(parsed@.len() as int) =~= parsed@);
    proof {
        lemma_cron_views_keep_every_cron_action(parsed@);
    }
    res
}

} // verus!
