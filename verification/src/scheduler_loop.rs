//! Decisions of the background loop that fires stored cron actions.
use vstd::prelude::*;

use crate::executors::cron::{
    next_fire_outcome, parse_outcome, searchable, CronAction, CronError, CronErrorView, Scheduler,
};
use crate::time::Timestamp;

verus! {

/// The scheduler the loop runs from: one built from `actions` at `now`, or,
/// when one of them cannot be scheduled, an empty one together with the error
/// of the first action that failed.
pub fn build_scheduler(actions: &[CronAction], now: Timestamp) -> (res: (Scheduler, Option<CronError>))
    requires
        actions@.len() > 0 && parse_outcome(actions@[0].expression@) is Ok ==> searchable(now),
    ensures
        res.1 is None <==> forall|i: int|
            0 <= i < actions@.len() ==> next_fire_outcome(#[trigger] actions@[i].expression@, now) is Ok,
        res.1 is None ==> {
            &&& res.0@.len() == actions@.len()
            &&& forall|i: int| #![trigger res.0@[i]] 0 <= i < actions@.len() ==> {
                &&& res.0@[i].action == actions@[i]@
                &&& next_fire_outcome(actions@[i].expression@, now) == Ok::<Timestamp, CronErrorView>(res.0@[i].next_fire)
            }
        },
        res.1 matches Some(e) ==> res.0@.len() == 0 && exists|i: int|
            0 <= i < actions@.len() && next_fire_outcome(#[trigger] actions@[i].expression@, now) == Err::<Timestamp, CronErrorView>(e@)
            && forall|j: int| 0 <= j < i ==> next_fire_outcome(#[trigger] actions@[j].expression@, now) is Ok,
{
    match Scheduler::from_actions(actions, now) {
        Ok(s) => (s, None),
        Err(e) => (empty_scheduler(now), Some(e)),
    }
}

/// A scheduler with no entries.
pub fn empty_scheduler(now: Timestamp) -> (s: Scheduler)
    ensures
        s@.len() == 0,
{
    let none: Vec<CronAction> = Vec::new();
    match Scheduler::from_actions(none.as_slice(), now) {
        Ok(s) => s,
        Err(_) => vstd::pervasive::unreached(),
    }
}

} // verus!
