//! Cron actions: expression parsing, next-fire computation and an in-process
//! scheduler driven by a caller-supplied clock.
use vstd::prelude::*;

use super::{Action, ActionView};
use crate::text::{
    count_words, decimal, decimal_string, is_white_space, lemma_trim_ends, lemma_word_count_join,
    leading_white_space, lemma_words_need_text, starts_word, trailing_white_space, trim, trimmed, word_count,
};
use crate::time::{lemma_instant_order, Timestamp};

verus! {

/// A cron action: fire `action` whenever `expression` matches.
#[derive(Debug)]
pub struct CronAction {
    pub expression: String,
    pub action: Box<Action>,
}

/// What a [`CronAction`] holds, as values.
pub struct CronActionView {
    pub expression: Seq<char>,
    pub action: Box<ActionView>,
}

impl View for CronAction {
    type V = CronActionView;

    open spec fn view(&self) -> CronActionView {
        CronActionView { expression: self.expression@, action: Box::new(self.action@) }
    }
}

/// The last whole second that chrono can represent (the end of year
/// 262142). A schedule search starts one second after the instant it is
/// given, which chrono cannot represent for an instant in this second.
pub const LAST_REPRESENTABLE_SECS: i64 = 8_210_266_876_799;

/// A schedule search can start after `t`: `t` is not in the last
/// representable second.
pub open spec fn searchable(t: Timestamp) -> bool {
    t.secs != LAST_REPRESENTABLE_SECS
}

/// Executable form of [`searchable`].
pub fn is_searchable(t: Timestamp) -> (b: bool)
    ensures
        b == searchable(t),
{
    t.secs != LAST_REPRESENTABLE_SECS
}

/// A cron schedule parsed from a 7-field expression, together with that
/// expression.
#[derive(Debug)]
pub struct CronSchedule {
    source: String,
    schedule: cron::Schedule,
}

impl View for CronSchedule {
    type V = Seq<char>;

    /// The 7-field expression the schedule was parsed from.
    closed spec fn view(&self) -> Seq<char> {
        self.source@
    }
}

/// What `<cron::Schedule as FromStr>::from_str` gives on `expression`: `None`
/// when it accepts the text, `Some(text)` with the display text of its error
/// when it rejects it.
pub uninterp spec fn cron_parse_rejection(expression: Seq<char>) -> Option<Seq<char>>;

/// The first instant, as `(seconds, nanoseconds)`, that the schedule parsed
/// from `expression` matches after the instant `(after_secs, after_nanos)` in
/// UTC, as `Schedule::after(..).next()` finds it; `None` when there is none or
/// the instant is outside chrono's range.
pub uninterp spec fn cron_next_fire(expression: Seq<char>, after_secs: i64, after_nanos: u32) -> Option<
    (i64, u32),
>;

/// Calls `<cron::Schedule as FromStr>::from_str`. Claims that acceptance and
/// the error's display text depend on the text alone, and that an accepted
/// schedule is kept with its text.
#[verifier::external_body]
fn schedule_from_str(expression: &str) -> (res: Result<CronSchedule, String>)
    ensures
        match res {
            Ok(s) => cron_parse_rejection(expression@) is None && s@ == expression@,
            Err(m) => cron_parse_rejection(expression@) == Some(m@),
        },
{
    match <cron::Schedule as std::str::FromStr>::from_str(expression) {
        Ok(schedule) => Ok(CronSchedule { source: expression.to_string(), schedule }),
        Err(e) => Err(e.to_string()),
    }
}

/// `text` starts with a seconds field that is exactly `0`: `"0 "` followed
/// by a character that is not white space and does not continue the field
/// (`,` for a list, `-` for a range, `/` for a step).
pub open spec fn seconds_field_is_zero(text: Seq<char>) -> bool {
    &&& text.len() >= 3
    &&& text[0] == '0'
    &&& text[1] == ' '
    &&& !is_white_space(text[2])
    &&& text[2] != ','
    &&& text[2] != '-'
    &&& text[2] != '/'
}

/// Calls `cron::Schedule::after(..).next()` on the UTC instant `after`,
/// converting the instant to chrono's `DateTime<Utc>` with
/// `DateTime::from_timestamp` (an instant chrono cannot represent gives
/// `None`) and the result back with `timestamp` and `timestamp_subsec_nanos`.
/// Claims that the result depends on the schedule's text and the instant
/// alone, and, as the crate's search starts at `after` plus one second and
/// yields whole seconds, that a result lies in a later second than `after`
/// and has no nanoseconds. When the seconds field is exactly `0` (the parser
/// reads `0` and the white space after it as a one-point field, and the
/// search only tries the field's seconds, each through
/// `Utc.with_ymd_and_hms`), the result is a whole minute. `requires` leaves out the last representable second, where that start
/// overflows and chrono panics.
#[verifier::external_body]
fn schedule_next_after(schedule: &CronSchedule, after: Timestamp) -> (res: Option<Timestamp>)
    requires
        searchable(after),
    ensures
        match res {
            Some(t) => cron_next_fire(schedule@, after.secs, after.nanos) == Some((t.secs, t.nanos))
                && after.secs < t.secs && t.nanos == 0 && (seconds_field_is_zero(schedule@) ==> t.secs
                % 60 == 0),
            None => cron_next_fire(schedule@, after.secs, after.nanos) is None,
        },
{
    let start = chrono::DateTime::from_timestamp(after.secs, after.nanos)?;
    let next = schedule.schedule.after(&start).next()?;
    Some(Timestamp { secs: next.timestamp(), nanos: next.timestamp_subsec_nanos() })
}

/// Why a cron expression could not be scheduled.
#[derive(Debug)]
pub enum CronError {
    InvalidExpression(String),
    NoUpcomingFire,
}

/// What a [`CronError`] holds, as values.
pub enum CronErrorView {
    InvalidExpression(Seq<char>),
    NoUpcomingFire,
}

impl View for CronError {
    type V = CronErrorView;

    open spec fn view(&self) -> CronErrorView {
        match self {
            CronError::InvalidExpression(m) => CronErrorView::InvalidExpression(m@),
            CronError::NoUpcomingFire => CronErrorView::NoUpcomingFire,
        }
    }
}

impl Clone for CronError {
    fn clone(&self) -> (r: Self)
        ensures
            r@ == self@,
    {
        match self {
            CronError::InvalidExpression(m) => CronError::InvalidExpression(m.clone()),
            CronError::NoUpcomingFire => CronError::NoUpcomingFire,
        }
    }
}

/// The message a [`CronError`] displays.
pub open spec fn cron_error_message(e: CronErrorView) -> Seq<char> {
    match e {
        CronErrorView::InvalidExpression(m) => "invalid cron expression: "@ + m,
        CronErrorView::NoUpcomingFire => "cron expression has no upcoming fire time"@,
    }
}

impl CronError {
    /// The text this error displays.
    pub fn message(&self) -> (s: String)
        ensures
            s@ == cron_error_message(self@),
    {
        match self {
            CronError::InvalidExpression(m) => {
                let mut s = String::from_str("invalid cron expression: ");
                s.append(m.as_str());
                s
            },
            CronError::NoUpcomingFire => String::from_str("cron expression has no upcoming fire time"),
        }
    }
}

/// The 7-field form of an expression with 5 fields (`min hour dom mon dow`,
/// seconds set to 0 and any year added), 6 fields (`sec min hour dom mon dow`,
/// any year added) or 7 fields (`sec min hour dom mon dow year`), after
/// trimming; `None` for any other number of fields.
pub open spec fn normalized_expression(expression: Seq<char>) -> Option<Seq<char>> {
    let t = trim(expression);
    let n: nat = word_count(t);
    if n == 5 {
        Some("0 "@ + t + " *"@)
    } else if n == 6 {
        Some(t + " *"@)
    } else if n == 7 {
        Some(t)
    } else {
        None
    }
}

/// The message for an expression with `n` fields, `n` not 5, 6 or 7.
pub open spec fn field_count_message(n: nat) -> Seq<char> {
    "expected 5, 6, or 7 fields, got "@ + decimal(n)
}

/// What parsing `expression` gives: the 7-field text that the schedule is
/// parsed from, or the message of the rejection.
pub open spec fn parse_outcome(expression: Seq<char>) -> Result<Seq<char>, Seq<char>> {
    match normalized_expression(expression) {
        None => Err(field_count_message(word_count(trim(expression)))),
        Some(norm) => match cron_parse_rejection(norm) {
            None => Ok(norm),
            Some(m) => Err(m),
        },
    }
}

/// What the cron crate makes of a 7-field text: the text itself when it
/// accepts it, else the message of its rejection.
pub open spec fn seven_field_outcome(text: Seq<char>) -> Result<Seq<char>, Seq<char>> {
    match cron_parse_rejection(text) {
        None => Ok(text),
        Some(m) => Err(m),
    }
}

/// The 7-field text that an expression is parsed as, by its number of fields
/// after trimming: 5 fields get a `0` seconds field in front and any year
/// behind; 6 fields, whose first is always the seconds, get any year behind;
/// 7 fields are taken as they stand; any other count is rejected with the
/// count in the message.
pub proof fn lemma_parse_by_field_count(expression: Seq<char>)
    ensures
        word_count(trim(expression)) == 5 ==> parse_outcome(expression) == seven_field_outcome(
            "0 "@ + trim(expression) + " *"@,
        ),
        word_count(trim(expression)) == 6 ==> parse_outcome(expression) == seven_field_outcome(
            trim(expression) + " *"@,
        ),
        word_count(trim(expression)) == 7 ==> parse_outcome(expression) == seven_field_outcome(
            trim(expression),
        ),
        !(5 <= word_count(trim(expression)) <= 7) ==> parse_outcome(expression) == Err::<
            Seq<char>,
            Seq<char>,
        >(field_count_message(word_count(trim(expression)))),
{
}

/// Parse a 5-, 6-, or 7-field cron expression.
///
/// 5-field input is standard cron (`min hour dom mon dow`); it is padded with
/// `sec=0` and `year=*`. 6-field input is `sec min hour dom mon dow` and is
/// padded with `year=*`. 7-field input is passed through.
pub fn parse(expression: &str) -> (res: Result<CronSchedule, CronError>)
    ensures
        match parse_outcome(expression@) {
            Ok(norm) => res matches Ok(s) && s@ == norm,
            Err(m) => res matches Err(CronError::InvalidExpression(x)) && x@ == m,
        },
{
    let t = trimmed(expression);
    let field_count: usize = count_words(t);
    let normalized: String;
    if field_count == 5 {
        let mut s = String::from_str("0 ");
        s.append(t);
        s.append(" *");
        normalized = s;
    } else if field_count == 6 {
        let mut s = String::from_str(t);
        s.append(" *");
        normalized = s;
    } else if field_count == 7 {
        normalized = String::from_str(t);
    } else {
        let mut m = String::from_str("expected 5, 6, or 7 fields, got ");
        m.append(decimal_string(field_count).as_str());
        return Err(CronError::InvalidExpression(m));
    }
    match schedule_from_str(normalized.as_str()) {
        Ok(schedule) => Ok(schedule),
        Err(m) => Err(CronError::InvalidExpression(m)),
    }
}

/// What [`next_fire_after`] gives for `expression` and `after`.
pub open spec fn next_fire_outcome(expression: Seq<char>, after: Timestamp) -> Result<
    Timestamp,
    CronErrorView,
> {
    match parse_outcome(expression) {
        Err(m) => Err(CronErrorView::InvalidExpression(m)),
        Ok(norm) => match cron_next_fire(norm, after.secs, after.nanos) {
            Some(t) => Ok(Timestamp { secs: t.0, nanos: t.1 }),
            None => Err(CronErrorView::NoUpcomingFire),
        },
    }
}

/// A next-fire result, as values.
pub open spec fn fire_result_view(r: Result<Timestamp, CronError>) -> Result<Timestamp, CronErrorView> {
    match r {
        Ok(t) => Ok(t),
        Err(e) => Err(e@),
    }
}

impl CronSchedule {
    /// The first instant after `after` that this schedule matches.
    pub fn next_after(&self, after: Timestamp) -> (res: Option<Timestamp>)
        requires
            searchable(after),
        ensures
            match res {
                Some(t) => cron_next_fire(self@, after.secs, after.nanos) == Some((t.secs, t.nanos)),
                None => cron_next_fire(self@, after.secs, after.nanos) is None,
            },
            res matches Some(t) ==> after.before(t) && t.nanos == 0,
            seconds_field_is_zero(self@) ==> (res matches Some(t) ==> t.secs % 60 == 0),
    {
        schedule_next_after(self, after)
    }
}

/// `expression` has 5 fields, so its seconds are padded with `0`, and its
/// first field does not begin with `,`, `-` or `/`, which would join that `0`
/// into a list, range or step.
pub open spec fn pads_seconds(expression: Seq<char>) -> bool {
    let t = trim(expression);
    &&& word_count(t) == 5
    &&& t[0] != ','
    &&& t[0] != '-'
    &&& t[0] != '/'
}

proof fn lemma_padded_seconds_field(expression: Seq<char>)
    ensures
        pads_seconds(expression) ==> (normalized_expression(expression) matches Some(n)
            && seconds_field_is_zero(n)),
{
    let t = trim(expression);
    if pads_seconds(expression) {
        lemma_words_need_text(t);
        lemma_trim_ends(expression);
        reveal_strlit("0 ");
        let n = "0 "@ + t + " *"@;
        assert(n[0] == '0' && n[1] == ' ' && n[2] == t[0]);
    }
}

/// A 5-field expression means the same as the 6-field expression with an
/// explicit `0` seconds field in front: both parse to the same 7-field text,
/// or fail with the same message.
pub proof fn lemma_five_fields_pad_seconds_with_zero(expression: Seq<char>)
    requires
        word_count(trim(expression)) == 5,
    ensures
        parse_outcome(expression) == parse_outcome("0 "@ + trim(expression)),
{
    let t = trim(expression);
    let p = "0 "@;
    reveal_strlit("0 ");
    lemma_words_need_text(t);
    lemma_trim_ends(expression);
    let padded = p + t;
    // The padded text is already trimmed.
    assert(padded[0] == '0');
    assert(leading_white_space(padded) == 0);
    assert(padded.last() == t.last());
    assert(trailing_white_space(padded) == 0);
    assert(padded.skip(0) =~= padded);
    assert(padded.take(padded.len() as int) =~= padded);
    assert(trim(padded) == padded);
    // It has six words.
    assert(word_count(p) == 1) by {
        let one = seq!['0'];
        assert(p =~= seq!['0', ' ']);
        assert(p.drop_last() =~= one);
        assert(one.drop_last() =~= Seq::<char>::empty());
        assert(word_count(Seq::<char>::empty()) == 0);
        assert(starts_word(one, 0));
        assert(word_count(one) == 1);
        assert(!starts_word(p, 1));
    }
    lemma_word_count_join(p, t);
    assert(normalized_expression(padded) == Some(p + t + " *"@));
}

/// Compute the next fire time strictly after `after`.
pub fn next_fire_after(expression: &str, after: Timestamp) -> (res: Result<Timestamp, CronError>)
    requires
        parse_outcome(expression@) is Ok ==> searchable(after),
    ensures
        fire_result_view(res) == next_fire_outcome(expression@, after),
        res matches Ok(t) ==> after.before(t) && t.nanos == 0,
        pads_seconds(expression@) ==> (res matches Ok(t) ==> t.secs % 60 == 0),
{
    proof {
        lemma_padded_seconds_field(expression@);
    }
    let schedule = parse(expression)?;
    match schedule.next_after(after) {
        Some(t) => Ok(t),
        None => Err(CronError::NoUpcomingFire),
    }
}

/// A cron action accepted for scheduling, with the instant it fires next.
#[derive(Debug)]
pub struct CronScheduled {
    pub expression: String,
    pub next_fire: Timestamp,
}

impl Clone for CronScheduled {
    fn clone(&self) -> (r: Self)
        ensures
            r.expression@ == self.expression@,
            r.next_fire == self.next_fire,
    {
        CronScheduled { expression: self.expression.clone(), next_fire: self.next_fire }
    }
}

/// Schedule `action`: its next fire instant after `now`.
pub fn schedule_action(action: &CronAction, now: Timestamp) -> (res: Result<CronScheduled, CronError>)
    requires
        parse_outcome(action.expression@) is Ok ==> searchable(now),
    ensures
        match res {
            Ok(s) => s.expression@ == action.expression@ && next_fire_outcome(action.expression@, now)
                == Ok::<Timestamp, CronErrorView>(s.next_fire),
            Err(e) => next_fire_outcome(action.expression@, now) == Err::<Timestamp, CronErrorView>(e@),
        },
{
    let next_fire = next_fire_after(action.expression.as_str(), now)?;
    Ok(CronScheduled { expression: action.expression.clone(), next_fire })
}

/// One scheduled cron action and the instant it fires next.
#[derive(Debug)]
pub struct Entry {
    pub action: CronAction,
    pub next_fire: Timestamp,
}

/// What an [`Entry`] holds, as values.
pub struct EntryView {
    pub action: CronActionView,
    pub next_fire: Timestamp,
}

impl View for Entry {
    type V = EntryView;

    open spec fn view(&self) -> EntryView {
        EntryView { action: self.action@, next_fire: self.next_fire }
    }
}

impl Clone for Entry {
    fn clone(&self) -> (r: Self)
        ensures
            r@ == self@,
    {
        Entry { action: self.action.clone(), next_fire: self.next_fire }
    }
}

/// In-process scheduler for cron actions: per-entry next-fire instants,
/// driven by whatever clock the caller reads.
#[derive(Debug)]
pub struct Scheduler {
    entries: Vec<Entry>,
}

impl View for Scheduler {
    type V = Seq<EntryView>;

    closed spec fn view(&self) -> Seq<EntryView> {
        self.entries@.map_values(|e: Entry| e@)
    }
}

/// Entry `i` of `entries` is due at `now`: it fires at or before `now`.
pub open spec fn is_due(entries: Seq<EntryView>, i: int, now: Timestamp) -> bool {
    entries[i].next_fire.at_or_before(now)
}

/// An entry is due exactly when the clock has reached its next fire, to the
/// nanosecond: its second has passed, or it is the current second and no more
/// of its nanoseconds than of `now`'s have gone by.
pub proof fn lemma_due_when_fire_reached(entries: Seq<EntryView>, i: int, now: Timestamp)
    requires
        0 <= i < entries.len(),
    ensures
        is_due(entries, i, now) <==> (entries[i].next_fire.secs < now.secs || (entries[i].next_fire.secs
            == now.secs && entries[i].next_fire.nanos <= now.nanos)),
{
    lemma_instant_order(entries[i].next_fire, now);
}

/// `due` lists, in increasing order and once each, exactly the indices of the
/// entries that are due at `now`.
pub open spec fn lists_due(entries: Seq<EntryView>, now: Timestamp, due: Seq<usize>) -> bool {
    &&& forall|k: int| 0 <= k < due.len() ==> due[k] < entries.len() && is_due(entries, due[k] as int, now)
    &&& forall|k: int, l: int| 0 <= k < l < due.len() ==> due[k] < due[l]
    &&& forall|i: int| 0 <= i < entries.len() && is_due(entries, i, now) ==> due.contains(i as usize)
}

/// `t` is the earliest next-fire instant among `entries`.
pub open spec fn is_earliest(entries: Seq<EntryView>, t: Timestamp) -> bool {
    &&& exists|i: int| 0 <= i < entries.len() && entries[i].next_fire == t
    &&& forall|i: int| 0 <= i < entries.len() ==> t.at_or_before(entries[i].next_fire)
}

/// What polling a scheduler gives.
#[derive(Debug)]
pub enum NextDue {
    /// These entries are due now.
    Due(Vec<usize>),
    /// Nothing is due; the earliest entry fires at this later instant.
    WaitUntil(Timestamp),
    /// The scheduler has no entries.
    Idle,
}

impl Clone for Scheduler {
    fn clone(&self) -> (r: Self)
        ensures
            r@ == self@,
    {
        let r = Scheduler { entries: self.entries.clone() };
        assert(r@ =~= self@) by {
            assert forall|i: int| 0 <= i < self.entries@.len() implies r.entries@[i]@ == self.entries@[i]@ by {
                assert(cloned::<Entry>(self.entries@[i], r.entries@[i]));
            }
        }
        r
    }
}

impl Scheduler {
    /// Build a scheduler whose entries fire at the first instant after `now`
    /// that their expressions match.
    pub fn from_actions(actions: &[CronAction], now: Timestamp) -> (res: Result<Scheduler, CronError>)
        requires
            actions@.len() > 0 && parse_outcome(actions@[0].expression@) is Ok ==> searchable(now),
        ensures
            res is Ok <==> forall|i: int|
                0 <= i < actions@.len() ==> next_fire_outcome(#[trigger] actions@[i].expression@, now) is Ok,
            res matches Ok(s) ==> {
                &&& s@.len() == actions@.len()
                &&& forall|i: int| 0 <= i < s@.len() ==> !is_due(s@, i, now)
                &&& forall|i: int| #![trigger s@[i]] 0 <= i < actions@.len() ==> {
                    &&& s@[i].action == actions@[i]@
                    &&& next_fire_outcome(actions@[i].expression@, now) == Ok::<Timestamp, CronErrorView>(s@[i].next_fire)
                    &&& now.before(s@[i].next_fire)
                }
            },
            res matches Err(e) ==> exists|i: int|
                0 <= i < actions@.len() && next_fire_outcome(#[trigger] actions@[i].expression@, now) == Err::<Timestamp, CronErrorView>(e@)
                && forall|j: int| 0 <= j < i ==> next_fire_outcome(#[trigger] actions@[j].expression@, now) is Ok,
    {
        let mut entries: Vec<Entry> = Vec::with_capacity(actions.len());
        let mut i: usize = 0;
        while i < actions.len()
            invariant
                actions@.len() > 0 && parse_outcome(actions@[0].expression@) is Ok ==> searchable(now),
                i > 0 ==> searchable(now),
                i <= actions@.len(),
                entries@.len() == i,
                forall|j: int| #![trigger entries@[j]] 0 <= j < i ==> {
                    &&& entries@[j]@.action == actions@[j]@
                    &&& next_fire_outcome(actions@[j].expression@, now) == Ok::<Timestamp, CronErrorView>(entries@[j].next_fire)
                    &&& now.before(entries@[j].next_fire)
                },
            decreases actions@.len() - i,
        {
            let action = &actions[i];
            let next_fire = match next_fire_after(action.expression.as_str(), now) {
                Ok(t) => t,
                Err(e) => {
                    assert(next_fire_outcome(actions@[i as int].expression@, now) == Err::<Timestamp, CronErrorView>(e@));
                    assert forall|j: int| 0 <= j < i implies next_fire_outcome(#[trigger] actions@[j].expression@, now) is Ok by {
                        assert(entries@[j]@.action == actions@[j]@);
                    }
                    return Err(e);
                },
            };
            entries.push(Entry { action: action.clone(), next_fire });
            i = i + 1;
        }
        let s = Scheduler { entries };
        assert forall|j: int| 0 <= j < actions@.len() implies next_fire_outcome(#[trigger] actions@[j].expression@, now) is Ok by {
            assert(s.entries@[j]@.action == actions@[j]@);
        }
        Ok(s)
    }

    /// The scheduled entries, in the order of the actions they were built from.
    pub fn entries(&self) -> (r: &[Entry])
        ensures
            r@.map_values(|e: Entry| e@) == self@,
    {
        self.entries.as_slice()
    }

    /// Indices of entries due to fire at or before `now`.
    pub fn due_at(&self, now: Timestamp) -> (due: Vec<usize>)
        ensures
            lists_due(self@, now, due@),
    {
        let mut due: Vec<usize> = Vec::new();
        let mut i: usize = 0;
        while i < self.entries.len()
            invariant
                i <= self.entries@.len(),
                forall|k: int| 0 <= k < due@.len() ==> due@[k] < i && is_due(self@, due@[k] as int, now),
                forall|k: int, l: int| 0 <= k < l < due@.len() ==> due@[k] < due@[l],
                forall|j: int| 0 <= j < i && is_due(self@, j, now) ==> due@.contains(j as usize),
            decreases self.entries@.len() - i,
        {
            let ghost before = due@;
            assert(self@[i as int] == self.entries@[i as int]@);
            if self.entries[i].next_fire.is_at_or_before(&now) {
                due.push(i);
                assert(due@[due@.len() - 1] == i);
            }
            assert forall|j: int| 0 <= j <= i && is_due(self@, j, now) implies due@.contains(j as usize) by {
                if j < i {
                    let k = choose|k: int| 0 <= k < before.len() && before[k] == j as usize;
                    assert(due@[k] == j as usize);
                } else {
                    assert(due@[due@.len() - 1] == i);
                }
            }
            i = i + 1;
        }
        due
    }

    /// Recompute the next fire time for `idx` strictly after `now`. On an
    /// error the scheduler is left as it was.
    pub fn advance(&mut self, idx: usize, now: Timestamp) -> (res: Result<Timestamp, CronError>)
        requires
            idx < old(self)@.len(),
            parse_outcome(old(self)@[idx as int].action.expression) is Ok ==> searchable(now),
        ensures
            fire_result_view(res) == next_fire_outcome(old(self)@[idx as int].action.expression, now),
            res matches Ok(t) ==> final(self)@ == old(self)@.update(
                idx as int,
                EntryView { action: old(self)@[idx as int].action, next_fire: t },
            ),
            res is Err ==> final(self)@ == old(self)@,
            res matches Ok(t) ==> now.before(t) && !is_due(final(self)@, idx as int, now),
    {
        let next = next_fire_after(self.entries[idx].action.expression.as_str(), now)?;
        self.entries[idx].next_fire = next;
        assert(self@ =~= old(self)@.update(
            idx as int,
            EntryView { action: old(self)@[idx as int].action, next_fire: next },
        ));
        Ok(next)
    }

    /// Earliest upcoming fire time across all entries.
    pub fn earliest_next(&self) -> (res: Option<Timestamp>)
        ensures
            res is None <==> self@.len() == 0,
            res matches Some(t) ==> is_earliest(self@, t),
    {
        if self.entries.len() == 0 {
            return None;
        }
        let mut best = self.entries[0].next_fire;
        assert(self@[0].next_fire == best);
        let mut i: usize = 1;
        while i < self.entries.len()
            invariant
                1 <= i <= self.entries@.len(),
                exists|j: int| 0 <= j < i && self@[j].next_fire == best,
                forall|j: int| 0 <= j < i ==> best.at_or_before(#[trigger] self@[j].next_fire),
            decreases self.entries@.len() - i,
        {
            let t = self.entries[i].next_fire;
            if !best.is_at_or_before(&t) {
                best = t;
                assert(self@[i as int].next_fire == best);
            }
            i = i + 1;
        }
        Some(best)
    }

    /// What a caller waiting for the next fire should do at `now`: fire the
    /// entries due now, sleep until the earliest fire, or wait for new
    /// entries when there are none.
    pub fn poll(&self, now: Timestamp) -> (res: NextDue)
        ensures
            res is Idle <==> self@.len() == 0,
            res matches NextDue::Due(v) ==> v@.len() > 0 && lists_due(self@, now, v@),
            res matches NextDue::WaitUntil(t) ==> is_earliest(self@, t) && now.before(t)
                && (forall|i: int| 0 <= i < self@.len() ==> !is_due(self@, i, now))
                && exists|i: int| 0 <= i < self@.len() && is_due(self@, i, t),
    {
        let due = self.due_at(now);
        if due.len() > 0 {
            assert(due@[0] < self@.len());
            return NextDue::Due(due);
        }
        match self.earliest_next() {
            None => NextDue::Idle,
            Some(t) => {
                proof {
                    let i = choose|i: int| 0 <= i < self@.len() && self@[i].next_fire == t;
                    if t.at_or_before(now) {
                        assert(is_due(self@, i, now));
                        assert(due@.contains(i as usize));
                        assert(false);
                    }
                }
                assert forall|i: int| 0 <= i < self@.len() implies !is_due(self@, i, now) by {
                    if is_due(self@, i, now) {
                        assert(due@.contains(i as usize));
                    }
                }
                proof {
                    let i = choose|i: int| 0 <= i < self@.len() && self@[i].next_fire == t;
                    assert(is_due(self@, i, t));
                }
                NextDue::WaitUntil(t)
            },
        }
    }
}

/// Some entry is due at `now` exactly when the earliest next-fire instant is
/// at or before `now`: waiting until the earliest instant is waiting until
/// something is due.
pub proof fn lemma_due_exactly_when_earliest_reached(
    entries: Seq<EntryView>,
    earliest: Timestamp,
    now: Timestamp,
)
    requires
        is_earliest(entries, earliest),
    ensures
        (exists|i: int| 0 <= i < entries.len() && is_due(entries, i, now)) <==> earliest.at_or_before(now),
{
    if earliest.at_or_before(now) {
        let i = choose|i: int| 0 <= i < entries.len() && entries[i].next_fire == earliest;
        assert(is_due(entries, i, now));
    }
}

/// A fire followed by a successful advance consumes the instant that made
/// the entry due. If entry `idx` was due when it fired at `fired_at`, and was
/// then advanced at `now` (no earlier) to `next` (later than `now`, as
/// [`Scheduler::advance`] gives), then it fired no earlier than its scheduled
/// instant, its new fire instant lies after the firing, it is not due again at
/// any instant before that, and every other entry is as it was. So each
/// scheduled instant of an entry gives at most one fire. (When `advance`
/// fails the entry is left due and fires again.)
pub proof fn lemma_advance_consumes_fire(
    before: Seq<EntryView>,
    after: Seq<EntryView>,
    idx: int,
    fired_at: Timestamp,
    now: Timestamp,
    next: Timestamp,
)
    requires
        0 <= idx < before.len(),
        is_due(before, idx, fired_at),
        fired_at.at_or_before(now),
        now.before(next),
        after == before.update(idx, EntryView { action: before[idx].action, next_fire: next }),
    ensures
        before[idx].next_fire.at_or_before(fired_at),
        fired_at.before(after[idx].next_fire),
        after[idx].next_fire != before[idx].next_fire,
        forall|x: Timestamp| x.before(after[idx].next_fire) ==> !is_due(after, idx, x),
        forall|j: int| 0 <= j < before.len() && j != idx ==> after[j] == before[j],
{
}

} // verus!
