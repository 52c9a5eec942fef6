//! E-mail support: attachment MIME types and follow-up reminders for
//! completed engagements.

use crate::evidence::{extension_of, last_component};
use crate::text::{chars_of, decimal, decimal_string, eq_lit, lit, lowercase, to_lowercase, chars_eq, strings_view};
use vstd::prelude::*;

verus! {

/// A follow-up that is due.
pub struct FollowUpReminder {
    pub engagement_id: u32,
    pub engagement_name: String,
    pub client_name: String,
    pub reminder_type: String,
    pub due_date: String,
    pub days_overdue: i32,
}

// ───────────────────────── MIME types ─────────────────────────

/// The MIME type for a (lower-cased) extension.
pub open spec fn mime_for(ext: Seq<char>) -> Seq<char> {
    if ext == "pdf"@ {
        "application/pdf"@
    } else if ext == "png"@ {
        "image/png"@
    } else if ext == "jpg"@ || ext == "jpeg"@ {
        "image/jpeg"@
    } else if ext == "gif"@ {
        "image/gif"@
    } else if ext == "txt"@ {
        "text/plain"@
    } else if ext == "html"@ || ext == "htm"@ {
        "text/html"@
    } else if ext == "csv"@ {
        "text/csv"@
    } else if ext == "json"@ {
        "application/json"@
    } else if ext == "xml"@ {
        "application/xml"@
    } else if ext == "zip"@ {
        "application/zip"@
    } else {
        "application/octet-stream"@
    }
}

/// The MIME type of an attachment: from the lower-cased extension of the
/// final `/`-separated component of its name.
pub open spec fn mime_type_spec(filename: Seq<char>) -> Seq<char> {
    mime_for(lowercase(match extension_of(last_component(filename)) {
        Some(e) => e,
        None => Seq::empty(),
    }))
}

/// Infers the MIME type of an attachment from its file name.
pub fn infer_mime_type(filename: &str) -> (r: String)
    ensures
        r@ == mime_type_spec(filename@),
{
    let ext = crate::evidence::entry_extension(filename);
    let lower = to_lowercase(ext.as_str());
    let v = chars_of(lower.as_str());
    if eq_lit(&v, "pdf") {
        lit("application/pdf")
    } else if eq_lit(&v, "png") {
        lit("image/png")
    } else if eq_lit(&v, "jpg") || eq_lit(&v, "jpeg") {
        lit("image/jpeg")
    } else if eq_lit(&v, "gif") {
        lit("image/gif")
    } else if eq_lit(&v, "txt") {
        lit("text/plain")
    } else if eq_lit(&v, "html") || eq_lit(&v, "htm") {
        lit("text/html")
    } else if eq_lit(&v, "csv") {
        lit("text/csv")
    } else if eq_lit(&v, "json") {
        lit("application/json")
    } else if eq_lit(&v, "xml") {
        lit("application/xml")
    } else if eq_lit(&v, "zip") {
        lit("application/zip")
    } else {
        lit("application/octet-stream")
    }
}

// ───────────────────────── dates ─────────────────────────

/// What `NaiveDate::from_epoch_days(day)` gives, written as `YYYY-MM-DD`
/// by its `Display`; `None` outside chrono's date range.
pub uninterp spec fn epoch_date_text(day: i32) -> Option<Seq<char>>;

/// Calls `chrono::NaiveDate::from_epoch_days` and formats the date with
/// `to_string`; the result is named `epoch_date_text`.
#[verifier::external_body]
pub(crate) fn date_text(day: i32) -> (r: Option<String>)
    ensures
        match r {
            Some(s) => epoch_date_text(day) == Some(s@),
            None => epoch_date_text(day) is None,
        },
{
    chrono::NaiveDate::from_epoch_days(day).map(|d| d.to_string())
}

/// Calls `chrono::Local::now().date_naive().to_epoch_days()`: today's date
/// in the local time zone, as days since 1970-01-01. Nothing is stated of
/// the value.
#[verifier::external_body]
fn local_today() -> (r: i32) {
    chrono::Local::now().date_naive().to_epoch_days()
}

/// The day (since 1970-01-01, UTC) of a Unix timestamp.
pub open spec fn day_of_timestamp(ts: i64) -> int {
    ts as int / 86400
}

/// A day is representable when it fits an `i32` and chrono has a date for it.
pub open spec fn representable(day: int) -> bool {
    i32::MIN <= day <= i32::MAX && epoch_date_text(day as i32) is Some
}

fn floor_day(ts: i64) -> (r: i64)
    ensures
        r == day_of_timestamp(ts),
{
    if ts >= 0 {
        ts / 86400
    } else {
        let t = -(ts + 1);
        let q = t / 86400;
        assert(ts as int / 86400 == -(q as int) - 1) by (nonlinear_arith)
            requires
                t == -(ts + 1),
                q == t / 86400,
                ts < 0,
        ;
        -q - 1
    }
}

/// An engagement marked completed, with the time of its last update.
pub struct CompletedEngagement {
    pub id: u32,
    pub name: String,
    pub client_name: String,
    pub updated_at: i64,
}

/// The day an engagement was completed: the day of its last update when
/// chrono can represent it, else today.
pub open spec fn completed_day(updated_at: i64, today: i32) -> int {
    if representable(day_of_timestamp(updated_at)) {
        day_of_timestamp(updated_at)
    } else {
        today as int
    }
}

/// One reminder as (engagement ID, engagement name, client name, type, due
/// date, days overdue).
pub type ReminderView = (u32, Seq<char>, Seq<char>, Seq<char>, Seq<char>, i32);

/// The reminder of one kind for one engagement, if due and not dismissed:
/// due `days` after completion, once today has reached that date, unless
/// `<kind_key>:<id>` was dismissed. A due date chrono cannot represent
/// gives none.
pub open spec fn reminder_spec(
    e: CompletedEngagement,
    today: i32,
    days: i64,
    kind: Seq<char>,
    dismissed: Seq<Seq<char>>,
) -> Option<ReminderView> {
    let due = completed_day(e.updated_at, today) + days;
    let key = "followup_"@ + kind + ":"@ + decimal(e.id as nat);
    if representable(due) && today >= due && !dismissed.contains(key) {
        Some((e.id, e.name@, e.client_name@, kind, epoch_date_text(due as i32)->Some_0, (today - due) as i32))
    } else {
        None
    }
}

/// The reminders for the engagements, in order: for each, its feedback
/// reminder, then its retest reminder.
pub open spec fn reminders_spec(
    es: Seq<CompletedEngagement>,
    today: i32,
    feedback_days: i64,
    retest_days: i64,
    dismissed: Seq<Seq<char>>,
) -> Seq<ReminderView>
    decreases es.len(),
{
    if es.len() == 0 {
        Seq::empty()
    } else {
        let rest = reminders_spec(es.drop_last(), today, feedback_days, retest_days, dismissed);
        let e = es.last();
        let a = match reminder_spec(e, today, feedback_days, "feedback"@, dismissed) {
            Some(r) => seq![r],
            None => Seq::empty(),
        };
        let b = match reminder_spec(e, today, retest_days, "retest"@, dismissed) {
            Some(r) => seq![r],
            None => Seq::empty(),
        };
        rest + a + b
    }
}

pub open spec fn reminder_view(r: FollowUpReminder) -> ReminderView {
    (r.engagement_id, r.engagement_name@, r.client_name@, r.reminder_type@, r.due_date@, r.days_overdue)
}

fn is_dismissed(dismissed: &Vec<String>, key: &String) -> (r: bool)
    ensures
        r == dismissed@.map_values(|s: String| s@).contains(key@),
{
    let ghost dv = dismissed@.map_values(|s: String| s@);
    let kv = chars_of(key.as_str());
    let mut i: usize = 0;
    while i < dismissed.len()
        invariant
            i <= dismissed@.len(),
            dv == dismissed@.map_values(|s: String| s@),
            kv@ == key@,
            forall|j: int| 0 <= j < i ==> dv[j] != key@,
        decreases dismissed.len() - i,
    {
        let v = chars_of(dismissed[i].as_str());
        if chars_eq(&v, &kv) {
            assert(dv[i as int] == key@);
            return true;
        }
        i = i + 1;
    }
    false
}

fn completed_day_exec(updated_at: i64, today: i32) -> (r: i64)
    ensures
        r == completed_day(updated_at, today),
{
    let d = floor_day(updated_at);
    if d >= i32::MIN as i64 && d <= i32::MAX as i64 {
        match date_text(d as i32) {
            Some(_) => {
                return d;
            },
            None => {},
        }
    }
    today as i64
}

fn reminder_for(
    e: &CompletedEngagement,
    today: i32,
    days: i64,
    kind: &str,
    dismissed: &Vec<String>,
) -> (r: Option<FollowUpReminder>)
    ensures
        match r {
            Some(x) => reminder_spec(*e, today, days, kind@, dismissed@.map_values(|s: String| s@)) == Some(reminder_view(x)),
            None => reminder_spec(*e, today, days, kind@, dismissed@.map_values(|s: String| s@)) is None,
        },
{
    let c = completed_day_exec(e.updated_at, today) as i128;
    let due = c + days as i128;
    if due < i32::MIN as i128 || due > i32::MAX as i128 {
        return None;
    }
    let due32 = due as i32;
    let text = match date_text(due32) {
        Some(t) => t,
        None => {
            return None;
        },
    };
    if (today as i128) < due {
        return None;
    }
    let mut key = lit("followup_");
    key.append(kind);
    key.append(":");
    let n = decimal_string(e.id as u64);
    key.append(n.as_str());
    if is_dismissed(dismissed, &key) {
        return None;
    }
    let overdue = (today as i64 - due32 as i64) as i32;
    Some(FollowUpReminder {
        engagement_id: e.id,
        engagement_name: lit(e.name.as_str()),
        client_name: lit(e.client_name.as_str()),
        reminder_type: lit(kind),
        due_date: text,
        days_overdue: overdue,
    })
}

/// The follow-ups due today for completed engagements: feedback
/// `feedback_days` and a retest `retest_days` after completion, unless
/// dismissed (the dismissed keys are `followup_feedback:<id>` and
/// `followup_retest:<id>`).
pub fn follow_up_reminders(
    today: i32,
    feedback_days: i64,
    retest_days: i64,
    engagements: &Vec<CompletedEngagement>,
    dismissed: &Vec<String>,
) -> (r: Vec<FollowUpReminder>)
    ensures
        r@.map_values(|x: FollowUpReminder| reminder_view(x)) == reminders_spec(
            engagements@,
            today,
            feedback_days,
            retest_days,
            dismissed@.map_values(|s: String| s@),
        ),
{
    let ghost dv = dismissed@.map_values(|s: String| s@);
    let ghost f = |x: FollowUpReminder| reminder_view(x);
    let mut out: Vec<FollowUpReminder> = Vec::new();
    let mut i: usize = 0;
    assert(engagements@.take(0) =~= Seq::<CompletedEngagement>::empty());
    while i < engagements.len()
        invariant
            i <= engagements@.len(),
            dv == dismissed@.map_values(|s: String| s@),
            f == (|x: FollowUpReminder| reminder_view(x)),
            out@.map_values(f) == reminders_spec(engagements@.take(i as int), today, feedback_days, retest_days, dv),
        decreases engagements.len() - i,
    {
        let e = &engagements[i];
        let ghost before = out@.map_values(f);
        proof {
            assert(engagements@.take(i + 1).drop_last() =~= engagements@.take(i as int));
            assert(engagements@.take(i + 1).last() == *e);
        }
        let ghost mid_before = out@;
        match reminder_for(e, today, feedback_days, "feedback", dismissed) {
            Some(x) => {
                out.push(x);
                assert(out@.map_values(f) =~= mid_before.map_values(f).push(reminder_view(x)));
            },
            None => {},
        }
        let ghost mid = out@;
        match reminder_for(e, today, retest_days, "retest", dismissed) {
            Some(x) => {
                out.push(x);
                assert(out@.map_values(f) =~= mid.map_values(f).push(reminder_view(x)));
            },
            None => {},
        }
        proof {
            let a = match reminder_spec(*e, today, feedback_days, "feedback"@, dv) {
                Some(r) => seq![r],
                None => Seq::<ReminderView>::empty(),
            };
            let b = match reminder_spec(*e, today, retest_days, "retest"@, dv) {
                Some(r) => seq![r],
                None => Seq::<ReminderView>::empty(),
            };
            assert(out@.map_values(f) =~= before + a + b);
        }
        i = i + 1;
    }
    assert(engagements@.take(i as int) =~= engagements@);
    out
}

/// The follow-ups due on today's local date (read from the clock), as
/// `follow_up_reminders` gives them for that day.
pub fn follow_up_reminders_today(
    feedback_days: i64,
    retest_days: i64,
    engagements: &Vec<CompletedEngagement>,
    dismissed: &Vec<String>,
) -> (r: Vec<FollowUpReminder>)
    ensures
        exists|today: i32|
            r@.map_values(|x: FollowUpReminder| reminder_view(x)) == #[trigger] reminders_spec(
                engagements@,
                today,
                feedback_days,
                retest_days,
                strings_view(dismissed@),
            ),
{
    let today = local_today();
    let r = follow_up_reminders(today, feedback_days, retest_days, engagements, dismissed);
    assert(strings_view(dismissed@) == dismissed@.map_values(|s: String| s@));
    r
}

} // verus!
