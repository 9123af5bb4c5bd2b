//! The `Task` record and its constructor, which turns a textual deadline
//! into a timestamp and falls back to one day after creation when the
//! text is unusable or already past.

use std::io::Write;
use vstd::prelude::*;

use crate::date::{date_ok, date_timestamp, parse_date, DateFormatError};

verus! {

/// Seconds in one calendar day: the width of the fallback window.
pub const FALLBACK_WINDOW: i64 = 86400;

/// A unit of work with an identifier, a free-form description, a creation
/// timestamp, a deadline timestamp, and a completion flag.
pub struct Task {
    pub id: u64,
    pub description: String,
    pub created: i64,
    pub deadline: i64,
    pub completed: bool,
}

/// The deadline a task created at `created` gets from the text `s`: the
/// midnight timestamp of the day `s` denotes when `s` is a calendar date
/// strictly after `created`, and one day after `created` otherwise.
pub open spec fn deadline_for(s: Seq<char>, created: int) -> int {
    if date_ok(s) && date_timestamp(s) > created {
        date_timestamp(s)
    } else {
        created + FALLBACK_WINDOW
    }
}

/// Relies on chrono::Utc::now: the current moment, converted to seconds
/// since the Unix epoch. It panics when the system clock is before the
/// epoch; otherwise the timestamp is nonnegative, and it is far below
/// 2^47 because chrono carries no moment past the year 262143.
#[verifier::external_body]
fn current_timestamp() -> (r: i64)
    ensures
        0 <= r < 0x8000_0000_0000,
{
    chrono::Utc::now().timestamp()
}

/// Relies on std::io::stderr: writes the diagnostic line for an
/// unparseable deadline. Nothing is promised of it.
#[verifier::external_body]
fn warn_parse_failed(deadline_text: &str, detail: &str) {
    let _ = writeln!(
        std::io::stderr(),
        "Failed to parse deadline '{}'. Defaulting to the next day. Error: {}",
        deadline_text,
        detail,
    );
}

/// Relies on std::io::stderr: writes the diagnostic line for a deadline
/// that already passed. Nothing is promised of it.
#[verifier::external_body]
fn warn_deadline_passed(deadline_text: &str) {
    let _ = writeln!(
        std::io::stderr(),
        "Deadline '{}' has already passed. Defaulting to the next day.",
        deadline_text,
    );
}

impl Task {
    /// Parses `s` as a `YYYY-MM-DD` calendar date and returns the Unix
    /// timestamp of midnight UTC on that day; any other string fails.
    pub fn parse_date(s: &str) -> (r: Result<i64, DateFormatError>)
        ensures
            r is Ok <==> date_ok(s@),
            r is Ok ==> r->Ok_0 == date_timestamp(s@),
            r is Err ==> r->Err_0 == DateFormatError,
    {
        parse_date(s)
    }

    /// Builds a task created at the moment `created`: the deadline
    /// follows the fallback policy of [`deadline_for`], everything else
    /// is stored verbatim, and the task starts uncompleted. A warning
    /// line is written to the diagnostic stream whenever the fallback
    /// is taken.
    pub fn new_at(id: u64, description: &str, deadline: &str, created: i64) -> (t: Task)
        requires
            created + FALLBACK_WINDOW <= i64::MAX,
        ensures
            t.id == id,
            t.description@ == description@,
            t.created == created,
            t.deadline == deadline_for(deadline@, created as int),
            t.created < t.deadline,
            !t.completed,
    {
        let deadline_ts: i64 = match Task::parse_date(deadline) {
            Ok(d) => {
                if d <= created {
                    warn_deadline_passed(deadline);
                    created + FALLBACK_WINDOW
                } else {
                    d
                }
            },
            Err(e) => {
                let detail = e.message();
                warn_parse_failed(deadline, detail.as_str());
                created + FALLBACK_WINDOW
            },
        };
        Task {
            id,
            description: description.to_owned(),
            created,
            deadline: deadline_ts,
            completed: false,
        }
    }

    /// Builds a task created now: reads the clock once and applies the
    /// same policy as [`Task::new_at`]. Construction never fails; an
    /// unusable or already-past deadline text only costs a warning line.
    pub fn new(id: u64, description: &str, deadline: &str) -> (t: Task)
        ensures
            t.id == id,
            t.description@ == description@,
            0 <= t.created,
            t.deadline == deadline_for(deadline@, t.created as int),
            t.created < t.deadline,
            !t.completed,
    {
        let created = current_timestamp();
        Task::new_at(id, description, deadline, created)
    }
}

/// A calendar date whose midnight lies strictly after the creation time
/// becomes the deadline unchanged.
pub proof fn lemma_future_date_kept(s: Seq<char>, created: int)
    requires
        date_ok(s),
        date_timestamp(s) > created,
    ensures
        deadline_for(s, created) == date_timestamp(s),
{
}

/// A calendar date whose midnight is at or before the creation time
/// falls back to one day after creation.
pub proof fn lemma_past_date_falls_back(s: Seq<char>, created: int)
    requires
        date_ok(s),
        date_timestamp(s) <= created,
    ensures
        deadline_for(s, created) == created + FALLBACK_WINDOW,
{
}

/// An input that is not a `YYYY-MM-DD` calendar date falls back to one
/// day after creation.
pub proof fn lemma_unparseable_falls_back(s: Seq<char>, created: int)
    requires
        !date_ok(s),
    ensures
        deadline_for(s, created) == created + FALLBACK_WINDOW,
{
}

/// Whatever the input, the deadline lies strictly after the creation
/// time.
pub proof fn lemma_deadline_after_creation(s: Seq<char>, created: int)
    ensures
        deadline_for(s, created) > created,
{
}

} // verus!
