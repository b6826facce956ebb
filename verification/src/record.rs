//! The issue record: the durable trace of one support thread, and the
//! field-level transitions of its lifecycle.
//!
//! Every transition is idempotent: re-applying one whose effect is already
//! in place leaves the record unchanged. `original_poster`,
//! `first_responder`, `github_link` and `resolved_by` are set at most once
//! and never overwritten; `severity` and the lock status are the mutable
//! exceptions.

use vstd::prelude::*;

verus! {

/// Severity a record carries until staff set one.
pub const DEFAULT_SEVERITY: i16 = 5;

/// Seconds per day, for bucketing creation times into days.
pub const SECONDS_PER_DAY: i64 = 86400;

/// One tracked support thread.
pub struct IssueRecord {
    pub thread_id: u64,
    pub thread_link: String,
    pub creation_time: i64,
    pub original_poster: Option<String>,
    pub initial_message: Option<String>,
    pub first_responder: Option<String>,
    pub first_response_time: Option<i64>,
    pub categories: Vec<String>,
    pub severity: i16,
    pub locked: bool,
    pub lock_reason: String,
    pub github_link: Option<String>,
    pub resolved_by: Option<String>,
    pub resolved_at: Option<i64>,
    pub message_count: Option<i64>,
    pub participant_count: Option<i64>,
}

/// Mathematical model of an `IssueRecord`.
pub struct RecordView {
    pub thread_id: u64,
    pub thread_link: Seq<char>,
    pub creation_time: i64,
    pub original_poster: Option<Seq<char>>,
    pub initial_message: Option<Seq<char>>,
    pub first_responder: Option<Seq<char>>,
    pub first_response_time: Option<i64>,
    pub categories: Seq<Seq<char>>,
    pub severity: i16,
    pub locked: bool,
    pub lock_reason: Seq<char>,
    pub github_link: Option<Seq<char>>,
    pub resolved_by: Option<Seq<char>>,
    pub resolved_at: Option<i64>,
    pub message_count: Option<i64>,
    pub participant_count: Option<i64>,
}

/// The model of an optional string.
pub open spec fn opt_view(o: Option<String>) -> Option<Seq<char>> {
    match o {
        Option::Some(s) => Option::Some(s@),
        Option::None => Option::None,
    }
}

/// The model of a list of strings.
pub open spec fn strings_view(s: Seq<String>) -> Seq<Seq<char>> {
    s.map_values(|x: String| x@)
}

impl View for IssueRecord {
    type V = RecordView;

    open spec fn view(&self) -> RecordView {
        RecordView {
            thread_id: self.thread_id,
            thread_link: self.thread_link@,
            creation_time: self.creation_time,
            original_poster: opt_view(self.original_poster),
            initial_message: opt_view(self.initial_message),
            first_responder: opt_view(self.first_responder),
            first_response_time: self.first_response_time,
            categories: strings_view(self.categories@),
            severity: self.severity,
            locked: self.locked,
            lock_reason: self.lock_reason@,
            github_link: opt_view(self.github_link),
            resolved_by: opt_view(self.resolved_by),
            resolved_at: self.resolved_at,
            message_count: self.message_count,
            participant_count: self.participant_count,
        }
    }
}

/// Lock reason stamped by an elevation.
pub open spec fn elevated_lock_reason() -> Seq<char> {
    "Thread was elevated to GitHub issue"@
}

/// Lock reason stamped by a resolution.
pub open spec fn resolved_lock_reason() -> Seq<char> {
    "Thread was resolved"@
}

/// A record as inserted on the thread-creation event: poster, responder,
/// elevation and resolution all unset, default severity, unlocked.
pub open spec fn fresh_record(
    thread_id: u64,
    thread_link: Seq<char>,
    categories: Seq<Seq<char>>,
    now: i64,
) -> RecordView {
    RecordView {
        thread_id,
        thread_link,
        creation_time: now,
        original_poster: Option::None,
        initial_message: Option::None,
        first_responder: Option::None,
        first_response_time: Option::None,
        categories,
        severity: DEFAULT_SEVERITY,
        locked: false,
        lock_reason: Seq::empty(),
        github_link: Option::None,
        resolved_by: Option::None,
        resolved_at: Option::None,
        message_count: Option::None,
        participant_count: Option::None,
    }
}

impl RecordView {
    /// Internal consistency of a record: responder and response time are
    /// set together; a resolved record is locked and carries its
    /// resolution time; timestamps are non-negative.
    pub open spec fn wf(self) -> bool {
        &&& self.first_responder is Some <==> self.first_response_time is Some
        &&& self.resolved_by is Some ==> self.locked
        &&& self.resolved_by is Some ==> self.resolved_at is Some
        &&& self.creation_time >= 0
        &&& (self.first_response_time matches Some(t) ==> t >= 0)
        &&& (self.resolved_at matches Some(t) ==> t >= 0)
    }

    /// Record the thread-opening message; a no-op once the original poster
    /// is known.
    pub open spec fn with_initial_message(self, author: Seq<char>, content: Seq<char>) -> RecordView {
        if self.original_poster is Some {
            self
        } else {
            RecordView {
                original_poster: Option::Some(author),
                initial_message: Option::Some(content),
                ..self
            }
        }
    }

    /// Record the first responder; a no-op once one is recorded.
    pub open spec fn with_first_response(self, responder: Seq<char>, now: i64) -> RecordView {
        if self.first_responder is Some {
            self
        } else {
            RecordView {
                first_responder: Option::Some(responder),
                first_response_time: Option::Some(now),
                ..self
            }
        }
    }

    /// Link the thread to an external issue and lock it; a no-op once a
    /// link is set.
    pub open spec fn with_elevation(self, github_link: Seq<char>) -> RecordView {
        if self.github_link is Some {
            self
        } else {
            RecordView {
                github_link: Option::Some(github_link),
                locked: true,
                lock_reason: elevated_lock_reason(),
                ..self
            }
        }
    }

    /// Set the lock status and its reason; locking stamps the resolution
    /// time. Unlocking a resolved record is refused (a no-op), so that a
    /// resolved record stays locked.
    pub open spec fn with_locked_status(self, locked: bool, reason: Seq<char>, now: i64) -> RecordView {
        if !locked && self.resolved_by is Some {
            self
        } else {
            RecordView {
                locked,
                lock_reason: reason,
                resolved_at: if locked {
                    Option::Some(now)
                } else {
                    self.resolved_at
                },
                ..self
            }
        }
    }

    /// Resolve the thread: stamp the resolver, the snapshot counters and
    /// the resolution time, and lock it; a no-op once resolved.
    pub open spec fn with_resolution(
        self,
        resolved_by: Seq<char>,
        message_count: i64,
        participant_count: i64,
        now: i64,
    ) -> RecordView {
        if self.resolved_by is Some {
            self
        } else {
            RecordView {
                resolved_by: Option::Some(resolved_by),
                message_count: Option::Some(message_count),
                participant_count: Option::Some(participant_count),
                locked: true,
                lock_reason: resolved_lock_reason(),
                resolved_at: Option::Some(now),
                ..self
            }
        }
    }

    /// Overwrite the severity; mutable, unlike the set-once fields.
    pub open spec fn with_severity(self, severity: i16) -> RecordView {
        RecordView { severity, ..self }
    }
}

/// Law: severity always takes the latest value; setting it twice is the
/// same as setting it once to the second value.
pub proof fn lemma_severity_last_write_wins(r: RecordView, first: i16, second: i16)
    ensures
        r.with_severity(first).with_severity(second) == r.with_severity(second),
{
}

/// Law: the first responder is write-once; a second recording leaves the
/// original responder and timestamp unchanged.
pub proof fn lemma_first_response_write_once(r: RecordView, a: Seq<char>, t: i64, b: Seq<char>, u: i64)
    ensures
        r.with_first_response(a, t).with_first_response(b, u) == r.with_first_response(a, t),
{
}

/// Law: the original poster is write-once; replaying the thread-opening
/// event leaves the recorded poster and content unchanged.
pub proof fn lemma_original_poster_write_once(
    r: RecordView,
    a1: Seq<char>,
    c1: Seq<char>,
    a2: Seq<char>,
    c2: Seq<char>,
)
    ensures
        r.with_initial_message(a1, c1).with_initial_message(a2, c2) == r.with_initial_message(
            a1,
            c1,
        ),
{
}

/// Law: a resolved record stays resolved and locked, whatever single
/// transition is applied to it next.
pub proof fn lemma_resolved_record_stays_locked(
    r: RecordView,
    name: Seq<char>,
    text: Seq<char>,
    locked: bool,
    message_count: i64,
    participant_count: i64,
    severity: i16,
    now: i64,
)
    requires
        r.wf(),
        r.resolved_by is Some,
    ensures
        r.with_initial_message(name, text).locked && r.with_initial_message(name, text).resolved_by
            == r.resolved_by,
        r.with_first_response(name, now).locked && r.with_first_response(name, now).resolved_by
            == r.resolved_by,
        r.with_elevation(text).locked && r.with_elevation(text).resolved_by == r.resolved_by,
        r.with_locked_status(locked, text, now).locked && r.with_locked_status(
            locked,
            text,
            now,
        ).resolved_by == r.resolved_by,
        r.with_resolution(name, message_count, participant_count, now).locked && r.with_resolution(
            name,
            message_count,
            participant_count,
            now,
        ).resolved_by == r.resolved_by,
        r.with_severity(severity).locked && r.with_severity(severity).resolved_by == r.resolved_by,
{
}

/// Law: resolution implies locked. After a resolution the record is locked
/// and the lock reason reflects it; a record that was already resolved
/// stays locked because the transition is a no-op on it.
pub proof fn lemma_resolve_implies_locked(
    r: RecordView,
    resolved_by: Seq<char>,
    message_count: i64,
    participant_count: i64,
    now: i64,
)
    requires
        r.wf(),
    ensures
        r.with_resolution(resolved_by, message_count, participant_count, now).locked,
        r.resolved_by is None ==> r.with_resolution(
            resolved_by,
            message_count,
            participant_count,
            now,
        ).lock_reason == resolved_lock_reason(),
{
}

} // verus!
