//! The issue store: the repository of issue records, keyed by thread id,
//! and the seven lifecycle actions applied through it.
//!
//! Any action against an unknown thread id reports `NotFound`; an action
//! whose effect is already in place is a silent no-op, never an error.
//! That realizes idempotency against replayed or duplicate platform
//! events.

use vstd::prelude::*;

use crate::record::{
    fresh_record, strings_view, IssueRecord, RecordView, DEFAULT_SEVERITY,
};

verus! {

/// Whether an action changed the record or found its effect already in
/// place.
#[derive(Clone, Copy, PartialEq, Eq, Structural, Debug)]
pub enum ActionOutcome {
    Applied,
    NoOp,
}

/// Failure of a store action.
#[derive(Clone, Copy, PartialEq, Eq, Structural, Debug)]
pub enum StoreError {
    NotFound,
}

/// Some record of the store carries this thread id.
pub open spec fn has_record(s: Seq<RecordView>, thread_id: u64) -> bool {
    exists|i: int| 0 <= i < s.len() && #[trigger] s[i].thread_id == thread_id
}

/// The index of the record carrying this thread id (unique under
/// `store_wf`).
pub open spec fn record_index(s: Seq<RecordView>, thread_id: u64) -> int {
    choose|i: int| 0 <= i < s.len() && #[trigger] s[i].thread_id == thread_id
}

/// Store consistency: thread ids are unique and every record is
/// well-formed.
pub open spec fn store_wf(s: Seq<RecordView>) -> bool {
    &&& forall|i: int, j: int|
        0 <= i < j < s.len() ==> #[trigger] s[i].thread_id != #[trigger] s[j].thread_id
    &&& forall|i: int| 0 <= i < s.len() ==> (#[trigger] s[i]).wf()
}

/// Effect of the creation action: insert a fresh record unless the thread
/// id is already tracked.
pub open spec fn spec_create(
    s: Seq<RecordView>,
    thread_id: u64,
    thread_link: Seq<char>,
    categories: Seq<Seq<char>>,
    now: i64,
) -> Seq<RecordView> {
    if has_record(s, thread_id) {
        s
    } else {
        s.push(fresh_record(thread_id, thread_link, categories, now))
    }
}

/// Law: creation is idempotent. Once a thread id is tracked, creating it
/// again changes nothing, whatever the second call carries.
pub proof fn lemma_create_idempotent(
    s: Seq<RecordView>,
    thread_id: u64,
    link1: Seq<char>,
    cats1: Seq<Seq<char>>,
    now1: i64,
    link2: Seq<char>,
    cats2: Seq<Seq<char>>,
    now2: i64,
)
    ensures
        spec_create(spec_create(s, thread_id, link1, cats1, now1), thread_id, link2, cats2, now2)
            == spec_create(s, thread_id, link1, cats1, now1),
{
    if !has_record(s, thread_id) {
        let s1 = s.push(fresh_record(thread_id, link1, cats1, now1));
        assert(s1[s.len() as int].thread_id == thread_id);
    }
}

/// The repository of issue records.
pub struct IssueStore {
    pub records: Vec<IssueRecord>,
}

impl View for IssueStore {
    type V = Seq<RecordView>;

    open spec fn view(&self) -> Seq<RecordView> {
        self.records@.map_values(|r: IssueRecord| r@)
    }
}

impl IssueStore {
    /// An empty store.
    pub fn new() -> (r: IssueStore)
        ensures
            r@ == Seq::<RecordView>::empty(),
            store_wf(r@),
    {
        let store = IssueStore { records: Vec::new() };
        proof {
            assert(store@ =~= Seq::<RecordView>::empty());
        }
        store
    }

    /// Index of the record for this thread id, if one exists.
    fn find_index(&self, thread_id: u64) -> (r: Option<usize>)
        ensures
            match r {
                Option::Some(i) => i < self@.len() && self@[i as int].thread_id == thread_id,
                Option::None => !has_record(self@, thread_id),
            },
    {
        let n = self.records.len();
        let mut i: usize = 0;
        while i < n
            invariant
                i <= n,
                n == self@.len(),
                forall|k: int| 0 <= k < i ==> #[trigger] self@[k].thread_id != thread_id,
            decreases n - i,
        {
            if self.records[i].thread_id == thread_id {
                return Option::Some(i);
            }
            i = i + 1;
        }
        Option::None
    }

    /// The unique matching index equals `record_index`.
    proof fn lemma_found_index(s: Seq<RecordView>, thread_id: u64, i: int)
        requires
            store_wf(s),
            0 <= i < s.len(),
            s[i].thread_id == thread_id,
        ensures
            record_index(s, thread_id) == i,
    {
        let k = record_index(s, thread_id);
        assert(0 <= k < s.len() && s[k].thread_id == thread_id);
    }

    /// Create the record for a newly opened thread. Idempotent: a thread
    /// id already tracked is left exactly as it was.
    pub fn create_record(
        &mut self,
        thread_id: u64,
        thread_link: String,
        categories: Vec<String>,
        now: i64,
    ) -> (r: ActionOutcome)
        requires
            store_wf(old(self)@),
            now >= 0,
        ensures
            store_wf(final(self)@),
            final(self)@ == spec_create(
                old(self)@,
                thread_id,
                thread_link@,
                strings_view(categories@),
                now,
            ),
            r == ActionOutcome::Applied <==> !has_record(old(self)@, thread_id),
            has_record(final(self)@, thread_id),
    {
        let ghost link_v = thread_link@;
        let ghost cats_v = strings_view(categories@);
        match self.find_index(thread_id) {
            Option::Some(_) => ActionOutcome::NoOp,
            Option::None => {
                let rec = IssueRecord {
                    thread_id,
                    thread_link,
                    creation_time: now,
                    original_poster: Option::None,
                    initial_message: Option::None,
                    first_responder: Option::None,
                    first_response_time: Option::None,
                    categories,
                    severity: DEFAULT_SEVERITY,
                    locked: false,
                    lock_reason: String::new(),
                    github_link: Option::None,
                    resolved_by: Option::None,
                    resolved_at: Option::None,
                    message_count: Option::None,
                    participant_count: Option::None,
                };
                proof {
                    assert(rec@ == fresh_record(thread_id, link_v, cats_v, now));
                }
                self.records.push(rec);
                proof {
                    assert(self@ =~= old(self)@.push(fresh_record(thread_id, link_v, cats_v, now)));
                    assert(self@[old(self)@.len() as int].thread_id == thread_id);
                }
                ActionOutcome::Applied
            },
        }
    }

    /// Record the thread-opening message: set the original poster and the
    /// stored initial content, once.
    pub fn record_initial_message(
        &mut self,
        thread_id: u64,
        author: String,
        content: String,
    ) -> (r: Result<ActionOutcome, StoreError>)
        requires
            store_wf(old(self)@),
        ensures
            store_wf(final(self)@),
            !has_record(old(self)@, thread_id) ==> final(self)@ == old(self)@ && r == Err::<
                ActionOutcome,
                StoreError,
            >(StoreError::NotFound),
            has_record(old(self)@, thread_id) ==> ({
                let i = record_index(old(self)@, thread_id);
                &&& final(self)@ == old(self)@.update(
                    i,
                    old(self)@[i].with_initial_message(author@, content@),
                )
                &&& r == Ok::<ActionOutcome, StoreError>(
                    if old(self)@[i].original_poster is Some {
                        ActionOutcome::NoOp
                    } else {
                        ActionOutcome::Applied
                    },
                )
            }),
    {
        let idx = match self.find_index(thread_id) {
            Option::None => {
                return Err(StoreError::NotFound);
            },
            Option::Some(i) => i,
        };
        proof {
            Self::lemma_found_index(self@, thread_id, idx as int);
        }
        let ghost i = idx as int;
        if self.records[idx].original_poster.is_some() {
            proof {
                assert(old(self)@.update(i, old(self)@[i].with_initial_message(author@, content@))
                    =~= old(self)@);
            }
            return Ok(ActionOutcome::NoOp);
        }
        let ghost author_v = author@;
        let ghost content_v = content@;
        let mut rec = self.records.remove(idx);
        rec.original_poster = Option::Some(author);
        rec.initial_message = Option::Some(content);
        self.records.insert(idx, rec);
        proof {
            assert(rec@ == old(self)@[i].with_initial_message(author_v, content_v));
            assert(self@ =~= old(self)@.update(i, rec@));
        }
        Ok(ActionOutcome::Applied)
    }

    /// Record the first responder and the response time, once.
    pub fn record_first_response(
        &mut self,
        thread_id: u64,
        responder: String,
        now: i64,
    ) -> (r: Result<ActionOutcome, StoreError>)
        requires
            store_wf(old(self)@),
            now >= 0,
        ensures
            store_wf(final(self)@),
            !has_record(old(self)@, thread_id) ==> final(self)@ == old(self)@ && r == Err::<
                ActionOutcome,
                StoreError,
            >(StoreError::NotFound),
            has_record(old(self)@, thread_id) ==> ({
                let i = record_index(old(self)@, thread_id);
                &&& final(self)@ == old(self)@.update(
                    i,
                    old(self)@[i].with_first_response(responder@, now),
                )
                &&& r == Ok::<ActionOutcome, StoreError>(
                    if old(self)@[i].first_responder is Some {
                        ActionOutcome::NoOp
                    } else {
                        ActionOutcome::Applied
                    },
                )
            }),
    {
        let idx = match self.find_index(thread_id) {
            Option::None => {
                return Err(StoreError::NotFound);
            },
            Option::Some(i) => i,
        };
        proof {
            Self::lemma_found_index(self@, thread_id, idx as int);
        }
        let ghost i = idx as int;
        if self.records[idx].first_responder.is_some() {
            proof {
                assert(old(self)@.update(i, old(self)@[i].with_first_response(responder@, now))
                    =~= old(self)@);
            }
            return Ok(ActionOutcome::NoOp);
        }
        let ghost responder_v = responder@;
        let mut rec = self.records.remove(idx);
        rec.first_responder = Option::Some(responder);
        rec.first_response_time = Option::Some(now);
        self.records.insert(idx, rec);
        proof {
            assert(rec@ == old(self)@[i].with_first_response(responder_v, now));
            assert(self@ =~= old(self)@.update(i, rec@));
        }
        Ok(ActionOutcome::Applied)
    }

    /// Link the thread to an external issue and lock it, once.
    pub fn elevate(&mut self, thread_id: u64, github_link: String) -> (r: Result<
        ActionOutcome,
        StoreError,
    >)
        requires
            store_wf(old(self)@),
        ensures
            store_wf(final(self)@),
            !has_record(old(self)@, thread_id) ==> final(self)@ == old(self)@ && r == Err::<
                ActionOutcome,
                StoreError,
            >(StoreError::NotFound),
            has_record(old(self)@, thread_id) ==> ({
                let i = record_index(old(self)@, thread_id);
                &&& final(self)@ == old(self)@.update(
                    i,
                    old(self)@[i].with_elevation(github_link@),
                )
                &&& r == Ok::<ActionOutcome, StoreError>(
                    if old(self)@[i].github_link is Some {
                        ActionOutcome::NoOp
                    } else {
                        ActionOutcome::Applied
                    },
                )
            }),
    {
        let idx = match self.find_index(thread_id) {
            Option::None => {
                return Err(StoreError::NotFound);
            },
            Option::Some(i) => i,
        };
        proof {
            Self::lemma_found_index(self@, thread_id, idx as int);
        }
        let ghost i = idx as int;
        if self.records[idx].github_link.is_some() {
            proof {
                assert(old(self)@.update(i, old(self)@[i].with_elevation(github_link@)) =~= old(
                    self,
                )@);
            }
            return Ok(ActionOutcome::NoOp);
        }
        let ghost link_v = github_link@;
        let mut rec = self.records.remove(idx);
        rec.github_link = Option::Some(github_link);
        rec.locked = true;
        rec.lock_reason = String::from_str("Thread was elevated to GitHub issue");
        self.records.insert(idx, rec);
        proof {
            assert(rec@ == old(self)@[i].with_elevation(link_v));
            assert(self@ =~= old(self)@.update(i, rec@));
        }
        Ok(ActionOutcome::Applied)
    }

    /// Set the lock status and its reason; locking stamps the resolution
    /// time. Unlocking a resolved record is refused as a no-op, so a
    /// resolved record stays locked.
    pub fn set_locked_status(
        &mut self,
        thread_id: u64,
        locked: bool,
        reason: String,
        now: i64,
    ) -> (r: Result<ActionOutcome, StoreError>)
        requires
            store_wf(old(self)@),
            now >= 0,
        ensures
            store_wf(final(self)@),
            !has_record(old(self)@, thread_id) ==> final(self)@ == old(self)@ && r == Err::<
                ActionOutcome,
                StoreError,
            >(StoreError::NotFound),
            has_record(old(self)@, thread_id) ==> ({
                let i = record_index(old(self)@, thread_id);
                &&& final(self)@ == old(self)@.update(
                    i,
                    old(self)@[i].with_locked_status(locked, reason@, now),
                )
                &&& r == Ok::<ActionOutcome, StoreError>(
                    if !locked && old(self)@[i].resolved_by is Some {
                        ActionOutcome::NoOp
                    } else {
                        ActionOutcome::Applied
                    },
                )
            }),
    {
        let idx = match self.find_index(thread_id) {
            Option::None => {
                return Err(StoreError::NotFound);
            },
            Option::Some(i) => i,
        };
        proof {
            Self::lemma_found_index(self@, thread_id, idx as int);
        }
        let ghost i = idx as int;
        if !locked && self.records[idx].resolved_by.is_some() {
            proof {
                assert(old(self)@.update(i, old(self)@[i].with_locked_status(locked, reason@, now))
                    =~= old(self)@);
            }
            return Ok(ActionOutcome::NoOp);
        }
        let ghost reason_v = reason@;
        let mut rec = self.records.remove(idx);
        rec.locked = locked;
        rec.lock_reason = reason;
        if locked {
            rec.resolved_at = Option::Some(now);
        }
        self.records.insert(idx, rec);
        proof {
            assert(rec@ == old(self)@[i].with_locked_status(locked, reason_v, now));
            assert(self@ =~= old(self)@.update(i, rec@));
        }
        Ok(ActionOutcome::Applied)
    }

    /// Resolve the thread: stamp the resolver, the snapshot counters and
    /// the resolution time, and lock it, once.
    pub fn resolve(
        &mut self,
        thread_id: u64,
        resolved_by: String,
        message_count: i64,
        participant_count: i64,
        now: i64,
    ) -> (r: Result<ActionOutcome, StoreError>)
        requires
            store_wf(old(self)@),
            now >= 0,
        ensures
            store_wf(final(self)@),
            !has_record(old(self)@, thread_id) ==> final(self)@ == old(self)@ && r == Err::<
                ActionOutcome,
                StoreError,
            >(StoreError::NotFound),
            has_record(old(self)@, thread_id) ==> ({
                let i = record_index(old(self)@, thread_id);
                &&& final(self)@ == old(self)@.update(
                    i,
                    old(self)@[i].with_resolution(resolved_by@, message_count, participant_count, now),
                )
                &&& r == Ok::<ActionOutcome, StoreError>(
                    if old(self)@[i].resolved_by is Some {
                        ActionOutcome::NoOp
                    } else {
                        ActionOutcome::Applied
                    },
                )
            }),
    {
        let idx = match self.find_index(thread_id) {
            Option::None => {
                return Err(StoreError::NotFound);
            },
            Option::Some(i) => i,
        };
        proof {
            Self::lemma_found_index(self@, thread_id, idx as int);
        }
        let ghost i = idx as int;
        if self.records[idx].resolved_by.is_some() {
            proof {
                assert(old(self)@.update(
                    i,
                    old(self)@[i].with_resolution(resolved_by@, message_count, participant_count, now),
                ) =~= old(self)@);
            }
            return Ok(ActionOutcome::NoOp);
        }
        let ghost resolver_v = resolved_by@;
        let mut rec = self.records.remove(idx);
        rec.resolved_by = Option::Some(resolved_by);
        rec.message_count = Option::Some(message_count);
        rec.participant_count = Option::Some(participant_count);
        rec.locked = true;
        rec.lock_reason = String::from_str("Thread was resolved");
        rec.resolved_at = Option::Some(now);
        self.records.insert(idx, rec);
        proof {
            assert(rec@ == old(self)@[i].with_resolution(
                resolver_v,
                message_count,
                participant_count,
                now,
            ));
            assert(self@ =~= old(self)@.update(i, rec@));
        }
        Ok(ActionOutcome::Applied)
    }

    /// Overwrite the severity; repeatable, always taking the latest value.
    pub fn set_severity(&mut self, thread_id: u64, severity: i16) -> (r: Result<
        ActionOutcome,
        StoreError,
    >)
        requires
            store_wf(old(self)@),
        ensures
            store_wf(final(self)@),
            !has_record(old(self)@, thread_id) ==> final(self)@ == old(self)@ && r == Err::<
                ActionOutcome,
                StoreError,
            >(StoreError::NotFound),
            has_record(old(self)@, thread_id) ==> ({
                let i = record_index(old(self)@, thread_id);
                &&& final(self)@ == old(self)@.update(i, old(self)@[i].with_severity(severity))
                &&& r == Ok::<ActionOutcome, StoreError>(ActionOutcome::Applied)
            }),
    {
        let idx = match self.find_index(thread_id) {
            Option::None => {
                return Err(StoreError::NotFound);
            },
            Option::Some(i) => i,
        };
        proof {
            Self::lemma_found_index(self@, thread_id, idx as int);
        }
        let ghost i = idx as int;
        let mut rec = self.records.remove(idx);
        rec.severity = severity;
        self.records.insert(idx, rec);
        proof {
            assert(rec@ == old(self)@[i].with_severity(severity));
            assert(self@ =~= old(self)@.update(i, rec@));
        }
        Ok(ActionOutcome::Applied)
    }
}

} // verus!
