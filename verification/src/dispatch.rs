//! The event dispatcher: routes inbound platform events to the
//! attribution engine, the issue-record state machine and the feedback
//! board.
//!
//! The dispatcher is stateless; its collaborators — the record store, the
//! feedback board, the already-fetched message history and the result of
//! the staff-role check — are handed in as plain values, so every decision
//! it takes is a function of its arguments.

use vstd::prelude::*;

use crate::attribution::{attribute_first_response, attribution_spec, AttributionDecision, AttributionOutcome};
use crate::feedback::{board_wf, spec_net_votes, spec_reaction_count, spec_upsert, net_votes_for, FeedbackBoard, FeedbackTally, ReactionGroup};
use crate::message::{history_view, MessageView, ThreadMessage};
use crate::record::{strings_view, RecordView};
use crate::store::{has_record, record_index, spec_create, store_wf, ActionOutcome, IssueStore, StoreError};

verus! {

/// A staff command against one tracked thread.
pub enum StaffAction {
    Elevate { github_link: String },
    SetLocked { locked: bool, reason: String },
    Resolve { resolved_by: String, message_count: i64, participant_count: i64 },
    SetSeverity { value: i16 },
}

/// An inbound platform event, normalized to plain values: the message
/// history of a message event is the full thread history fetched at the
/// triggering moment, re-ordered oldest-first, and the staff-role check
/// has already been answered by the identity collaborator.
pub enum PlatformEvent {
    ThreadCreated { thread_id: u64, thread_link: String, categories: Vec<String> },
    MessagePosted { thread_id: u64, history: Vec<ThreadMessage> },
    ReactionChanged { channel_id: u64, message_author_is_bot: bool, reactions: Vec<ReactionGroup> },
    StaffCommand { thread_id: u64, issuer_is_staff: bool, action: StaffAction },
}

/// The reaction kinds the bot seeds under its own report message.
#[derive(Clone, Copy, PartialEq, Eq, Structural, Debug)]
pub struct ReactionKinds {
    pub upvote: u64,
    pub downvote: u64,
}

/// Why an event was rejected before any state changed.
#[derive(Clone, Copy, PartialEq, Eq, Structural, Debug)]
pub enum DispatchError {
    NotFound,
    AuthorizationDenied,
}

/// What the dispatcher did for one event.
#[derive(Clone, Copy, PartialEq, Eq, Structural, Debug)]
pub enum DispatchOutcome {
    Created(ActionOutcome),
    InitialRecorded(ActionOutcome),
    ResponseAttributed { responder_id: u64, outcome: ActionOutcome },
    NoDecision,
    TallyUpdated { upvotes: i64, downvotes: i64 },
    TallyIgnored,
    StaffApplied(ActionOutcome),
}

/// The message history with system actors (the reporting bot itself)
/// filtered out, order kept.
pub open spec fn non_system(h: Seq<MessageView>) -> Seq<MessageView>
    decreases h.len(),
{
    if h.len() == 0 {
        Seq::empty()
    } else if h.last().is_system_actor {
        non_system(h.drop_last())
    } else {
        non_system(h.drop_last()).push(h.last())
    }
}

/// Effect of a message event on the record store: run the attribution
/// policy over the filtered history and apply what it decided, if its
/// thread is tracked.
pub open spec fn spec_message_effect(
    s: Seq<RecordView>,
    thread_id: u64,
    fv: Seq<MessageView>,
    now: i64,
) -> Seq<RecordView> {
    if fv.len() == 0 || !has_record(s, thread_id) {
        s
    } else {
        let i = record_index(s, thread_id);
        match attribution_spec(fv) {
            AttributionDecision::RecordInitial { author_id, author_display_name, content } => s
                .update(i, s[i].with_initial_message(author_display_name, content)),
            AttributionDecision::FirstResponse { responder_id, responder_display_name } => s
                .update(i, s[i].with_first_response(responder_display_name, now)),
            AttributionDecision::NoAction => s,
        }
    }
}

/// What a message event reports back.
pub open spec fn spec_message_result(s: Seq<RecordView>, thread_id: u64, fv: Seq<MessageView>) -> Result<
    DispatchOutcome,
    DispatchError,
> {
    if fv.len() == 0 {
        Result::Ok(DispatchOutcome::NoDecision)
    } else {
        match attribution_spec(fv) {
            AttributionDecision::RecordInitial { author_id, author_display_name, content } => if !has_record(
                s,
                thread_id,
            ) {
                Result::Err(DispatchError::NotFound)
            } else {
                Result::Ok(
                    DispatchOutcome::InitialRecorded(
                        if s[record_index(s, thread_id)].original_poster is Some {
                            ActionOutcome::NoOp
                        } else {
                            ActionOutcome::Applied
                        },
                    ),
                )
            },
            AttributionDecision::FirstResponse { responder_id, responder_display_name } => if !has_record(
                s,
                thread_id,
            ) {
                Result::Err(DispatchError::NotFound)
            } else {
                Result::Ok(
                    DispatchOutcome::ResponseAttributed {
                        responder_id,
                        outcome: if s[record_index(s, thread_id)].first_responder is Some {
                            ActionOutcome::NoOp
                        } else {
                            ActionOutcome::Applied
                        },
                    },
                )
            },
            AttributionDecision::NoAction => Result::Ok(DispatchOutcome::NoDecision),
        }
    }
}

/// Effect of a staff command on the record store: nothing unless the
/// issuer is staff and the thread is tracked.
pub open spec fn spec_staff_effect(
    s: Seq<RecordView>,
    thread_id: u64,
    issuer_is_staff: bool,
    action: StaffAction,
    now: i64,
) -> Seq<RecordView> {
    if !issuer_is_staff || !has_record(s, thread_id) {
        s
    } else {
        let i = record_index(s, thread_id);
        match action {
            StaffAction::Elevate { github_link } => s.update(i, s[i].with_elevation(github_link@)),
            StaffAction::SetLocked { locked, reason } => s.update(
                i,
                s[i].with_locked_status(locked, reason@, now),
            ),
            StaffAction::Resolve { resolved_by, message_count, participant_count } => s.update(
                i,
                s[i].with_resolution(resolved_by@, message_count, participant_count, now),
            ),
            StaffAction::SetSeverity { value } => s.update(i, s[i].with_severity(value)),
        }
    }
}

/// What a staff command reports back: a non-staff issuer is rejected
/// before any state mutation.
pub open spec fn spec_staff_result(
    s: Seq<RecordView>,
    thread_id: u64,
    issuer_is_staff: bool,
    action: StaffAction,
) -> Result<DispatchOutcome, DispatchError> {
    if !issuer_is_staff {
        Result::Err(DispatchError::AuthorizationDenied)
    } else if !has_record(s, thread_id) {
        Result::Err(DispatchError::NotFound)
    } else {
        let i = record_index(s, thread_id);
        Result::Ok(
            DispatchOutcome::StaffApplied(
                match action {
                    StaffAction::Elevate { github_link } => if s[i].github_link is Some {
                        ActionOutcome::NoOp
                    } else {
                        ActionOutcome::Applied
                    },
                    StaffAction::SetLocked { locked, reason } => if !locked && s[i].resolved_by is Some {
                        ActionOutcome::NoOp
                    } else {
                        ActionOutcome::Applied
                    },
                    StaffAction::Resolve { resolved_by, message_count, participant_count } => if s[i].resolved_by is Some {
                        ActionOutcome::NoOp
                    } else {
                        ActionOutcome::Applied
                    },
                    StaffAction::SetSeverity { value } => ActionOutcome::Applied,
                },
            ),
        )
    }
}

/// Effect of a reaction event on the feedback board: tallies are
/// recomputed from the current reaction counts (never incrementally) and
/// upserted, and only reactions on the bot's own report message count.
pub open spec fn spec_reaction_effect(
    b: Seq<FeedbackTally>,
    channel_id: u64,
    message_author_is_bot: bool,
    reactions: Seq<ReactionGroup>,
    kinds: ReactionKinds,
) -> Seq<FeedbackTally> {
    if !message_author_is_bot {
        b
    } else {
        spec_upsert(
            b,
            channel_id,
            spec_net_votes(spec_reaction_count(reactions, kinds.upvote)),
            spec_net_votes(spec_reaction_count(reactions, kinds.downvote)),
        )
    }
}

/// Filters system-actor messages out of a history, keeping the order.
fn filter_system_actors(history: Vec<ThreadMessage>) -> (r: Vec<ThreadMessage>)
    ensures
        history_view(r@) == non_system(history_view(history@)),
{
    let ghost hv = history_view(history@);
    let n = history.len();
    let mut filtered: Vec<ThreadMessage> = Vec::new();
    let mut j: usize = 0;
    proof {
        assert(hv.take(0) =~= Seq::empty());
        assert(history_view(filtered@) =~= Seq::empty());
    }
    while j < n
        invariant
            j <= n,
            n == history@.len(),
            hv == history_view(history@),
            history_view(filtered@) == non_system(hv.take(j as int)),
        decreases n - j,
    {
        proof {
            assert(hv.take(j + 1).drop_last() =~= hv.take(j as int));
            assert(hv.take(j + 1).last() == hv[j as int]);
        }
        if !history[j].is_system_actor {
            filtered.push(history[j].clone());
            proof {
                assert(history_view(filtered@) =~= non_system(hv.take(j as int)).push(
                    hv[j as int],
                ));
            }
        }
        j = j + 1;
    }
    proof {
        assert(hv.take(n as int) =~= hv);
    }
    filtered
}

/// Routes one platform event: thread creation inserts a record, a posted
/// message runs the attribution engine over the system-actor-free history,
/// a reaction on a bot report recomputes the channel tally, and a staff
/// command applies its state-machine action after the authorization check.
pub fn dispatch(
    store: &mut IssueStore,
    board: &mut FeedbackBoard,
    kinds: ReactionKinds,
    event: PlatformEvent,
    now: i64,
) -> (r: Result<DispatchOutcome, DispatchError>)
    requires
        store_wf(old(store)@),
        board_wf(old(board)@),
        now >= 0,
    ensures
        store_wf(final(store)@),
        board_wf(final(board)@),
        (event matches PlatformEvent::ThreadCreated { thread_id, thread_link, categories } ==> ({
            &&& final(store)@ == spec_create(
                old(store)@,
                thread_id,
                thread_link@,
                strings_view(categories@),
                now,
            )
            &&& final(board)@ == old(board)@
            &&& r == Result::Ok::<DispatchOutcome, DispatchError>(
                DispatchOutcome::Created(
                    if has_record(old(store)@, thread_id) {
                        ActionOutcome::NoOp
                    } else {
                        ActionOutcome::Applied
                    },
                ),
            )
        })),
        (event matches PlatformEvent::MessagePosted { thread_id, history } ==> ({
            let fv = non_system(history_view(history@));
            &&& final(store)@ == spec_message_effect(old(store)@, thread_id, fv, now)
            &&& final(board)@ == old(board)@
            &&& r == spec_message_result(old(store)@, thread_id, fv)
        })),
        (event matches PlatformEvent::ReactionChanged { channel_id, message_author_is_bot, reactions } ==> ({
            &&& final(store)@ == old(store)@
            &&& final(board)@ == spec_reaction_effect(
                old(board)@,
                channel_id,
                message_author_is_bot,
                reactions@,
                kinds,
            )
            &&& r == Result::Ok::<DispatchOutcome, DispatchError>(
                if message_author_is_bot {
                    DispatchOutcome::TallyUpdated {
                        upvotes: spec_net_votes(spec_reaction_count(reactions@, kinds.upvote)),
                        downvotes: spec_net_votes(spec_reaction_count(reactions@, kinds.downvote)),
                    }
                } else {
                    DispatchOutcome::TallyIgnored
                },
            )
        })),
        (event matches PlatformEvent::StaffCommand { thread_id, issuer_is_staff, action } ==> ({
            &&& final(store)@ == spec_staff_effect(old(store)@, thread_id, issuer_is_staff, action, now)
            &&& final(board)@ == old(board)@
            &&& r == spec_staff_result(old(store)@, thread_id, issuer_is_staff, action)
        })),
{
    match event {
        PlatformEvent::ThreadCreated { thread_id, thread_link, categories } => {
            let outcome = store.create_record(thread_id, thread_link, categories, now);
            Ok(DispatchOutcome::Created(outcome))
        },
        PlatformEvent::MessagePosted { thread_id, history } => {
            let filtered = filter_system_actors(history);
            if filtered.len() == 0 {
                return Ok(DispatchOutcome::NoDecision);
            }
            let decision = attribute_first_response(&filtered);
            match decision {
                AttributionOutcome::RecordInitial { author_id, author_display_name, content } => {
                    match store.record_initial_message(thread_id, author_display_name, content) {
                        Ok(outcome) => Ok(DispatchOutcome::InitialRecorded(outcome)),
                        Err(StoreError::NotFound) => Err(DispatchError::NotFound),
                    }
                },
                AttributionOutcome::FirstResponse { responder_id, responder_display_name } => {
                    match store.record_first_response(thread_id, responder_display_name, now) {
                        Ok(outcome) => Ok(
                            DispatchOutcome::ResponseAttributed { responder_id, outcome },
                        ),
                        Err(StoreError::NotFound) => Err(DispatchError::NotFound),
                    }
                },
                AttributionOutcome::NoAction => Ok(DispatchOutcome::NoDecision),
            }
        },
        PlatformEvent::ReactionChanged { channel_id, message_author_is_bot, reactions } => {
            if !message_author_is_bot {
                return Ok(DispatchOutcome::TallyIgnored);
            }
            let upvotes = net_votes_for(&reactions, kinds.upvote);
            let downvotes = net_votes_for(&reactions, kinds.downvote);
            board.upsert(channel_id, upvotes, downvotes);
            Ok(DispatchOutcome::TallyUpdated { upvotes, downvotes })
        },
        PlatformEvent::StaffCommand { thread_id, issuer_is_staff, action } => {
            if !issuer_is_staff {
                return Err(DispatchError::AuthorizationDenied);
            }
            let applied = match action {
                StaffAction::Elevate { github_link } => store.elevate(thread_id, github_link),
                StaffAction::SetLocked { locked, reason } => store.set_locked_status(
                    thread_id,
                    locked,
                    reason,
                    now,
                ),
                StaffAction::Resolve { resolved_by, message_count, participant_count } => store
                    .resolve(thread_id, resolved_by, message_count, participant_count, now),
                StaffAction::SetSeverity { value } => store.set_severity(thread_id, value),
            };
            match applied {
                Ok(outcome) => Ok(DispatchOutcome::StaffApplied(outcome)),
                Err(StoreError::NotFound) => Err(DispatchError::NotFound),
            }
        },
    }
}

} // verus!
