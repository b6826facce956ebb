use shuttlebot::{
    dispatch, ActionOutcome, DispatchError, DispatchOutcome, FeedbackBoard, IssueStore,
    PlatformEvent, ReactionGroup, ReactionKinds, StaffAction, ThreadMessage,
};

const KINDS: ReactionKinds = ReactionKinds { upvote: 100, downvote: 200 };

fn msg(author_id: u64, name: &str, content: &str, posted_at: u64, system: bool) -> ThreadMessage {
    ThreadMessage {
        thread_id: 7,
        author_id,
        author_display_name: name.to_string(),
        content: content.to_string(),
        posted_at,
        is_thread_owner: author_id == 1,
        is_system_actor: system,
    }
}

fn created(store: &mut IssueStore, board: &mut FeedbackBoard, thread_id: u64, now: i64) {
    let event = PlatformEvent::ThreadCreated {
        thread_id,
        thread_link: format!("https://discord.com/channels/9/{thread_id}"),
        categories: vec!["help".to_string()],
    };
    let r = dispatch(store, board, KINDS, event, now);
    assert_eq!(r, Ok(DispatchOutcome::Created(ActionOutcome::Applied)));
}

#[test]
fn end_to_end_thread_lifecycle() {
    let mut store = IssueStore::new();
    let mut board = FeedbackBoard::new();
    created(&mut store, &mut board, 7, 100);
    assert!(store.records[0].original_poster.is_none());

    // Message 1: alice opens with "help me".
    let e1 = PlatformEvent::MessagePosted {
        thread_id: 7,
        history: vec![msg(1, "alice", "help me", 100, false)],
    };
    let r1 = dispatch(&mut store, &mut board, KINDS, e1, 110);
    assert_eq!(r1, Ok(DispatchOutcome::InitialRecorded(ActionOutcome::Applied)));
    assert_eq!(store.records[0].original_poster.as_deref(), Some("alice"));
    assert_eq!(store.records[0].initial_message.as_deref(), Some("help me"));

    // Message 2: bob answers; attribution fires.
    let e2 = PlatformEvent::MessagePosted {
        thread_id: 7,
        history: vec![
            msg(1, "alice", "help me", 100, false),
            msg(2, "bob", "try X", 200, false),
        ],
    };
    let r2 = dispatch(&mut store, &mut board, KINDS, e2, 210);
    assert_eq!(
        r2,
        Ok(DispatchOutcome::ResponseAttributed {
            responder_id: 2,
            outcome: ActionOutcome::Applied,
        })
    );
    assert_eq!(store.records[0].first_responder.as_deref(), Some("bob"));
    assert_eq!(store.records[0].first_response_time, Some(210));

    // Message 3: carol chimes in; two distinct responders now, no change.
    let e3 = PlatformEvent::MessagePosted {
        thread_id: 7,
        history: vec![
            msg(1, "alice", "help me", 100, false),
            msg(2, "bob", "try X", 200, false),
            msg(3, "carol", "+1", 300, false),
        ],
    };
    let r3 = dispatch(&mut store, &mut board, KINDS, e3, 310);
    assert_eq!(r3, Ok(DispatchOutcome::NoDecision));
    assert_eq!(store.records[0].original_poster.as_deref(), Some("alice"));
    assert_eq!(store.records[0].first_responder.as_deref(), Some("bob"));
}

#[test]
fn replayed_attribution_is_a_no_op() {
    let mut store = IssueStore::new();
    let mut board = FeedbackBoard::new();
    created(&mut store, &mut board, 7, 100);
    let history = vec![
        msg(1, "alice", "help me", 100, false),
        msg(2, "bob", "try X", 200, false),
    ];
    let first = dispatch(
        &mut store,
        &mut board,
        KINDS,
        PlatformEvent::MessagePosted { thread_id: 7, history: history.clone() },
        210,
    );
    assert_eq!(
        first,
        Ok(DispatchOutcome::ResponseAttributed { responder_id: 2, outcome: ActionOutcome::Applied })
    );
    // The same platform event delivered again: the state machine blocks
    // the second write.
    let replay = dispatch(
        &mut store,
        &mut board,
        KINDS,
        PlatformEvent::MessagePosted { thread_id: 7, history },
        400,
    );
    assert_eq!(
        replay,
        Ok(DispatchOutcome::ResponseAttributed { responder_id: 2, outcome: ActionOutcome::NoOp })
    );
    assert_eq!(store.records[0].first_response_time, Some(210));
}

#[test]
fn system_actors_are_filtered_before_attribution() {
    let mut store = IssueStore::new();
    let mut board = FeedbackBoard::new();
    created(&mut store, &mut board, 7, 100);
    // The bot's own status message sits between the question and the
    // reply; it must not count as the first response.
    let e = PlatformEvent::MessagePosted {
        thread_id: 7,
        history: vec![
            msg(1, "alice", "help me", 100, false),
            msg(99, "reportbot", "thread tracked", 150, true),
            msg(2, "bob", "try X", 200, false),
        ],
    };
    let r = dispatch(&mut store, &mut board, KINDS, e, 210);
    assert_eq!(
        r,
        Ok(DispatchOutcome::ResponseAttributed { responder_id: 2, outcome: ActionOutcome::Applied })
    );
    assert_eq!(store.records[0].first_responder.as_deref(), Some("bob"));
}

#[test]
fn bot_only_history_decides_nothing() {
    let mut store = IssueStore::new();
    let mut board = FeedbackBoard::new();
    created(&mut store, &mut board, 7, 100);
    let e = PlatformEvent::MessagePosted {
        thread_id: 7,
        history: vec![msg(99, "reportbot", "thread tracked", 150, true)],
    };
    assert_eq!(dispatch(&mut store, &mut board, KINDS, e, 210), Ok(DispatchOutcome::NoDecision));
    assert!(store.records[0].original_poster.is_none());
}

#[test]
fn message_for_unknown_thread_reports_not_found() {
    let mut store = IssueStore::new();
    let mut board = FeedbackBoard::new();
    let e = PlatformEvent::MessagePosted {
        thread_id: 12345,
        history: vec![msg(1, "alice", "help me", 100, false)],
    };
    assert_eq!(dispatch(&mut store, &mut board, KINDS, e, 110), Err(DispatchError::NotFound));
}

#[test]
fn reaction_tally_is_recomputed_by_kind() {
    let mut store = IssueStore::new();
    let mut board = FeedbackBoard::new();
    // 5 upvotes and 1 downvote, bot seed included: net 4 and 0.
    let e = PlatformEvent::ReactionChanged {
        channel_id: 55,
        message_author_is_bot: true,
        reactions: vec![
            ReactionGroup { kind: 200, count: 1 },
            ReactionGroup { kind: 100, count: 5 },
        ],
    };
    let r = dispatch(&mut store, &mut board, KINDS, e, 10);
    assert_eq!(r, Ok(DispatchOutcome::TallyUpdated { upvotes: 4, downvotes: 0 }));
    assert_eq!(board.tallies.len(), 1);
    assert_eq!(board.tallies[0].channel_id, 55);
    assert_eq!(board.tallies[0].upvotes, 4);
    assert_eq!(board.tallies[0].downvotes, 0);
}

#[test]
fn absent_reaction_kind_counts_as_zero() {
    let mut store = IssueStore::new();
    let mut board = FeedbackBoard::new();
    let e = PlatformEvent::ReactionChanged {
        channel_id: 55,
        message_author_is_bot: true,
        reactions: vec![ReactionGroup { kind: 100, count: 3 }],
    };
    let r = dispatch(&mut store, &mut board, KINDS, e, 10);
    assert_eq!(r, Ok(DispatchOutcome::TallyUpdated { upvotes: 2, downvotes: 0 }));
}

#[test]
fn reaction_upsert_overwrites_the_channel_tally() {
    let mut store = IssueStore::new();
    let mut board = FeedbackBoard::new();
    let first = PlatformEvent::ReactionChanged {
        channel_id: 55,
        message_author_is_bot: true,
        reactions: vec![ReactionGroup { kind: 100, count: 4 }],
    };
    dispatch(&mut store, &mut board, KINDS, first, 10).unwrap();
    let second = PlatformEvent::ReactionChanged {
        channel_id: 55,
        message_author_is_bot: true,
        reactions: vec![
            ReactionGroup { kind: 100, count: 2 },
            ReactionGroup { kind: 200, count: 3 },
        ],
    };
    dispatch(&mut store, &mut board, KINDS, second, 20).unwrap();
    assert_eq!(board.tallies.len(), 1);
    assert_eq!(board.tallies[0].upvotes, 1);
    assert_eq!(board.tallies[0].downvotes, 2);
}

#[test]
fn reaction_counter_saturates_instead_of_overflowing() {
    let mut store = IssueStore::new();
    let mut board = FeedbackBoard::new();
    let e = PlatformEvent::ReactionChanged {
        channel_id: 55,
        message_author_is_bot: true,
        reactions: vec![ReactionGroup { kind: 100, count: u64::MAX }],
    };
    let r = dispatch(&mut store, &mut board, KINDS, e, 10);
    assert_eq!(r, Ok(DispatchOutcome::TallyUpdated { upvotes: i64::MAX, downvotes: 0 }));
}

#[test]
fn reactions_on_other_messages_are_ignored() {
    let mut store = IssueStore::new();
    let mut board = FeedbackBoard::new();
    let e = PlatformEvent::ReactionChanged {
        channel_id: 55,
        message_author_is_bot: false,
        reactions: vec![ReactionGroup { kind: 100, count: 9 }],
    };
    assert_eq!(dispatch(&mut store, &mut board, KINDS, e, 10), Ok(DispatchOutcome::TallyIgnored));
    assert!(board.tallies.is_empty());
}

#[test]
fn staff_commands_require_authorization() {
    let mut store = IssueStore::new();
    let mut board = FeedbackBoard::new();
    created(&mut store, &mut board, 7, 100);
    let denied = dispatch(
        &mut store,
        &mut board,
        KINDS,
        PlatformEvent::StaffCommand {
            thread_id: 7,
            issuer_is_staff: false,
            action: StaffAction::SetSeverity { value: 1 },
        },
        110,
    );
    assert_eq!(denied, Err(DispatchError::AuthorizationDenied));
    assert_eq!(store.records[0].severity, 5);
}

#[test]
fn staff_resolve_through_dispatcher() {
    let mut store = IssueStore::new();
    let mut board = FeedbackBoard::new();
    created(&mut store, &mut board, 7, 100);
    let r = dispatch(
        &mut store,
        &mut board,
        KINDS,
        PlatformEvent::StaffCommand {
            thread_id: 7,
            issuer_is_staff: true,
            action: StaffAction::Resolve {
                resolved_by: "dana".to_string(),
                message_count: 8,
                participant_count: 2,
            },
        },
        500,
    );
    assert_eq!(r, Ok(DispatchOutcome::StaffApplied(ActionOutcome::Applied)));
    assert!(store.records[0].locked);
    assert_eq!(store.records[0].resolved_by.as_deref(), Some("dana"));

    let again = dispatch(
        &mut store,
        &mut board,
        KINDS,
        PlatformEvent::StaffCommand {
            thread_id: 7,
            issuer_is_staff: true,
            action: StaffAction::Resolve {
                resolved_by: "erin".to_string(),
                message_count: 9,
                participant_count: 4,
            },
        },
        600,
    );
    assert_eq!(again, Ok(DispatchOutcome::StaffApplied(ActionOutcome::NoOp)));
    assert_eq!(store.records[0].resolved_by.as_deref(), Some("dana"));
}

#[test]
fn staff_command_for_unknown_thread_reports_not_found() {
    let mut store = IssueStore::new();
    let mut board = FeedbackBoard::new();
    let r = dispatch(
        &mut store,
        &mut board,
        KINDS,
        PlatformEvent::StaffCommand {
            thread_id: 404,
            issuer_is_staff: true,
            action: StaffAction::SetLocked { locked: true, reason: "done".to_string() },
        },
        500,
    );
    assert_eq!(r, Err(DispatchError::NotFound));
}
