use shuttlebot::{attribute_first_response, AttributionOutcome, ThreadMessage};

fn msg(author_id: u64, name: &str, content: &str, posted_at: u64) -> ThreadMessage {
    ThreadMessage {
        thread_id: 77,
        author_id,
        author_display_name: name.to_string(),
        content: content.to_string(),
        posted_at,
        is_thread_owner: author_id == 1,
        is_system_actor: false,
    }
}

#[test]
fn single_message_signals_record_initial() {
    let history = vec![msg(1, "alice", "help me", 10)];
    match attribute_first_response(&history) {
        AttributionOutcome::RecordInitial { author_id, author_display_name, content } => {
            assert_eq!(author_id, 1);
            assert_eq!(author_display_name, "alice");
            assert_eq!(content, "help me");
        }
        _ => panic!("expected the record-initial signal"),
    }
}

#[test]
fn first_reply_is_attributed() {
    let history = vec![msg(1, "alice", "help me", 10), msg(2, "userA", "try X", 20)];
    match attribute_first_response(&history) {
        AttributionOutcome::FirstResponse { responder_id, responder_display_name } => {
            assert_eq!(responder_id, 2);
            assert_eq!(responder_display_name, "userA");
        }
        _ => panic!("expected attribution for userA"),
    }
}

#[test]
fn two_distinct_responders_suppress_attribution() {
    // Two distinct non-owner authors exist: the guard skips attribution.
    let history = vec![
        msg(1, "alice", "help me", 10),
        msg(2, "userA", "try X", 20),
        msg(3, "userB", "or Y", 30),
    ];
    assert!(matches!(attribute_first_response(&history), AttributionOutcome::NoAction));
}

#[test]
fn multi_party_noise_yields_no_attribution() {
    let history = vec![
        msg(1, "owner", "q", 10),
        msg(2, "userA", "a1", 20),
        msg(3, "userB", "b1", 30),
        msg(2, "userA", "a2", 40),
    ];
    assert!(matches!(attribute_first_response(&history), AttributionOutcome::NoAction));
}

#[test]
fn candidate_with_two_messages_is_skipped() {
    // The sole responder already posted twice: attribution does not fire.
    let history = vec![
        msg(1, "owner", "q", 10),
        msg(2, "userA", "a1", 20),
        msg(2, "userA", "a2", 30),
    ];
    assert!(matches!(attribute_first_response(&history), AttributionOutcome::NoAction));
}

#[test]
fn owner_monologue_yields_no_attribution() {
    let history = vec![
        msg(1, "owner", "q", 10),
        msg(1, "owner", "more detail", 20),
        msg(1, "owner", "anyone?", 30),
    ];
    assert!(matches!(attribute_first_response(&history), AttributionOutcome::NoAction));
}

#[test]
fn equal_timestamps_break_ties_by_delivery_order() {
    // Both replies carry the same timestamp: the scan order decides, so
    // the earlier-delivered reply wins.
    let history = vec![msg(1, "owner", "q", 10), msg(5, "early", "first", 20), msg(6, "late", "second", 20)];
    // Two distinct responders exist, so nothing fires here; with a single
    // responder at an equal timestamp the first delivered is chosen.
    assert!(matches!(attribute_first_response(&history), AttributionOutcome::NoAction));
    let single = vec![msg(1, "owner", "q", 20), msg(5, "early", "same instant", 20)];
    match attribute_first_response(&single) {
        AttributionOutcome::FirstResponse { responder_id, .. } => assert_eq!(responder_id, 5),
        _ => panic!("expected attribution despite the equal timestamps"),
    }
}
