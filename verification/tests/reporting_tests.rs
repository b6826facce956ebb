use shuttlebot::{ActionOutcome, IssueStore};

const DAY: i64 = 86400;

fn seeded_store() -> IssueStore {
    let mut store = IssueStore::new();
    // Three threads opened on three different days.
    for (id, day) in [(1u64, 10i64), (2, 10), (3, 12)] {
        let outcome = store.create_record(
            id,
            format!("https://discord.com/channels/9/{id}"),
            vec!["help".to_string()],
            day * DAY + 100,
        );
        assert_eq!(outcome, ActionOutcome::Applied);
    }
    store
}

#[test]
fn issue_list_reports_every_record() {
    let mut store = seeded_store();
    store
        .record_initial_message(1, "alice".to_string(), "q".to_string())
        .unwrap();
    store.record_first_response(1, "bob".to_string(), 10 * DAY + 200).unwrap();
    store.set_severity(1, 2).unwrap();
    let issues = store.get_all_issues();
    assert_eq!(issues.len(), 3);
    assert_eq!(issues[0].original_poster.as_deref(), Some("alice"));
    assert_eq!(issues[0].first_responder.as_deref(), Some("bob"));
    assert_eq!(issues[0].severity, 2);
    assert_eq!(issues[0].discord_thread_link, "https://discord.com/channels/9/1");
    assert_eq!(issues[0].creation_date, 10);
    assert_eq!(issues[0].categories, Some(vec!["help".to_string()]));
    assert_eq!(issues[2].creation_date, 12);
    assert!(issues[2].first_responder.is_none());
}

#[test]
fn awaiting_response_counts() {
    let mut store = seeded_store();
    store.record_first_response(1, "bob".to_string(), 10 * DAY + 200).unwrap();
    store.elevate(2, "https://github.com/o/r/issues/1".to_string()).unwrap();
    store.resolve(3, "dana".to_string(), 5, 2, 12 * DAY + 300).unwrap();
    let awaiting = store.get_issues_awaiting_response();
    // Threads 2 and 3 have no first responder.
    assert_eq!(awaiting.unanswered_threads, 2);
    // Threads 1 and 2 are unresolved.
    assert_eq!(awaiting.unresolved_issues, 2);
    // Thread 2 is elevated and unresolved.
    assert_eq!(awaiting.unresolved_github_issues, 1);
}

#[test]
fn issues_opened_per_day_newest_first() {
    let store = seeded_store();
    let rows = store.get_issues_opened_last_7_days(12);
    assert_eq!(rows.len(), 7);
    assert_eq!(rows[0].day, 12);
    assert_eq!(rows[0].total_issues_per_day, 1);
    assert_eq!(rows[1].day, 11);
    assert_eq!(rows[1].total_issues_per_day, 0);
    assert_eq!(rows[2].day, 10);
    assert_eq!(rows[2].total_issues_per_day, 2);
    for k in 3..7 {
        assert_eq!(rows[k].day, 12 - k as i64);
        assert_eq!(rows[k].total_issues_per_day, 0);
    }
}

#[test]
fn creation_day_is_bucketed_by_whole_days() {
    let mut store = IssueStore::new();
    // One second before midnight still belongs to day 10; midnight itself
    // opens day 11.
    store.create_record(1, "t1".to_string(), vec![], 11 * DAY - 1);
    store.create_record(2, "t2".to_string(), vec![], 11 * DAY);
    let rows = store.get_issues_opened_last_7_days(11);
    assert_eq!(rows[0].day, 11);
    assert_eq!(rows[0].total_issues_per_day, 1);
    assert_eq!(rows[1].day, 10);
    assert_eq!(rows[1].total_issues_per_day, 1);
}

#[test]
fn weekly_stats_bucket_issue_counts() {
    let mut store = IssueStore::new();
    // Day 100 falls in week 0 of today=100; day 92 in week 1; day 80 in week 2.
    for (id, day) in [(1u64, 100i64), (2, 99), (3, 92), (4, 80)] {
        let outcome = store.create_record(id, format!("t{id}"), vec![], day * DAY);
        assert_eq!(outcome, ActionOutcome::Applied);
    }
    let rows = store.get_last_four_weeks_stats(100);
    assert_eq!(rows.len(), 4);
    assert_eq!(rows[0].date_range, 94);
    assert_eq!(rows[0].total_issues, 2);
    assert_eq!(rows[1].date_range, 87);
    assert_eq!(rows[1].total_issues, 1);
    assert_eq!(rows[2].date_range, 80);
    assert_eq!(rows[2].total_issues, 1);
    assert_eq!(rows[3].date_range, 73);
    assert_eq!(rows[3].total_issues, 0);
}

#[test]
fn weekly_stats_global_counters() {
    let mut store = seeded_store();
    store.elevate(1, "https://github.com/o/r/issues/1".to_string()).unwrap();
    store.resolve(1, "dana".to_string(), 60, 3, 10 * DAY + 500).unwrap();
    store.resolve(2, "dana".to_string(), 8, 2, 10 * DAY + 900).unwrap();
    let rows = store.get_last_four_weeks_stats(12);
    assert_eq!(rows[0].total_elevated_issues, 1);
    assert_eq!(rows[0].total_resolved_issues, 2);
    // message_count > 6 and participant_count >= 2 holds for both resolved.
    assert_eq!(rows[0].total_one_touch_threads, 2);
    // message_count > 50 holds for thread 1 only.
    assert_eq!(rows[0].extended_threads, 1);
    // Every row repeats the repository-wide totals.
    assert_eq!(rows[3].total_resolved_issues, 2);
}

#[test]
fn average_response_time_is_the_mean_of_answered_threads() {
    let mut store = seeded_store();
    let rows_before = store.get_last_four_weeks_stats(12);
    assert_eq!(rows_before[0].average_response_time, None);
    // Thread 1 answered after 100 s, thread 2 after 301 s: mean 200 (floor).
    store.record_first_response(1, "bob".to_string(), 10 * DAY + 200).unwrap();
    store.record_first_response(2, "carol".to_string(), 10 * DAY + 401).unwrap();
    let rows = store.get_last_four_weeks_stats(12);
    assert_eq!(rows[0].average_response_time, Some(200));
}

#[test]
fn best_performers_by_count_with_first_seen_tiebreak() {
    let mut store = IssueStore::new();
    for id in 1u64..=5 {
        store.create_record(id, format!("t{id}"), vec![], 100);
    }
    store.record_first_response(1, "bob".to_string(), 150).unwrap();
    store.record_first_response(2, "carol".to_string(), 160).unwrap();
    store.record_first_response(3, "carol".to_string(), 170).unwrap();
    store.resolve(1, "dana".to_string(), 5, 2, 200).unwrap();
    store.resolve(2, "erin".to_string(), 5, 2, 210).unwrap();
    let rows = store.get_last_four_weeks_stats(3);
    // carol answered twice, bob once.
    assert_eq!(rows[0].best_first_responder.as_deref(), Some("carol"));
    // dana and erin resolved once each: the first seen wins the tie.
    assert_eq!(rows[0].best_solver.as_deref(), Some("dana"));
}

#[test]
fn dashboard_combines_the_three_reports() {
    let mut store = seeded_store();
    store.record_first_response(1, "bob".to_string(), 10 * DAY + 200).unwrap();
    let data = store.dashboard(12);
    assert_eq!(data.last_four_weeks_stats.len(), 4);
    assert_eq!(data.issues_opened_last_week.len(), 7);
    assert_eq!(data.issues_awaiting_response.unanswered_threads, 2);
    assert_eq!(data.last_four_weeks_stats[0].best_first_responder.as_deref(), Some("bob"));
}
