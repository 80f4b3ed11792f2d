use julezz::activity::Activity;
use julezz::sync::{ActivityPage, ActivitySyncState, SyncRun};

fn act(id: &str) -> Activity {
    Activity {
        name: format!("activities/{id}"),
        id: id.to_string(),
        title: None,
        create_time: format!("2024-01-01T00:00:{id}Z"),
        originator: "user".to_string(),
        agent_messaged: None,
        user_messaged: None,
        plan_generated: None,
        plan_approved: None,
        progress_updated: None,
        session_completed: None,
        artifacts: None,
    }
}

fn acts(lo: usize, hi: usize) -> Vec<Activity> {
    (lo..hi).map(|n| act(&format!("{n:03}"))).collect()
}

fn page(lo: usize, hi: usize, next: Option<&str>) -> ActivityPage {
    ActivityPage { activities: acts(lo, hi), next_page_token: next.map(str::to_string) }
}

fn ids(log: &[Activity]) -> Vec<String> {
    log.iter().map(|a| a.id.clone()).collect()
}

#[test]
fn scenario_first_sync_then_grown_tail() {
    // The remote log holds three sealed pages of ten activities and a
    // four-activity tail.
    let run = vec![
        page(0, 10, Some("t1")),
        page(10, 20, Some("t2")),
        page(20, 30, Some("t3")),
        page(30, 34, None),
    ];
    let state = ActivitySyncState::new().apply_pages(run);
    assert_eq!(state.stable.len(), 30);
    assert_eq!(state.tail.len(), 4);
    assert_eq!(state.continuation_token, Some("t3".to_string()));
    let log = state.read_cached();
    assert_eq!(log.len(), 34);
    assert_eq!(ids(&log), ids(&acts(0, 34)));

    // Later the tail grew to six activities and no new page was sealed:
    // the resumed sync re-fetches only the tail page.
    let state2 = state.apply_pages(vec![page(30, 36, None)]);
    assert_eq!(state2.stable.len(), 30);
    assert_eq!(state2.tail.len(), 6);
    assert_eq!(state2.continuation_token, Some("t3".to_string()));
    let log2 = state2.read_cached();
    assert_eq!(log2.len(), 36);
    assert_eq!(ids(&log2), ids(&acts(0, 36)));
}

#[test]
fn sync_is_idempotent_without_new_activity() {
    let state = ActivitySyncState::new().apply_pages(vec![
        page(0, 10, Some("t1")),
        page(10, 13, None),
    ]);
    let log_before = state.read_cached();
    let stable_before = ids(&state.stable);

    // The server answers the resume request with the unchanged tail.
    let again = vec![ActivityPage {
        activities: state.tail.iter().map(|a| act(&a.id)).collect(),
        next_page_token: None,
    }];
    let state2 = state.apply_pages(again);
    assert_eq!(ids(&state2.stable), stable_before);
    assert_eq!(ids(&state2.read_cached()), ids(&log_before));
    assert_eq!(state2.continuation_token, Some("t1".to_string()));
}

#[test]
fn tail_growth_appends_exactly_the_new_entries() {
    let state = ActivitySyncState::new().apply_pages(vec![
        page(0, 10, Some("t1")),
        page(10, 12, None),
    ]);
    let log_before = state.read_cached();
    let stable_before = ids(&state.stable);

    let state2 = state.apply_pages(vec![page(10, 15, None)]);
    assert_eq!(ids(&state2.stable), stable_before);
    let log_after = state2.read_cached();
    assert_eq!(log_after.len(), log_before.len() + 3);
    assert_eq!(ids(&log_after[..log_before.len()]), ids(&log_before));
    assert_eq!(ids(&log_after[log_before.len()..]), ids(&acts(12, 15)));
}

#[test]
fn tail_split_moves_entries_into_stable() {
    // First sync: a lone, still-open first page.
    let state = ActivitySyncState::new().apply_pages(vec![page(0, 8, None)]);
    assert_eq!(state.continuation_token, None);
    assert_eq!(state.stable.len(), 0);

    // The page filled up and was sealed; a new tail began after it.
    let state2 = state.apply_pages(vec![page(0, 10, Some("t1")), page(10, 12, None)]);
    assert_eq!(state2.stable.len(), 10);
    assert_eq!(state2.tail.len(), 2);
    assert_eq!(state2.continuation_token, Some("t1".to_string()));
    assert_eq!(ids(&state2.read_cached()), ids(&acts(0, 12)));
}

#[test]
fn resumed_sync_seals_the_old_tail() {
    let state = ActivitySyncState::new().apply_pages(vec![
        page(0, 10, Some("t1")),
        page(10, 14, None),
    ]);
    assert_eq!(state.continuation_token, Some("t1".to_string()));

    // By the next sync the old tail page filled up and was sealed; the
    // resume request gets the full page plus a token to the new tail.
    let state2 = state.apply_pages(vec![page(10, 20, Some("t2")), page(20, 22, None)]);
    assert_eq!(state2.stable.len(), 20);
    assert_eq!(state2.tail.len(), 2);
    assert_eq!(state2.continuation_token, Some("t2".to_string()));
    assert_eq!(ids(&state2.read_cached()), ids(&acts(0, 22)));
}

#[test]
fn step_machine_matches_apply_pages() {
    let state_a = ActivitySyncState::new().apply_pages(vec![
        page(0, 10, Some("t1")),
        page(10, 20, Some("t2")),
        page(20, 23, None),
    ]);

    let mut run = SyncRun::begin(ActivitySyncState::new());
    assert_eq!(run.request_token(), &None);
    run.feed_sealed(page(0, 10, Some("t1")));
    assert_eq!(run.request_token(), &Some("t1".to_string()));
    run.feed_sealed(page(10, 20, Some("t2")));
    assert_eq!(run.request_token(), &Some("t2".to_string()));
    let state_b = run.finish(page(20, 23, None));

    assert_eq!(state_a, state_b);
}

#[test]
fn read_cached_is_stable_then_tail() {
    let state = ActivitySyncState {
        stable: acts(0, 3),
        tail: acts(3, 5),
        continuation_token: Some("t".to_string()),
    };
    assert_eq!(ids(&state.read_cached()), ids(&acts(0, 5)));
}

#[test]
fn empty_state_reads_empty_log() {
    let state = ActivitySyncState::new();
    assert!(state.read_cached().is_empty());
    assert_eq!(state.continuation_token, None);
}
