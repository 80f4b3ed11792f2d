use julezz::activity::{
    Activity, AgentMessaged, PlanApproved, PlanGenerated, ProgressUpdated,
};
use julezz::errors::JulesError;
use julezz::watcher::{
    Notification, NotificationContent, NotificationCursors, SweepItem,
};

fn base_activity(id: &str, originator: &str) -> Activity {
    Activity {
        name: format!("activities/{id}"),
        id: id.to_string(),
        title: None,
        create_time: "2024-01-01T00:00:00Z".to_string(),
        originator: originator.to_string(),
        agent_messaged: None,
        user_messaged: None,
        plan_generated: None,
        plan_approved: None,
        progress_updated: None,
        session_completed: None,
        artifacts: None,
    }
}

fn agent_message(id: &str, text: &str) -> Activity {
    let mut a = base_activity(id, "agent");
    a.agent_messaged = Some(AgentMessaged { agent_message: text.to_string() });
    a
}

#[test]
fn announces_newest_agent_message_once() {
    let mut cursors = NotificationCursors::new();
    let log = vec![
        base_activity("u1", "user"),
        agent_message("a1", "first"),
        agent_message("a2", "second"),
        base_activity("u2", "user"),
    ];

    // First tick: the newest agent activity a2 is announced.
    let first = cursors.observe("sessions/S", &log);
    assert_eq!(
        first,
        Some(NotificationContent::AgentMessage { message: "second".to_string() })
    );

    // Ticks with an unchanged newest agent activity stay silent.
    for _ in 0..5 {
        assert_eq!(cursors.observe("sessions/S", &log), None);
    }

    // A new agent activity is announced exactly once more.
    let mut grown = log.clone();
    grown.push(agent_message("a3", "third"));
    assert_eq!(
        cursors.observe("sessions/S", &grown),
        Some(NotificationContent::AgentMessage { message: "third".to_string() })
    );
    assert_eq!(cursors.observe("sessions/S", &grown), None);
}

#[test]
fn no_agent_activity_no_notification() {
    let mut cursors = NotificationCursors::new();
    let log = vec![base_activity("u1", "user"), base_activity("u2", "user")];
    assert_eq!(cursors.observe("sessions/S", &log), None);
}

#[test]
fn unannounced_kinds_advance_silently() {
    let mut cursors = NotificationCursors::new();
    let mut approved = base_activity("a1", "agent");
    approved.plan_approved = Some(PlanApproved {});
    let log = vec![approved];

    // A plan approval is not announced, but the cursor still advances.
    assert_eq!(cursors.observe("sessions/S", &log), None);
    assert_eq!(cursors.observe("sessions/S", &log), None);
}

#[test]
fn kind_selection() {
    let mut cursors = NotificationCursors::new();

    let mut plan = base_activity("p1", "agent");
    plan.plan_generated = Some(PlanGenerated {});
    assert_eq!(
        cursors.observe("sessions/S", &vec![plan]),
        Some(NotificationContent::PlanGenerated)
    );

    let mut progress = base_activity("p2", "agent");
    progress.progress_updated = Some(ProgressUpdated {
        title: Some("building".to_string()),
        description: None,
    });
    assert_eq!(
        cursors.observe("sessions/S", &vec![progress]),
        Some(NotificationContent::Progress { title: Some("building".to_string()) })
    );

    let mut artifacts = base_activity("p3", "agent");
    artifacts.artifacts = Some(julezz::activity::ArtifactsAdded {});
    assert_eq!(
        cursors.observe("sessions/S", &vec![artifacts]),
        Some(NotificationContent::NewArtifacts)
    );
}

#[test]
fn sessions_are_tracked_independently() {
    let mut cursors = NotificationCursors::new();
    let log = vec![agent_message("a1", "hello")];
    assert!(cursors.observe("sessions/S1", &log).is_some());
    // The other session has its own cursor.
    assert!(cursors.observe("sessions/S2", &log).is_some());
    assert_eq!(cursors.observe("sessions/S1", &log), None);
    assert_eq!(cursors.observe("sessions/S2", &log), None);
}

#[test]
fn tick_skips_failed_sessions_and_retries() {
    let mut cursors = NotificationCursors::new();
    let items = vec![
        SweepItem {
            session_id: "sessions/OK".to_string(),
            log: Ok(vec![agent_message("a1", "ready")]),
        },
        SweepItem {
            session_id: "sessions/DOWN".to_string(),
            log: Err(JulesError::TransportError { message: "unreachable".to_string() }),
        },
    ];
    let notifications = cursors.watcher_tick(&items);
    assert_eq!(
        notifications,
        vec![Notification {
            session_id: "sessions/OK".to_string(),
            content: NotificationContent::AgentMessage { message: "ready".to_string() },
        }]
    );

    // Next tick: the healthy session is quiet, the recovered one is
    // announced because its cursor never advanced.
    let items2 = vec![
        SweepItem {
            session_id: "sessions/OK".to_string(),
            log: Ok(vec![agent_message("a1", "ready")]),
        },
        SweepItem {
            session_id: "sessions/DOWN".to_string(),
            log: Ok(vec![agent_message("d1", "back")]),
        },
    ];
    let notifications2 = cursors.watcher_tick(&items2);
    assert_eq!(
        notifications2,
        vec![Notification {
            session_id: "sessions/DOWN".to_string(),
            content: NotificationContent::AgentMessage { message: "back".to_string() },
        }]
    );
}

#[test]
fn markdown_escaping() {
    let text: Vec<char> = "a_b*c.d!e plain".chars().collect();
    let escaped: String = julezz::watcher::escape_markdown_v2(&text).into_iter().collect();
    assert_eq!(escaped, "a\\_b\\*c\\.d\\!e plain");
    let empty: Vec<char> = Vec::new();
    assert!(julezz::watcher::escape_markdown_v2(&empty).is_empty());
}

#[test]
fn tick_emits_at_most_one_per_session() {
    let mut cursors = NotificationCursors::new();
    let items = vec![SweepItem {
        session_id: "sessions/S".to_string(),
        log: Ok(vec![
            agent_message("a1", "one"),
            agent_message("a2", "two"),
            agent_message("a3", "three"),
        ]),
    }];
    let notifications = cursors.watcher_tick(&items);
    assert_eq!(notifications.len(), 1);
    assert_eq!(
        notifications[0].content,
        NotificationContent::AgentMessage { message: "three".to_string() }
    );
}
