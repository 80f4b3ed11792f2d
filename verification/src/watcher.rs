//! The background notification watcher's decision logic.
//!
//! On a timer, the watcher syncs every session's log and announces the
//! newest agent-originated activity — at most once per activity.  The
//! per-session cursor holds the ID of the activity last announced; it is
//! process-local, so a restart may re-announce the most recent activity
//! exactly once.  This module decides, from a cursor record and freshly
//! synced logs, which notifications to emit and how the cursors advance;
//! the timer, the syncing and the delivery of notifications are the
//! caller's job.  A session whose sync failed is skipped for the tick
//! and its cursor stands still, so the same activity is retried on the
//! next tick.

use vstd::prelude::*;
use crate::activity::{clone_opt_string, Activity};
use crate::errors::JulesError;
use crate::strmap::{map_lookup, StrMap, StrMapEntry};

verus! {

/// What a notification announces about the newest agent activity.
#[derive(Debug, PartialEq, Eq)]
pub enum NotificationContent {
    /// The agent sent a message.
    AgentMessage { message: String },
    /// The agent generated a plan.
    PlanGenerated,
    /// The agent posted a progress update, with its title if any.
    Progress { title: Option<String> },
    /// The activity carries a fresh set of artifacts.
    NewArtifacts,
}

impl Clone for NotificationContent {
    fn clone(&self) -> (r: Self)
        ensures
            r == *self,
    {
        match self {
            NotificationContent::AgentMessage { message } => NotificationContent::AgentMessage {
                message: message.clone(),
            },
            NotificationContent::PlanGenerated => NotificationContent::PlanGenerated,
            NotificationContent::Progress { title } => NotificationContent::Progress {
                title: clone_opt_string(title),
            },
            NotificationContent::NewArtifacts => NotificationContent::NewArtifacts,
        }
    }
}

/// The last activity of the log that originated from the agent.
pub open spec fn last_agent(log: Seq<Activity>) -> Option<Activity>
    decreases log.len(),
{
    if log.len() == 0 {
        None
    } else if log.last().is_agent() {
        Some(log.last())
    } else {
        last_agent(log.drop_last())
    }
}

/// What a notification for `a` announces; `None` for the kinds that are
/// not announced.
pub open spec fn spec_content(a: Activity) -> Option<NotificationContent> {
    if a.agent_messaged is Some {
        Some(
            NotificationContent::AgentMessage {
                message: a.agent_messaged->0.agent_message,
            },
        )
    } else if a.plan_generated is Some {
        Some(NotificationContent::PlanGenerated)
    } else if a.progress_updated is Some {
        Some(NotificationContent::Progress { title: a.progress_updated->0.title })
    } else if a.artifacts is Some {
        Some(NotificationContent::NewArtifacts)
    } else {
        None
    }
}

/// The characters of an optional string.
pub open spec fn opt_view(o: Option<String>) -> Option<Seq<char>> {
    match o {
        None => None,
        Some(s) => Some(s@),
    }
}

/// The cursor after one observation of a session's log: it advances to
/// the newest agent activity, or stands still when there is none.
pub open spec fn tick_cursor(prev: Option<Seq<char>>, log: Seq<Activity>) -> Option<Seq<char>> {
    match last_agent(log) {
        None => prev,
        Some(a) => Some(a.id@),
    }
}

/// Whether one observation emits a notification: the newest agent
/// activity exists, is not the one already announced, and has an
/// announced kind.
pub open spec fn tick_emits(prev: Option<Seq<char>>, log: Seq<Activity>) -> bool {
    match last_agent(log) {
        None => false,
        Some(a) => prev != Some(a.id@) && spec_content(a) is Some,
    }
}

/// The watcher's process-local cursor record: per session, the ID of
/// the newest agent activity already announced.
#[derive(Debug, PartialEq, Eq)]
pub struct NotificationCursors {
    pub cursors: StrMap,
}

impl NotificationCursors {
    /// The cursor keys are pairwise distinct.
    pub open spec fn wf(self) -> bool {
        self.cursors.wf()
    }

    /// The cursor of one session.
    pub open spec fn spec_cursor(self, session: Seq<char>) -> Option<Seq<char>> {
        opt_view(map_lookup(self.cursors.entries@, session))
    }

    /// The empty record every process starts from.
    pub fn new() -> (r: NotificationCursors)
        ensures
            r.cursors.entries@ == Seq::<StrMapEntry>::empty(),
            r.wf(),
    {
        NotificationCursors { cursors: StrMap::new() }
    }

    /// Observes one session's freshly synced log: advances the cursor to
    /// the newest agent activity and returns what to announce, or
    /// `None` when there is nothing new to say.
    pub fn observe(&mut self, session_id: &str, log: &Vec<Activity>) -> (r: Option<
        NotificationContent,
    >)
        requires
            old(self).wf(),
        ensures
            final(self).wf(),
            final(self).spec_cursor(session_id@) == tick_cursor(
                old(self).spec_cursor(session_id@),
                log@,
            ),
            forall|k: Seq<char>| k != session_id@ ==> final(self).spec_cursor(k) == old(
                self,
            ).spec_cursor(k),
            (r is Some) == tick_emits(old(self).spec_cursor(session_id@), log@),
            r is Some ==> r == spec_content(last_agent(log@)->0),
    {
        let mut i: usize = log.len();
        proof {
            assert(log@.take(log@.len() as int) =~= log@);
        }
        while i > 0
            invariant
                i <= log@.len(),
                last_agent(log@) == last_agent(log@.take(i as int)),
                *self == *old(self),
                old(self).wf(),
            decreases i,
        {
            proof {
                assert(log@.take(i as int).last() == log@[i - 1]);
                assert(log@.take(i as int).drop_last() =~= log@.take(i - 1));
            }
            if log[i - 1].from_agent() {
                let a = &log[i - 1];
                proof {
                    assert(last_agent(log@) == Some(log@[i - 1]));
                }
                let prev = self.cursors.get(session_id);
                let same: bool = match &prev {
                    Some(p) => *p == a.id,
                    None => false,
                };
                if same {
                    return None;
                }
                self.cursors.insert(session_id.to_owned(), a.id.clone());
                let content: Option<NotificationContent> = if let Some(am) = &a.agent_messaged {
                    Some(NotificationContent::AgentMessage { message: am.agent_message.clone() })
                } else if a.plan_generated.is_some() {
                    Some(NotificationContent::PlanGenerated)
                } else if let Some(p) = &a.progress_updated {
                    Some(NotificationContent::Progress { title: clone_opt_string(&p.title) })
                } else if a.artifacts.is_some() {
                    Some(NotificationContent::NewArtifacts)
                } else {
                    None
                };
                return content;
            }
            i = i - 1;
        }
        proof {
            assert(log@.take(0) =~= Seq::<Activity>::empty());
            assert(last_agent(log@) is None);
        }
        None
    }
}

/// One session's sync outcome, handed to a watcher tick.
#[derive(Debug)]
pub struct SweepItem {
    /// The session the log belongs to.
    pub session_id: String,
    /// The freshly synced full log, or the error that sync ended in.
    pub log: Result<Vec<Activity>, JulesError>,
}

/// One notification a tick decided to emit.
#[derive(Debug, PartialEq, Eq)]
pub struct Notification {
    /// The session the notification is about.
    pub session_id: String,
    /// What it announces.
    pub content: NotificationContent,
}

/// Whether some item carries the session ID `k`.
pub open spec fn items_have_id(items: Seq<SweepItem>, k: Seq<char>) -> bool {
    exists|t: int| 0 <= t < items.len() && items[t].session_id@ == k
}

/// What one item does to its session's cursor: a failed sync leaves it
/// in place, so the same activity is retried next tick.
pub open spec fn item_cursor(prev: Option<Seq<char>>, item: SweepItem) -> Option<Seq<char>> {
    match item.log {
        Ok(log) => tick_cursor(prev, log@),
        Err(_) => prev,
    }
}

/// Whether one item emits a notification, its session's cursor standing
/// at `prev`.
pub open spec fn item_emits(prev: Option<Seq<char>>, item: SweepItem) -> bool {
    match item.log {
        Ok(log) => tick_emits(prev, log@),
        Err(_) => false,
    }
}

/// The notification one emitting item sends.
pub open spec fn item_notification(item: SweepItem) -> Notification {
    Notification {
        session_id: item.session_id,
        content: spec_content(last_agent((item.log->Ok_0)@)->0)->0,
    }
}

/// The notifications of one tick over `items`, every session's cursor
/// read from `c0` — which is faithful because a tick visits each
/// session at most once.
pub open spec fn sweep_notifications(c0: Seq<StrMapEntry>, items: Seq<SweepItem>) -> Seq<
    Notification,
>
    decreases items.len(),
{
    if items.len() == 0 {
        Seq::empty()
    } else {
        let prev = opt_view(map_lookup(c0, items[0].session_id@));
        (if item_emits(prev, items[0]) {
            seq![item_notification(items[0])]
        } else {
            Seq::empty()
        }) + sweep_notifications(c0, items.drop_first())
    }
}

/// Appending one item appends its notifications, if any.
pub proof fn lemma_sweep_push(c0: Seq<StrMapEntry>, items: Seq<SweepItem>, it: SweepItem)
    ensures
        sweep_notifications(c0, items.push(it)) == sweep_notifications(c0, items) + (
        if item_emits(opt_view(map_lookup(c0, it.session_id@)), it) {
            seq![item_notification(it)]
        } else {
            Seq::<Notification>::empty()
        }),
    decreases items.len(),
{
    reveal_with_fuel(sweep_notifications, 2);
    if items.len() == 0 {
        assert(items.push(it)[0] == it);
        assert(items.push(it).drop_first() =~= Seq::<SweepItem>::empty());
        if item_emits(opt_view(map_lookup(c0, it.session_id@)), it) {
            assert(sweep_notifications(c0, items.push(it)) =~= sweep_notifications(c0, items)
                + seq![item_notification(it)]);
        } else {
            assert(sweep_notifications(c0, items.push(it)) =~= sweep_notifications(c0, items));
        }
    } else {
        assert(items.push(it)[0] == items[0]);
        assert(items.push(it).drop_first() =~= items.drop_first().push(it));
        lemma_sweep_push(c0, items.drop_first(), it);
        let head = if item_emits(opt_view(map_lookup(c0, items[0].session_id@)), items[0]) {
            seq![item_notification(items[0])]
        } else {
            Seq::<Notification>::empty()
        };
        let tail_n = sweep_notifications(c0, items.drop_first());
        let extra = if item_emits(opt_view(map_lookup(c0, it.session_id@)), it) {
            seq![item_notification(it)]
        } else {
            Seq::<Notification>::empty()
        };
        assert(head + (tail_n + extra) =~= (head + tail_n) + extra);
    }
}

impl NotificationCursors {
    /// Runs one watcher tick over the sync outcomes of all sessions, in
    /// listing order.  A session whose sync failed is skipped: no
    /// notification, cursor untouched.  Every other session's cursor
    /// advances to its newest agent activity, and the notifications to
    /// deliver come back in session order — at most one per session.
    pub fn watcher_tick(&mut self, items: &Vec<SweepItem>) -> (notifications: Vec<Notification>)
        requires
            old(self).wf(),
            forall|t1: int, t2: int| 0 <= t1 < t2 < items@.len() ==> items@[t1].session_id@
                != items@[t2].session_id@,
        ensures
            final(self).wf(),
            notifications@ == sweep_notifications(old(self).cursors.entries@, items@),
            forall|t: int| 0 <= t < items@.len() ==> final(self).spec_cursor(
                (#[trigger] items@[t]).session_id@,
            ) == item_cursor(old(self).spec_cursor(items@[t].session_id@), items@[t]),
            forall|k: Seq<char>| !items_have_id(items@, k) ==> #[trigger] final(self).spec_cursor(
                k,
            ) == old(self).spec_cursor(k),
    {
        let ghost c0 = self.cursors.entries@;
        let mut notifications: Vec<Notification> = Vec::new();
        let mut i: usize = 0;
        proof {
            assert(items@.take(0) =~= Seq::<SweepItem>::empty());
        }
        while i < items.len()
            invariant
                i <= items@.len(),
                self.wf(),
                c0 == old(self).cursors.entries@,
                forall|t1: int, t2: int| 0 <= t1 < t2 < items@.len() ==> items@[t1].session_id@
                    != items@[t2].session_id@,
                notifications@ == sweep_notifications(c0, items@.take(i as int)),
                forall|t: int| 0 <= t < i ==> self.spec_cursor(
                    (#[trigger] items@[t]).session_id@,
                ) == item_cursor(opt_view(map_lookup(c0, items@[t].session_id@)), items@[t]),
                forall|k: Seq<char>| !items_have_id(items@.take(i as int), k)
                    ==> #[trigger] self.spec_cursor(k) == opt_view(map_lookup(c0, k)),
            decreases items@.len() - i,
        {
            let ghost prefix = items@.take(i as int);
            let item = &items[i];
            proof {
                lemma_sweep_push(c0, prefix, items@[i as int]);
                assert(prefix.push(items@[i as int]) =~= items@.take(i + 1 as int));
                if items_have_id(prefix, item.session_id@) {
                    let t = choose|t: int|
                        0 <= t < prefix.len() && prefix[t].session_id@ == item.session_id@;
                    assert(items@[t].session_id@ == items@[i as int].session_id@);
                    assert(false);
                }
                assert(self.spec_cursor(item.session_id@) == opt_view(
                    map_lookup(c0, item.session_id@),
                ));
            }
            let ghost before = *self;
            match &item.log {
                Ok(log) => {
                    let r = self.observe(item.session_id.as_str(), log);
                    if let Some(content) = r {
                        notifications.push(
                            Notification { session_id: item.session_id.clone(), content },
                        );
                        proof {
                            assert(notifications@ =~= sweep_notifications(c0, prefix) + seq![
                                item_notification(items@[i as int])
                            ]);
                        }
                    }
                },
                Err(_) => {},
            }
            proof {
                assert forall|t: int| 0 <= t < i + 1 implies self.spec_cursor(
                    (#[trigger] items@[t]).session_id@,
                ) == item_cursor(opt_view(map_lookup(c0, items@[t].session_id@)), items@[t]) by {
                    if t < i {
                        assert(items@[t].session_id@ != items@[i as int].session_id@);
                        assert(before.spec_cursor(items@[t].session_id@) == item_cursor(
                            opt_view(map_lookup(c0, items@[t].session_id@)),
                            items@[t],
                        ));
                    }
                }
                assert forall|k: Seq<char>| !items_have_id(items@.take(i + 1 as int), k)
                    implies #[trigger] self.spec_cursor(k) == opt_view(map_lookup(c0, k)) by {
                    assert(items@.take(i + 1 as int)[i as int] == items@[i as int]);
                    assert(k != items@[i as int].session_id@);
                    if items_have_id(prefix, k) {
                        let t = choose|t: int|
                            0 <= t < prefix.len() && prefix[t].session_id@ == k;
                        assert(items@.take(i + 1 as int)[t] == prefix[t]);
                        assert(false);
                    }
                }
            }
            i = i + 1;
        }
        proof {
            assert(items@.take(items@.len() as int) =~= items@);
        }
        notifications
    }
}

/// Whether the chat transport's markdown dialect reserves `c`, so that
/// notification text must escape it.
pub open spec fn needs_escape(c: char) -> bool {
    ||| c == '_'
    ||| c == '*'
    ||| c == '['
    ||| c == ']'
    ||| c == '('
    ||| c == ')'
    ||| c == '~'
    ||| c == '`'
    ||| c == '>'
    ||| c == '#'
    ||| c == '+'
    ||| c == '-'
    ||| c == '='
    ||| c == '|'
    ||| c == '{'
    ||| c == '}'
    ||| c == '.'
    ||| c == '!'
}

/// `s` with a backslash put before every reserved character.
pub open spec fn escaped_chars(s: Seq<char>) -> Seq<char>
    decreases s.len(),
{
    if s.len() == 0 {
        Seq::empty()
    } else {
        (if needs_escape(s[0]) {
            seq!['\\', s[0]]
        } else {
            seq![s[0]]
        }) + escaped_chars(s.drop_first())
    }
}

/// Appending one character appends its escape.
pub proof fn lemma_escaped_chars_push(s: Seq<char>, c: char)
    ensures
        escaped_chars(s.push(c)) == escaped_chars(s) + (if needs_escape(c) {
            seq!['\\', c]
        } else {
            seq![c]
        }),
    decreases s.len(),
{
    reveal_with_fuel(escaped_chars, 2);
    let chunk = if needs_escape(c) {
        seq!['\\', c]
    } else {
        seq![c]
    };
    if s.len() == 0 {
        assert(s.push(c)[0] == c);
        assert(s.push(c).drop_first() =~= Seq::<char>::empty());
        assert(escaped_chars(s.push(c)) =~= escaped_chars(s) + chunk);
    } else {
        assert(s.push(c)[0] == s[0]);
        assert(s.push(c).drop_first() =~= s.drop_first().push(c));
        lemma_escaped_chars_push(s.drop_first(), c);
        let head = if needs_escape(s[0]) {
            seq!['\\', s[0]]
        } else {
            seq![s[0]]
        };
        assert(head + (escaped_chars(s.drop_first()) + chunk) =~= (head + escaped_chars(
            s.drop_first(),
        )) + chunk);
    }
}

/// Escapes the characters the chat transport's markdown dialect
/// reserves, character by character.
pub fn escape_markdown_v2(text: &Vec<char>) -> (r: Vec<char>)
    ensures
        r@ == escaped_chars(text@),
{
    let mut out: Vec<char> = Vec::new();
    let mut i: usize = 0;
    proof {
        assert(text@.take(0) =~= Seq::<char>::empty());
    }
    while i < text.len()
        invariant
            i <= text@.len(),
            out@ == escaped_chars(text@.take(i as int)),
        decreases text@.len() - i,
    {
        let ghost prefix = text@.take(i as int);
        let c = text[i];
        proof {
            lemma_escaped_chars_push(prefix, text@[i as int]);
            assert(prefix.push(text@[i as int]) =~= text@.take(i + 1 as int));
        }
        let reserved = c == '_' || c == '*' || c == '[' || c == ']' || c == '(' || c == ')'
            || c == '~' || c == '`' || c == '>' || c == '#' || c == '+' || c == '-' || c == '='
            || c == '|' || c == '{' || c == '}' || c == '.' || c == '!';
        if reserved {
            out.push('\\');
            out.push(c);
            proof {
                assert(out@ =~= escaped_chars(prefix) + seq!['\\', text@[i as int]]);
            }
        } else {
            out.push(c);
            proof {
                assert(out@ =~= escaped_chars(prefix) + seq![text@[i as int]]);
            }
        }
        i = i + 1;
    }
    proof {
        assert(text@.take(text@.len() as int) =~= text@);
    }
    out
}

/// The count of notifications emitted over a run of consecutive
/// observations of one session, each tick starting from the cursor the
/// previous tick left behind.
pub open spec fn emit_count(prev: Option<Seq<char>>, logs: Seq<Seq<Activity>>) -> nat
    decreases logs.len(),
{
    if logs.len() == 0 {
        0
    } else {
        (if tick_emits(prev, logs[0]) {
            1nat
        } else {
            0nat
        }) + emit_count(tick_cursor(prev, logs[0]), logs.drop_first())
    }
}

/// Notification dedup: over any run of ticks in which the newest agent
/// activity stays the same, exactly one notification goes out — none at
/// all if that activity was already announced before the run, or if its
/// kind is not announced.  When the newest agent activity later changes,
/// the same law applied to the following run yields exactly one more.
pub proof fn lemma_notification_dedup(
    prev: Option<Seq<char>>,
    logs: Seq<Seq<Activity>>,
    a: Activity,
)
    requires
        logs.len() > 0,
        forall|t: int| 0 <= t < logs.len() ==> last_agent(#[trigger] logs[t]) == Some(a),
    ensures
        emit_count(prev, logs) == if prev != Some(a.id@) && spec_content(a) is Some {
            1nat
        } else {
            0nat
        },
    decreases logs.len(),
{
    reveal_with_fuel(emit_count, 2);
    assert(logs[0] == logs.first());
    assert(last_agent(logs[0]) == Some(a));
    assert(tick_cursor(prev, logs[0]) == Some(a.id@));
    if logs.len() == 1 {
        assert(logs.drop_first().len() == 0);
    } else {
        assert forall|t: int| 0 <= t < logs.drop_first().len() implies last_agent(
            #[trigger] logs.drop_first()[t],
        ) == Some(a) by {
            assert(logs.drop_first()[t] == logs[t + 1]);
        }
        lemma_notification_dedup(Some(a.id@), logs.drop_first(), a);
    }
}

} // verus!
