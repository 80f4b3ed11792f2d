//! The in-memory image of the local cache records.
//!
//! Four records are persisted per install: the session roster, the alias
//! map, the owner notification target and the current-session pointer.
//! This module holds their in-memory image and every rule that governs
//! them; reading the records from disk and writing them back is the
//! caller's job, and each write replaces a whole record.
//!
//! The roster is an ordered, append-only (except for explicit removal)
//! list: a session's user-visible index is its 1-based position here.

use vstd::prelude::*;
use crate::activity::{clone_opt_source_context, Session, SourceContext};
use crate::strmap::{
    keep_values, map_lookup, other_values, str_view_set, StrMap,
};

verus! {

/// A session as persisted in the local roster.
#[derive(Debug, PartialEq, Eq)]
pub struct CachedSession {
    /// The unique identifier of the session.
    pub id: String,
    /// The title of the session.
    pub title: String,
    /// The source context of the session.
    pub source_context: Option<SourceContext>,
}

impl Clone for CachedSession {
    fn clone(&self) -> (r: Self)
        ensures
            r == *self,
    {
        CachedSession {
            id: self.id.clone(),
            title: self.title.clone(),
            source_context: clone_opt_source_context(&self.source_context),
        }
    }
}

/// The alias record: alias name to session ID, names pairwise distinct.
pub type Aliases = StrMap;

/// The roster entry a live session is mirrored into.
pub open spec fn spec_cached_of(s: Session) -> CachedSession {
    CachedSession { id: s.id, title: s.title, source_context: s.source_context }
}

/// The session a roster entry is read back as: the state is unknown and
/// the name repeats the title.
pub open spec fn spec_session_of(c: CachedSession) -> Session {
    Session {
        name: c.title,
        id: c.id,
        state: None,
        title: c.title,
        source_context: c.source_context,
    }
}

/// Whether some roster entry has ID `id`.
pub open spec fn roster_has_id(roster: Seq<CachedSession>, id: Seq<char>) -> bool {
    exists|i: int| 0 <= i < roster.len() && roster[i].id@ == id
}

/// The position of the first roster entry with ID `id`, if any.
pub open spec fn roster_index_of(roster: Seq<CachedSession>, id: Seq<char>) -> Option<int>
    decreases roster.len(),
{
    if roster.len() == 0 {
        None
    } else if roster[0].id@ == id {
        Some(0int)
    } else {
        match roster_index_of(roster.drop_first(), id) {
            Some(i) => Some(i + 1),
            None => None,
        }
    }
}

/// Whether some live session has ID `id`.
pub open spec fn sessions_have_id(live: Seq<Session>, id: Seq<char>) -> bool {
    exists|i: int| 0 <= i < live.len() && live[i].id@ == id
}

/// The IDs of the live sessions, as a set of character sequences.
pub open spec fn live_id_set(live: Seq<Session>) -> Set<Seq<char>> {
    Set::new(|k: Seq<char>| sessions_have_id(live, k))
}

/// The roster entries whose session is still live, order preserved.
pub open spec fn live_kept(cached: Seq<CachedSession>, live: Seq<Session>) -> Seq<CachedSession>
    decreases cached.len(),
{
    if cached.len() == 0 {
        Seq::empty()
    } else if sessions_have_id(live, cached[0].id@) {
        seq![cached[0]] + live_kept(cached.drop_first(), live)
    } else {
        live_kept(cached.drop_first(), live)
    }
}

/// The live sessions absent from `cached`, mirrored into roster entries,
/// in the order the service listed them.
pub open spec fn new_entries(live: Seq<Session>, cached: Seq<CachedSession>) -> Seq<CachedSession>
    decreases live.len(),
{
    if live.len() == 0 {
        Seq::empty()
    } else if roster_has_id(cached, live[0].id@) {
        new_entries(live.drop_first(), cached)
    } else {
        seq![spec_cached_of(live[0])] + new_entries(live.drop_first(), cached)
    }
}

/// `roster_index_of` finds the first entry with the ID, and misses
/// exactly when no entry has it.
pub proof fn lemma_roster_index_of(roster: Seq<CachedSession>, id: Seq<char>)
    ensures
        match roster_index_of(roster, id) {
            Some(i) => 0 <= i < roster.len() && roster[i].id@ == id && (forall|j: int|
                0 <= j < i ==> (#[trigger] roster[j]).id@ != id),
            None => forall|j: int| 0 <= j < roster.len() ==> (#[trigger] roster[j]).id@ != id,
        },
    decreases roster.len(),
{
    if roster.len() == 0 {
    } else if roster[0].id@ == id {
    } else {
        let rest = roster.drop_first();
        lemma_roster_index_of(rest, id);
        match roster_index_of(rest, id) {
            Some(i) => {
                assert(roster[i + 1] == rest[i]);
                assert forall|j: int| 0 <= j < i + 1 implies (#[trigger] roster[j]).id@ != id by {
                    if j > 0 {
                        assert(rest[j - 1] == roster[j]);
                    }
                }
            },
            None => {
                assert forall|j: int| 0 <= j < roster.len() implies (#[trigger] roster[j]).id@
                    != id by {
                    if j > 0 {
                        assert(rest[j - 1] == roster[j]);
                    }
                }
            },
        }
    }
}

/// Appending one entry and then keeping the live ones distributes over
/// the append.
pub proof fn lemma_live_kept_push(cached: Seq<CachedSession>, e: CachedSession, live: Seq<Session>)
    ensures
        live_kept(cached.push(e), live) == if sessions_have_id(live, e.id@) {
            live_kept(cached, live) + seq![e]
        } else {
            live_kept(cached, live)
        },
    decreases cached.len(),
{
    reveal_with_fuel(live_kept, 2);
    if cached.len() == 0 {
        assert(cached.push(e)[0] == e);
        assert(cached.push(e).drop_first() =~= Seq::<CachedSession>::empty());
        assert(cached =~= Seq::<CachedSession>::empty());
        if sessions_have_id(live, e.id@) {
            assert(live_kept(cached.push(e), live) =~= live_kept(cached, live) + seq![e]);
        } else {
            assert(live_kept(cached.push(e), live) =~= live_kept(cached, live));
        }
    } else {
        assert(cached.push(e)[0] == cached[0]);
        assert(cached.push(e).drop_first() =~= cached.drop_first().push(e));
        lemma_live_kept_push(cached.drop_first(), e, live);
        if sessions_have_id(live, cached[0].id@) && sessions_have_id(live, e.id@) {
            assert(seq![cached[0]] + (live_kept(cached.drop_first(), live) + seq![e]) =~= (
            seq![cached[0]] + live_kept(cached.drop_first(), live)) + seq![e]);
        }
    }
}

/// Appending one live session and then collecting the unseen ones
/// distributes over the append.
pub proof fn lemma_new_entries_push(live: Seq<Session>, s: Session, cached: Seq<CachedSession>)
    ensures
        new_entries(live.push(s), cached) == if roster_has_id(cached, s.id@) {
            new_entries(live, cached)
        } else {
            new_entries(live, cached) + seq![spec_cached_of(s)]
        },
    decreases live.len(),
{
    reveal_with_fuel(new_entries, 2);
    if live.len() == 0 {
        assert(live.push(s)[0] == s);
        assert(live.push(s).drop_first() =~= Seq::<Session>::empty());
        assert(live =~= Seq::<Session>::empty());
        if roster_has_id(cached, s.id@) {
            assert(new_entries(live.push(s), cached) =~= new_entries(live, cached));
        } else {
            assert(new_entries(live.push(s), cached) =~= new_entries(live, cached) + seq![
                spec_cached_of(s)
            ]);
        }
    } else {
        assert(live.push(s)[0] == live[0]);
        assert(live.push(s).drop_first() =~= live.drop_first().push(s));
        lemma_new_entries_push(live.drop_first(), s, cached);
        if !roster_has_id(cached, live[0].id@) && !roster_has_id(cached, s.id@) {
            assert(seq![spec_cached_of(live[0])] + (new_entries(live.drop_first(), cached) + seq![
                spec_cached_of(s)
            ]) =~= (seq![spec_cached_of(live[0])] + new_entries(live.drop_first(), cached)) + seq![
                spec_cached_of(s)
            ]);
        }
    }
}

/// Mirrors a live session into a roster entry.
pub fn cached_of_session(s: &Session) -> (r: CachedSession)
    ensures
        r == spec_cached_of(*s),
{
    CachedSession {
        id: s.id.clone(),
        title: s.title.clone(),
        source_context: clone_opt_source_context(&s.source_context),
    }
}

/// Whether `live` holds a session whose ID equals `id`.
pub fn sessions_contain_id(live: &Vec<Session>, id: &str) -> (r: bool)
    ensures
        r == sessions_have_id(live@, id@),
{
    let needle: String = id.to_owned();
    let mut i: usize = 0;
    while i < live.len()
        invariant
            i <= live@.len(),
            needle@ == id@,
            forall|j: int| 0 <= j < i ==> (#[trigger] live@[j]).id@ != id@,
        decreases live@.len() - i,
    {
        if live[i].id == needle {
            return true;
        }
        i = i + 1;
    }
    proof {
        if sessions_have_id(live@, id@) {
            let j = choose|j: int| 0 <= j < live@.len() && live@[j].id@ == id@;
            assert(live@[j].id@ != id@);
        }
    }
    false
}

/// Whether `roster` holds an entry whose ID equals `id`.
pub fn roster_contains_id(roster: &Vec<CachedSession>, id: &str) -> (r: bool)
    ensures
        r == roster_has_id(roster@, id@),
{
    let needle: String = id.to_owned();
    let mut i: usize = 0;
    while i < roster.len()
        invariant
            i <= roster@.len(),
            needle@ == id@,
            forall|j: int| 0 <= j < i ==> (#[trigger] roster@[j]).id@ != id@,
        decreases roster@.len() - i,
    {
        if roster[i].id == needle {
            return true;
        }
        i = i + 1;
    }
    proof {
        if roster_has_id(roster@, id@) {
            let j = choose|j: int| 0 <= j < roster@.len() && roster@[j].id@ == id@;
            assert(roster@[j].id@ != id@);
        }
    }
    false
}

/// Copies of the IDs of the live sessions, in order.
fn collect_live_ids(live: &Vec<Session>) -> (ids: Vec<String>)
    ensures
        ids@.len() == live@.len(),
        forall|i: int| 0 <= i < live@.len() ==> #[trigger] ids@[i] == live@[i].id,
{
    let mut ids: Vec<String> = Vec::new();
    let mut i: usize = 0;
    while i < live.len()
        invariant
            i <= live@.len(),
            ids@.len() == i,
            forall|j: int| 0 <= j < i ==> #[trigger] ids@[j] == live@[j].id,
        decreases live@.len() - i,
    {
        ids.push(live[i].id.clone());
        i = i + 1;
    }
    ids
}

/// Reads the roster back as a list of sessions with unknown state.
pub fn get_sessions_from_cache(sessions: &Vec<CachedSession>) -> (r: Vec<Session>)
    ensures
        r@.len() == sessions@.len(),
        forall|i: int| 0 <= i < sessions@.len() ==> #[trigger] r@[i] == spec_session_of(
            sessions@[i],
        ),
{
    let mut r: Vec<Session> = Vec::new();
    let mut i: usize = 0;
    while i < sessions.len()
        invariant
            i <= sessions@.len(),
            r@.len() == i,
            forall|j: int| 0 <= j < i ==> #[trigger] r@[j] == spec_session_of(sessions@[j]),
        decreases sessions@.len() - i,
    {
        let c = &sessions[i];
        r.push(Session {
            name: c.title.clone(),
            id: c.id.clone(),
            state: None,
            title: c.title.clone(),
            source_context: clone_opt_source_context(&c.source_context),
        });
        i = i + 1;
    }
    r
}

/// Removes the roster entry at 1-based `index`; out-of-range indices
/// leave the roster unchanged, as removal is best-effort after a remote
/// deletion already succeeded.
pub fn remove_session_from_cache(sessions: &mut Vec<CachedSession>, index: usize)
    ensures
        1 <= index <= old(sessions)@.len() ==> final(sessions)@ == old(sessions)@.remove(
            index - 1,
        ),
        !(1 <= index <= old(sessions)@.len()) ==> final(sessions)@ == old(sessions)@,
{
    if index > 0 && index <= sessions.len() {
        sessions.remove(index - 1);
    }
}

/// Removes every alias that points at the deleted session.
pub fn update_aliases_after_deletion(aliases: &mut Aliases, deleted_session_id: &str)
    requires
        old(aliases).wf(),
    ensures
        final(aliases).wf(),
        final(aliases).entries@ == keep_values(
            old(aliases).entries@,
            other_values(deleted_session_id@),
        ),
        forall|k: Seq<char>| #[trigger] map_lookup(final(aliases).entries@, k) == (
        match map_lookup(old(aliases).entries@, k) {
            Some(v) => if v@ == deleted_session_id@ {
                None::<String>
            } else {
                Some(v)
            },
            None => None::<String>,
        }),
{
    aliases.remove_value(deleted_session_id);
}

/// Appends a freshly created session to the roster and binds an alias
/// to it.
pub fn add_alias_for_new_session(
    session: &Session,
    alias_name: &str,
    sessions: &mut Vec<CachedSession>,
    aliases: &mut Aliases,
)
    requires
        old(aliases).wf(),
    ensures
        final(sessions)@ == old(sessions)@.push(spec_cached_of(*session)),
        final(aliases).wf(),
        map_lookup(final(aliases).entries@, alias_name@) == Some(session.id),
        forall|k2: Seq<char>| k2 != alias_name@ ==> #[trigger] map_lookup(
            final(aliases).entries@,
            k2,
        ) == map_lookup(old(aliases).entries@, k2),
{
    sessions.push(cached_of_session(session));
    aliases.insert(alias_name.to_owned(), session.id.clone());
}

/// The in-memory image of the cache records.  Reads hand out copies;
/// writes replace a whole record, mirroring the on-disk files.
#[derive(Debug, PartialEq, Eq)]
pub struct Cache {
    /// The session roster, in index order.
    pub sessions: Vec<CachedSession>,
    /// The alias map.
    pub aliases: Aliases,
    /// The owner notification target, set once.
    pub chat_id: Option<String>,
    /// The default target for un-addressed sends.
    pub current_session: Option<String>,
}

impl Cache {
    /// The alias map has pairwise-distinct names.
    pub open spec fn wf(self) -> bool {
        self.aliases.wf()
    }

    /// An empty cache: every record defaults to its empty value.
    pub fn new() -> (r: Cache)
        ensures
            r.sessions@ == Seq::<CachedSession>::empty(),
            r.aliases.entries@ == Seq::<crate::strmap::StrMapEntry>::empty(),
            r.chat_id is None,
            r.current_session is None,
            r.wf(),
    {
        Cache {
            sessions: Vec::new(),
            aliases: StrMap::new(),
            chat_id: None,
            current_session: None,
        }
    }

    /// Reads the roster record.
    pub fn read_sessions(&self) -> (r: Vec<CachedSession>)
        ensures
            r@ == self.sessions@,
    {
        let mut r: Vec<CachedSession> = Vec::new();
        let mut i: usize = 0;
        while i < self.sessions.len()
            invariant
                i <= self.sessions@.len(),
                r@ == self.sessions@.take(i as int),
            decreases self.sessions@.len() - i,
        {
            r.push(self.sessions[i].clone());
            proof {
                assert(r@ =~= self.sessions@.take(i + 1 as int));
            }
            i = i + 1;
        }
        proof {
            assert(self.sessions@.take(self.sessions@.len() as int) =~= self.sessions@);
        }
        r
    }

    /// Replaces the roster record.
    pub fn write_sessions(&mut self, sessions: Vec<CachedSession>)
        ensures
            final(self).sessions == sessions,
            final(self).aliases == old(self).aliases,
            final(self).chat_id == old(self).chat_id,
            final(self).current_session == old(self).current_session,
    {
        self.sessions = sessions;
    }

    /// Reads the alias record.
    pub fn read_aliases(&self) -> (r: Aliases)
        ensures
            r.entries@ == self.aliases.entries@,
    {
        self.aliases.clone()
    }

    /// Replaces the alias record.
    pub fn write_aliases(&mut self, aliases: Aliases)
        ensures
            final(self).aliases == aliases,
            final(self).sessions == old(self).sessions,
            final(self).chat_id == old(self).chat_id,
            final(self).current_session == old(self).current_session,
    {
        self.aliases = aliases;
    }

    /// Reads the owner notification target.
    pub fn read_chat_id(&self) -> (r: Option<String>)
        ensures
            r == self.chat_id,
    {
        match &self.chat_id {
            Some(s) => Some(s.clone()),
            None => None,
        }
    }

    /// Replaces the owner notification target.
    pub fn write_chat_id(&mut self, chat_id: String)
        ensures
            final(self).chat_id == Some(chat_id),
            final(self).sessions == old(self).sessions,
            final(self).aliases == old(self).aliases,
            final(self).current_session == old(self).current_session,
    {
        self.chat_id = Some(chat_id);
    }

    /// Records the owner notification target if none is set yet; a target
    /// once set is never overwritten.
    pub fn record_owner(&mut self, chat_id: String) -> (recorded: bool)
        ensures
            final(self).chat_id == if old(self).chat_id is Some {
                old(self).chat_id
            } else {
                Some(chat_id)
            },
            recorded == (old(self).chat_id is None),
            final(self).sessions == old(self).sessions,
            final(self).aliases == old(self).aliases,
            final(self).current_session == old(self).current_session,
    {
        if self.chat_id.is_none() {
            self.chat_id = Some(chat_id);
            true
        } else {
            false
        }
    }

    /// Reads the current-session pointer.
    pub fn read_current_session(&self) -> (r: Option<String>)
        ensures
            r == self.current_session,
    {
        match &self.current_session {
            Some(s) => Some(s.clone()),
            None => None,
        }
    }

    /// Replaces the current-session pointer.
    pub fn write_current_session(&mut self, session_id: String)
        ensures
            final(self).current_session == Some(session_id),
            final(self).sessions == old(self).sessions,
            final(self).aliases == old(self).aliases,
            final(self).chat_id == old(self).chat_id,
    {
        self.current_session = Some(session_id);
    }

    /// Reconciles the cache against a freshly listed live roster: roster
    /// entries whose session vanished are removed, sessions seen for the
    /// first time are appended in the order received, and every alias
    /// that points at a vanished session is removed in the same step.
    pub fn reconcile(&mut self, live: &Vec<Session>)
        requires
            old(self).wf(),
        ensures
            final(self).wf(),
            final(self).sessions@ == live_kept(old(self).sessions@, live@) + new_entries(
                live@,
                live_kept(old(self).sessions@, live@),
            ),
            final(self).aliases.entries@ == keep_values(
                old(self).aliases.entries@,
                live_id_set(live@),
            ),
            forall|k: Seq<char>| #[trigger] map_lookup(final(self).aliases.entries@, k) == (
            match map_lookup(old(self).aliases.entries@, k) {
                Some(v) => if live_id_set(live@).contains(v@) {
                    Some(v)
                } else {
                    None::<String>
                },
                None => None::<String>,
            }),
            final(self).chat_id == old(self).chat_id,
            final(self).current_session == old(self).current_session,
    {
        // Keep the roster entries whose session is still live.
        let mut kept: Vec<CachedSession> = Vec::new();
        let mut i: usize = 0;
        proof {
            assert(self.sessions@.take(0) =~= Seq::<CachedSession>::empty());
        }
        while i < self.sessions.len()
            invariant
                i <= self.sessions@.len(),
                kept@ == live_kept(self.sessions@.take(i as int), live@),
            decreases self.sessions@.len() - i,
        {
            let ghost prefix = self.sessions@.take(i as int);
            let c = &self.sessions[i];
            proof {
                lemma_live_kept_push(prefix, self.sessions@[i as int], live@);
                assert(prefix.push(self.sessions@[i as int]) =~= self.sessions@.take(
                    i + 1 as int,
                ));
            }
            if sessions_contain_id(live, c.id.as_str()) {
                kept.push(c.clone());
                proof {
                    assert(kept@ =~= live_kept(prefix, live@) + seq![self.sessions@[i as int]]);
                }
            }
            i = i + 1;
        }
        proof {
            assert(self.sessions@.take(self.sessions@.len() as int) =~= self.sessions@);
        }

        // Append the live sessions the roster has not seen yet, in the
        // order the service listed them.
        let mut additions: Vec<CachedSession> = Vec::new();
        let mut j: usize = 0;
        proof {
            assert(live@.take(0) =~= Seq::<Session>::empty());
        }
        while j < live.len()
            invariant
                j <= live@.len(),
                additions@ == new_entries(live@.take(j as int), kept@),
            decreases live@.len() - j,
        {
            let ghost lprefix = live@.take(j as int);
            let s = &live[j];
            proof {
                lemma_new_entries_push(lprefix, live@[j as int], kept@);
                assert(lprefix.push(live@[j as int]) =~= live@.take(j + 1 as int));
            }
            if !roster_contains_id(&kept, s.id.as_str()) {
                additions.push(cached_of_session(s));
                proof {
                    assert(additions@ =~= new_entries(lprefix, kept@) + seq![spec_cached_of(
                        live@[j as int],
                    )]);
                }
            }
            j = j + 1;
        }
        proof {
            assert(live@.take(live@.len() as int) =~= live@);
        }

        self.sessions = kept;
        self.sessions.append(&mut additions);

        // Remove the aliases that point at vanished sessions.
        let ids = collect_live_ids(live);
        proof {
            assert(str_view_set(ids@) =~= live_id_set(live@)) by {
                assert forall|k: Seq<char>| str_view_set(ids@).contains(k) implies live_id_set(
                    live@,
                ).contains(k) by {
                    let i2 = choose|i2: int| 0 <= i2 < ids@.len() && ids@[i2]@ == k;
                    assert(ids@[i2] == live@[i2].id);
                }
                assert forall|k: Seq<char>| live_id_set(live@).contains(k) implies str_view_set(
                    ids@,
                ).contains(k) by {
                    let i2 = choose|i2: int| 0 <= i2 < live@.len() && live@[i2].id@ == k;
                    assert(ids@[i2] == live@[i2].id);
                }
            }
        }
        self.aliases.retain_values(&ids);
    }
}

} // verus!
