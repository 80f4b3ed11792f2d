use julezz::activity::Session;
use julezz::auth::{require_api_key, AuthState};
use julezz::cache::{
    add_alias_for_new_session, get_sessions_from_cache, Cache, CachedSession,
};
use julezz::errors::JulesError;
use julezz::strmap::StrMap;

fn cached(id: &str, title: &str) -> CachedSession {
    CachedSession { id: id.to_string(), title: title.to_string(), source_context: None }
}

fn live(id: &str, title: &str) -> Session {
    Session {
        name: format!("live {title}"),
        id: id.to_string(),
        state: Some("ACTIVE".to_string()),
        title: title.to_string(),
        source_context: None,
    }
}

#[test]
fn new_cache_is_empty() {
    let cache = Cache::new();
    assert!(cache.read_sessions().is_empty());
    assert_eq!(cache.read_aliases().len(), 0);
    assert_eq!(cache.read_chat_id(), None);
    assert_eq!(cache.read_current_session(), None);
}

#[test]
fn records_are_whole_value_replacements() {
    let mut cache = Cache::new();
    cache.write_sessions(vec![cached("A", "a")]);
    assert_eq!(cache.read_sessions(), vec![cached("A", "a")]);
    cache.write_sessions(vec![cached("B", "b")]);
    assert_eq!(cache.read_sessions(), vec![cached("B", "b")]);

    let mut aliases = StrMap::new();
    aliases.insert("@b".to_string(), "B".to_string());
    cache.write_aliases(aliases);
    assert_eq!(cache.read_aliases().get("@b"), Some("B".to_string()));

    cache.write_chat_id("12345".to_string());
    assert_eq!(cache.read_chat_id(), Some("12345".to_string()));

    cache.write_current_session("B".to_string());
    assert_eq!(cache.read_current_session(), Some("B".to_string()));
}

#[test]
fn owner_is_recorded_once() {
    let mut cache = Cache::new();
    assert!(cache.record_owner("111".to_string()));
    // A second authentication must not steal the owner slot.
    assert!(!cache.record_owner("222".to_string()));
    assert_eq!(cache.read_chat_id(), Some("111".to_string()));
}

#[test]
fn reconcile_keeps_survivors_appends_new_and_prunes_aliases() {
    let mut cache = Cache::new();
    cache.write_sessions(vec![cached("A", "a"), cached("B", "b"), cached("C", "c")]);
    let mut aliases = StrMap::new();
    aliases.insert("@a".to_string(), "A".to_string());
    aliases.insert("@b".to_string(), "B".to_string());
    cache.write_aliases(aliases);

    // A vanished; D is new.  Survivors keep their relative order and the
    // newcomer is appended, so indices of survivors only shift down.
    cache.reconcile(&vec![live("D", "d"), live("B", "b"), live("C", "c")]);
    assert_eq!(
        cache.read_sessions(),
        vec![cached("B", "b"), cached("C", "c"), cached("D", "d")]
    );
    // The alias of the vanished session went with it.
    assert_eq!(cache.read_aliases().get("@a"), None);
    assert_eq!(cache.read_aliases().get("@b"), Some("B".to_string()));
}

#[test]
fn reconcile_on_empty_cache_mirrors_the_listing() {
    let mut cache = Cache::new();
    cache.reconcile(&vec![live("A", "a"), live("B", "b")]);
    assert_eq!(cache.read_sessions(), vec![cached("A", "a"), cached("B", "b")]);
}

#[test]
fn roster_reads_back_with_unknown_state() {
    let roster = vec![cached("A", "a"), cached("B", "b")];
    let sessions = get_sessions_from_cache(&roster);
    assert_eq!(sessions.len(), 2);
    assert_eq!(sessions[0].id, "A");
    assert_eq!(sessions[0].name, "a");
    assert_eq!(sessions[0].title, "a");
    assert_eq!(sessions[0].state, None);
}

#[test]
fn new_session_joins_roster_with_its_alias() {
    let mut roster = vec![cached("A", "a")];
    let mut aliases = StrMap::new();
    add_alias_for_new_session(&live("B", "b"), "@b", &mut roster, &mut aliases);
    assert_eq!(roster, vec![cached("A", "a"), cached("B", "b")]);
    assert_eq!(aliases.get("@b"), Some("B".to_string()));
}

#[test]
fn strmap_basics() {
    let mut m = StrMap::new();
    assert_eq!(m.get("k"), None);
    m.insert("k".to_string(), "v1".to_string());
    assert_eq!(m.get("k"), Some("v1".to_string()));
    m.insert("k".to_string(), "v2".to_string());
    assert_eq!(m.get("k"), Some("v2".to_string()));
    assert_eq!(m.len(), 1);
    m.insert("j".to_string(), "w".to_string());
    assert_eq!(m.len(), 2);
    assert!(m.remove("k"));
    assert!(!m.remove("k"));
    assert_eq!(m.get("k"), None);
    assert_eq!(m.get("j"), Some("w".to_string()));
}

#[test]
fn strmap_remove_value_drops_every_binding_to_it() {
    let mut m = StrMap::new();
    m.insert("@a1".to_string(), "A".to_string());
    m.insert("@a2".to_string(), "A".to_string());
    m.insert("@b".to_string(), "B".to_string());
    m.remove_value("A");
    assert_eq!(m.get("@a1"), None);
    assert_eq!(m.get("@a2"), None);
    assert_eq!(m.get("@b"), Some("B".to_string()));
}

#[test]
fn missing_api_key_is_an_auth_error() {
    assert_eq!(require_api_key(None), Err(JulesError::AuthMissing));
    assert_eq!(require_api_key(Some("k".to_string())), Ok("k".to_string()));

    let ready = AuthState::from_key(Some("k".to_string()));
    assert_eq!(ready.require_key(), Ok(&"k".to_string()));
    let bare = AuthState::from_key(None);
    assert_eq!(bare.require_key(), Err(JulesError::AuthMissing));
}
