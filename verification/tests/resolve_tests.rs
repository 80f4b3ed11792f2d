use julezz::cache::{
    remove_session_from_cache, update_aliases_after_deletion, Aliases, CachedSession,
};
use julezz::errors::{AliasCommandError, ResolutionError};
use julezz::resolve::{
    create_alias, delete_alias, parse_index_token, resolve_session_identifier,
    resolve_session_identifier_and_index,
};
use julezz::strmap::StrMap;

fn entry(id: &str, title: &str) -> CachedSession {
    CachedSession { id: id.to_string(), title: title.to_string(), source_context: None }
}

fn roster_ab() -> Vec<CachedSession> {
    vec![entry("sessions/A", "first"), entry("sessions/B", "second")]
}

#[test]
fn resolve_by_index() {
    let roster = roster_ab();
    let aliases = StrMap::new();
    assert_eq!(
        resolve_session_identifier_and_index("1", &roster, &aliases),
        Ok(("sessions/A".to_string(), 1))
    );
    assert_eq!(
        resolve_session_identifier_and_index("2", &roster, &aliases),
        Ok(("sessions/B".to_string(), 2))
    );
    // Leading zeros read as the same number, as a decimal parse does.
    assert_eq!(
        resolve_session_identifier_and_index("02", &roster, &aliases),
        Ok(("sessions/B".to_string(), 2))
    );
}

#[test]
fn resolve_by_literal_id() {
    let roster = roster_ab();
    let aliases = StrMap::new();
    assert_eq!(
        resolve_session_identifier_and_index("sessions/B", &roster, &aliases),
        Ok(("sessions/B".to_string(), 2))
    );
    assert_eq!(
        resolve_session_identifier("sessions/A", &roster, &aliases),
        Ok("sessions/A".to_string())
    );
}

#[test]
fn resolve_by_alias() {
    let roster = roster_ab();
    let mut aliases = StrMap::new();
    aliases.insert("@a".to_string(), "sessions/A".to_string());
    assert_eq!(
        resolve_session_identifier_and_index("@a", &roster, &aliases),
        Ok(("sessions/A".to_string(), 1))
    );
}

#[test]
fn resolve_empty_roster() {
    let roster: Vec<CachedSession> = Vec::new();
    let mut aliases = StrMap::new();
    aliases.insert("@a".to_string(), "sessions/A".to_string());
    // An empty roster rejects every shape of token.
    for token in ["1", "@a", "sessions/A", ""] {
        assert_eq!(
            resolve_session_identifier_and_index(token, &roster, &aliases),
            Err(ResolutionError::EmptyRoster)
        );
    }
}

#[test]
fn resolve_index_errors() {
    let roster = roster_ab();
    let aliases = StrMap::new();
    assert_eq!(
        resolve_session_identifier_and_index("0", &roster, &aliases),
        Err(ResolutionError::NonPositiveIndex)
    );
    assert_eq!(
        resolve_session_identifier_and_index("3", &roster, &aliases),
        Err(ResolutionError::IndexOutOfBounds)
    );
}

#[test]
fn resolve_miss_errors() {
    let roster = roster_ab();
    let mut aliases = StrMap::new();
    aliases.insert("@gone".to_string(), "sessions/GONE".to_string());
    assert_eq!(
        resolve_session_identifier_and_index("sessions/C", &roster, &aliases),
        Err(ResolutionError::SessionNotFound)
    );
    assert_eq!(
        resolve_session_identifier_and_index("@missing", &roster, &aliases),
        Err(ResolutionError::AliasNotFound)
    );
    // The alias exists but its session no longer does.
    assert_eq!(
        resolve_session_identifier_and_index("@gone", &roster, &aliases),
        Err(ResolutionError::StaleAlias)
    );
}

#[test]
fn resolve_overflowing_number_is_a_literal() {
    let roster = roster_ab();
    let aliases = StrMap::new();
    // Too large for usize, so it is taken as a (missing) session ID.
    assert_eq!(
        resolve_session_identifier_and_index("99999999999999999999999999", &roster, &aliases),
        Err(ResolutionError::SessionNotFound)
    );
}

#[test]
fn parse_index_token_values() {
    assert_eq!(parse_index_token("12"), Some(12));
    assert_eq!(parse_index_token("007"), Some(7));
    assert_eq!(parse_index_token("0"), Some(0));
    assert_eq!(parse_index_token(""), None);
    assert_eq!(parse_index_token("12a"), None);
    assert_eq!(parse_index_token("-3"), None);
    assert_eq!(parse_index_token("+3"), None);
    assert_eq!(parse_index_token("99999999999999999999999999"), None);
}

#[test]
fn scenario_alias_tracks_deletion() {
    // Roster [A, B] with @a -> A.
    let mut roster = roster_ab();
    let mut aliases: Aliases = StrMap::new();
    aliases.insert("@a".to_string(), "sessions/A".to_string());

    assert_eq!(
        resolve_session_identifier_and_index("1", &roster, &aliases),
        Ok(("sessions/A".to_string(), 1))
    );
    assert_eq!(
        resolve_session_identifier_and_index("@a", &roster, &aliases),
        Ok(("sessions/A".to_string(), 1))
    );

    // Delete A: the roster shrinks to [B] and @a disappears with A.
    remove_session_from_cache(&mut roster, 1);
    update_aliases_after_deletion(&mut aliases, "sessions/A");
    assert_eq!(roster, vec![entry("sessions/B", "second")]);

    assert_eq!(
        resolve_session_identifier_and_index("1", &roster, &aliases),
        Ok(("sessions/B".to_string(), 1))
    );
    assert_eq!(
        resolve_session_identifier_and_index("@a", &roster, &aliases),
        Err(ResolutionError::AliasNotFound)
    );
}

#[test]
fn index_stable_under_append() {
    let mut roster = roster_ab();
    let aliases = StrMap::new();
    let before = resolve_session_identifier_and_index("2", &roster, &aliases);
    roster.push(entry("sessions/C", "third"));
    let after = resolve_session_identifier_and_index("2", &roster, &aliases);
    assert_eq!(before, after);
}

#[test]
fn index_shifts_down_after_deletion() {
    let mut roster =
        vec![entry("sessions/A", "a"), entry("sessions/B", "b"), entry("sessions/C", "c")];
    let aliases = StrMap::new();
    remove_session_from_cache(&mut roster, 2);
    assert_eq!(
        resolve_session_identifier_and_index("2", &roster, &aliases),
        Ok(("sessions/C".to_string(), 2))
    );
    assert_eq!(
        resolve_session_identifier_and_index("1", &roster, &aliases),
        Ok(("sessions/A".to_string(), 1))
    );
}

#[test]
fn out_of_range_removal_changes_nothing() {
    let mut roster = roster_ab();
    remove_session_from_cache(&mut roster, 0);
    remove_session_from_cache(&mut roster, 3);
    assert_eq!(roster, roster_ab());
}

#[test]
fn alias_commands() {
    let roster = roster_ab();
    let mut aliases = StrMap::new();

    // Creation needs the sigil and a resolvable number.
    assert_eq!(
        create_alias(&mut aliases, &roster, "plain", 1),
        Err(AliasCommandError::NotAnAlias)
    );
    assert_eq!(
        create_alias(&mut aliases, &roster, "@x", 0),
        Err(AliasCommandError::BadSessionNumber { error: ResolutionError::NonPositiveIndex })
    );
    assert_eq!(
        create_alias(&mut aliases, &roster, "@x", 9),
        Err(AliasCommandError::BadSessionNumber { error: ResolutionError::IndexOutOfBounds })
    );
    assert_eq!(create_alias(&mut aliases, &roster, "@x", 2), Ok("sessions/B".to_string()));
    assert_eq!(aliases.get("@x"), Some("sessions/B".to_string()));

    // Re-binding replaces the old target.
    assert_eq!(create_alias(&mut aliases, &roster, "@x", 1), Ok("sessions/A".to_string()));
    assert_eq!(aliases.get("@x"), Some("sessions/A".to_string()));
    assert_eq!(aliases.len(), 1);

    // Deletion needs the sigil and an existing binding.
    assert_eq!(delete_alias(&mut aliases, "plain"), Err(AliasCommandError::NotAnAlias));
    assert_eq!(delete_alias(&mut aliases, "@y"), Err(AliasCommandError::UnknownAlias));
    assert_eq!(delete_alias(&mut aliases, "@x"), Ok(()));
    assert_eq!(aliases.get("@x"), None);
}
