//! The session-identifier resolver.
//!
//! One token space serves three addressing modes: a token starting with
//! `@` names an alias, a token that reads as a positive decimal integer
//! is a 1-based index into the roster, and anything else is taken as a
//! literal session ID.  An empty roster rejects every token.  The
//! mathematical reading is [`spec_resolve`]; the laws at the bottom pin
//! down how resolution behaves when the roster is appended to, when an
//! entry is deleted, and how aliases track the entry they name.

use vstd::prelude::*;
use crate::cache::{lemma_roster_index_of, roster_index_of, Aliases, CachedSession};
use crate::errors::{AliasCommandError, ResolutionError};
use crate::strmap::{has_key, keep_values, map_lookup, other_values, unique_keys, StrMapEntry};
use crate::strmap::lemma_keep_values_lookup;
use vstd::string::StrSliceExecFns;

verus! {

/// Whether `c` is a decimal digit.
pub open spec fn is_digit(c: char) -> bool {
    48 <= c as u32 <= 57
}

/// The value of the digit `c`.
pub open spec fn digit_val(c: char) -> nat {
    (c as u32 - 48) as nat
}

/// Runs a decimal parse over `s` with accumulator `acc`, failing on the
/// first non-digit and on any intermediate value past `usize::MAX`.
pub open spec fn parse_loop(s: Seq<char>, acc: nat) -> Option<nat>
    decreases s.len(),
{
    if s.len() == 0 {
        Some(acc)
    } else if !is_digit(s[0]) {
        None
    } else if acc * 10 + digit_val(s[0]) > usize::MAX {
        None
    } else {
        parse_loop(s.drop_first(), acc * 10 + digit_val(s[0]))
    }
}

/// The value of `s` when it is a non-empty run of decimal digits whose
/// value fits in `usize`; `None` otherwise.
pub open spec fn parse_usize(s: Seq<char>) -> Option<nat> {
    if s.len() == 0 {
        None
    } else {
        parse_loop(s, 0)
    }
}

/// Whether `s` names an alias: it starts with the alias sigil.
pub open spec fn is_alias_token(s: Seq<char>) -> bool {
    s.len() > 0 && s[0] == '@'
}

/// Resolution of a 1-based index against the roster.
pub open spec fn index_lookup(roster: Seq<CachedSession>, v: int) -> Result<
    (Seq<char>, int),
    ResolutionError,
> {
    if roster.len() == 0 {
        Err(ResolutionError::EmptyRoster)
    } else if v <= 0 {
        Err(ResolutionError::NonPositiveIndex)
    } else if v > roster.len() {
        Err(ResolutionError::IndexOutOfBounds)
    } else {
        Ok((roster[v - 1].id@, v))
    }
}

/// What resolving `identifier` returns: the canonical session ID and its
/// current 1-based index, or the reason the token is rejected.
pub open spec fn spec_resolve(
    identifier: Seq<char>,
    roster: Seq<CachedSession>,
    aliases: Seq<StrMapEntry>,
) -> Result<(Seq<char>, int), ResolutionError> {
    if roster.len() == 0 {
        Err(ResolutionError::EmptyRoster)
    } else if is_alias_token(identifier) {
        match map_lookup(aliases, identifier) {
            None => Err(ResolutionError::AliasNotFound),
            Some(sid) => match roster_index_of(roster, sid@) {
                None => Err(ResolutionError::StaleAlias),
                Some(i) => Ok((sid@, i + 1)),
            },
        }
    } else {
        match parse_usize(identifier) {
            Some(v) => index_lookup(roster, v as int),
            None => match roster_index_of(roster, identifier) {
                None => Err(ResolutionError::SessionNotFound),
                Some(i) => Ok((identifier, i + 1)),
            },
        }
    }
}

/// Parses `s` as a decimal index, rejecting empty strings, non-digits
/// and values past `usize::MAX`.
pub fn parse_index_token(s: &str) -> (r: Option<usize>)
    ensures
        r is Some <==> parse_usize(s@) is Some,
        r is Some ==> r.unwrap() as nat == parse_usize(s@).unwrap(),
{
    let len = s.unicode_len();
    if len == 0 {
        return None;
    }
    let mut acc: usize = 0;
    let mut i: usize = 0;
    proof {
        assert(s@.skip(0) =~= s@);
    }
    while i < len
        invariant
            0 < len == s@.len(),
            i <= len,
            parse_loop(s@, 0) == parse_loop(s@.skip(i as int), acc as nat),
        decreases len - i,
    {
        proof {
            assert(s@.skip(i as int)[0] == s@[i as int]);
            assert(s@.skip(i as int).drop_first() =~= s@.skip(i + 1 as int));
        }
        let c = s.get_char(i);
        let cv = c as u32;
        if cv < 48 || cv > 57 {
            return None;
        }
        let d = (cv - 48) as usize;
        let next = match acc.checked_mul(10) {
            Some(m) => match m.checked_add(d) {
                Some(n) => n,
                None => {
                    return None;
                },
            },
            None => {
                return None;
            },
        };
        acc = next;
        i = i + 1;
    }
    proof {
        assert(s@.skip(len as int) =~= Seq::<char>::empty());
    }
    Some(acc)
}

/// Finds the first roster entry with ID `id`.
pub fn roster_position(roster: &Vec<CachedSession>, id: &str) -> (r: Option<usize>)
    ensures
        match (r, roster_index_of(roster@, id@)) {
            (Some(u), Some(i)) => u as int == i && u < roster@.len(),
            (None, None) => true,
            _ => false,
        },
{
    let needle: String = id.to_owned();
    let mut i: usize = 0;
    while i < roster.len()
        invariant
            i <= roster@.len(),
            needle@ == id@,
            forall|j: int| 0 <= j < i ==> (#[trigger] roster@[j]).id@ != id@,
        decreases roster@.len() - i,
    {
        if roster[i].id == needle {
            proof {
                lemma_roster_index_of(roster@, id@);
                match roster_index_of(roster@, id@) {
                    Some(k) => {
                        if k < i {
                            assert(roster@[k].id@ != id@);
                        }
                        if k > i {
                            assert(roster@[i as int].id@ != id@);
                        }
                    },
                    None => {
                        assert(roster@[i as int].id@ != id@);
                    },
                }
            }
            return Some(i);
        }
        i = i + 1;
    }
    proof {
        lemma_roster_index_of(roster@, id@);
        match roster_index_of(roster@, id@) {
            Some(k) => {
                assert(roster@[k].id@ != id@);
            },
            None => {},
        }
    }
    None
}

/// Resolves a user token to a session ID and its current 1-based index;
/// see [`spec_resolve`] for the exact result on every input.
pub fn resolve_session_identifier_and_index(
    identifier: &str,
    roster: &Vec<CachedSession>,
    aliases: &Aliases,
) -> (r: Result<(String, usize), ResolutionError>)
    ensures
        ({
            let s = spec_resolve(identifier@, roster@, aliases.entries@);
            match (r, s) {
                (Ok(p), Ok(q)) => p.0@ == q.0 && p.1 as int == q.1,
                (Err(e1), Err(e2)) => e1 == e2,
                _ => false,
            }
        }),
{
    if roster.len() == 0 {
        return Err(ResolutionError::EmptyRoster);
    }
    let sigil = !identifier.is_empty() && identifier.get_char(0) == '@';
    if sigil {
        match aliases.get(identifier) {
            None => Err(ResolutionError::AliasNotFound),
            Some(sid) => match roster_position(roster, sid.as_str()) {
                None => Err(ResolutionError::StaleAlias),
                Some(pos) => Ok((sid, pos + 1)),
            },
        }
    } else {
        match parse_index_token(identifier) {
            Some(v) => {
                if v == 0 {
                    Err(ResolutionError::NonPositiveIndex)
                } else if v > roster.len() {
                    Err(ResolutionError::IndexOutOfBounds)
                } else {
                    Ok((roster[v - 1].id.clone(), v))
                }
            },
            None => match roster_position(roster, identifier) {
                None => Err(ResolutionError::SessionNotFound),
                Some(pos) => Ok((identifier.to_owned(), pos + 1)),
            },
        }
    }
}

/// Resolves a user token to a session ID alone.
pub fn resolve_session_identifier(
    identifier: &str,
    roster: &Vec<CachedSession>,
    aliases: &Aliases,
) -> (r: Result<String, ResolutionError>)
    ensures
        ({
            let s = spec_resolve(identifier@, roster@, aliases.entries@);
            match (r, s) {
                (Ok(id), Ok(q)) => id@ == q.0,
                (Err(e1), Err(e2)) => e1 == e2,
                _ => false,
            }
        }),
{
    match resolve_session_identifier_and_index(identifier, roster, aliases) {
        Ok((id, _index)) => Ok(id),
        Err(e) => Err(e),
    }
}

/// A successful decimal parse starts with a digit, so no index token
/// carries the alias sigil.
proof fn lemma_parsed_token_not_alias(identifier: Seq<char>)
    requires
        parse_usize(identifier) is Some,
    ensures
        !is_alias_token(identifier),
{
    assert(is_digit(identifier[0]));
    assert('@' as u32 == 64);
}

/// Index stability under append: a roster index that resolves keeps
/// resolving to the same session after a new session is appended.
pub proof fn lemma_index_stable_under_append(
    identifier: Seq<char>,
    roster: Seq<CachedSession>,
    aliases: Seq<StrMapEntry>,
    appended: CachedSession,
)
    requires
        parse_usize(identifier) is Some,
        1 <= parse_usize(identifier).unwrap() <= roster.len(),
    ensures
        spec_resolve(identifier, roster.push(appended), aliases) == spec_resolve(
            identifier,
            roster,
            aliases,
        ),
        spec_resolve(identifier, roster, aliases) == Ok::<_, ResolutionError>(
            (roster[parse_usize(identifier).unwrap() - 1].id@, parse_usize(identifier).unwrap() as int),
        ),
{
    lemma_parsed_token_not_alias(identifier);
    let v = parse_usize(identifier).unwrap() as int;
    assert(roster.push(appended)[v - 1] == roster[v - 1]);
}

/// Index shift under deletion: after the session at index `k` is
/// deleted, every session that sat at an index `j > k` resolves at index
/// `j - 1`; in particular the former `k + 1` now answers to `k`.
pub proof fn lemma_index_shift_under_deletion(roster: Seq<CachedSession>, k: int, j: int)
    requires
        1 <= k <= roster.len(),
        k < j <= roster.len(),
    ensures
        index_lookup(roster, j) == Ok::<_, ResolutionError>((roster[j - 1].id@, j)),
        index_lookup(roster.remove(k - 1), j - 1) == Ok::<_, ResolutionError>(
            (roster[j - 1].id@, j - 1),
        ),
{
    roster.remove_ensures(k - 1);
    assert(roster.remove(k - 1)[j - 2] == roster[j - 1]);
}

/// Alias resolution: an alias bound to the session at index `k` resolves
/// to the same session ID and the same index as `k` itself, provided the
/// roster's IDs are pairwise distinct.
pub proof fn lemma_alias_matches_index(
    alias: Seq<char>,
    roster: Seq<CachedSession>,
    aliases: Seq<StrMapEntry>,
    k: int,
)
    requires
        is_alias_token(alias),
        1 <= k <= roster.len(),
        ({
            let bound = map_lookup(aliases, alias);
            bound is Some && bound.unwrap()@ == roster[k - 1].id@
        }),
        forall|i: int, j: int| 0 <= i < j < roster.len() ==> roster[i].id@ != roster[j].id@,
    ensures
        spec_resolve(alias, roster, aliases) == index_lookup(roster, k),
        index_lookup(roster, k) == Ok::<_, ResolutionError>((roster[k - 1].id@, k)),
{
    let sid = map_lookup(aliases, alias).unwrap();
    lemma_roster_index_of(roster, sid@);
    match roster_index_of(roster, sid@) {
        Some(i) => {
            if i < k - 1 {
                assert(roster[i].id@ == roster[k - 1].id@);
                assert(false);
            }
            if i > k - 1 {
                assert(roster[k - 1].id@ != sid@);
                assert(false);
            }
        },
        None => {
            assert(roster[k - 1].id@ != sid@);
            assert(false);
        },
    }
}

/// Deleting a session removes its aliases: once every alias bound to the
/// deleted ID is dropped from the alias map, the alias no longer
/// resolves, whatever the roster now holds.
pub proof fn lemma_alias_removed_with_session(
    alias: Seq<char>,
    roster: Seq<CachedSession>,
    aliases: Seq<StrMapEntry>,
    dead: Seq<char>,
)
    requires
        is_alias_token(alias),
        roster.len() > 0,
        unique_keys(aliases),
        ({
            let bound = map_lookup(aliases, alias);
            bound is Some && bound.unwrap()@ == dead
        }),
    ensures
        spec_resolve(alias, roster, keep_values(aliases, other_values(dead))) == Err::<
            (Seq<char>, int),
            _,
        >(ResolutionError::AliasNotFound),
{
    lemma_keep_values_lookup(aliases, other_values(dead));
    assert(map_lookup(keep_values(aliases, other_values(dead)), alias) is None);
}


/// Deletes an alias: the name must carry the `@` sigil and be bound.
pub fn delete_alias(aliases: &mut Aliases, alias_name: &str) -> (r: Result<
    (),
    AliasCommandError,
>)
    requires
        old(aliases).wf(),
    ensures
        final(aliases).wf(),
        !is_alias_token(alias_name@) ==> r == Err::<(), _>(AliasCommandError::NotAnAlias)
            && final(aliases).entries@ == old(aliases).entries@,
        is_alias_token(alias_name@) && !has_key(old(aliases).entries@, alias_name@) ==> r == Err::<
            (),
            _,
        >(AliasCommandError::UnknownAlias) && final(aliases).entries@ == old(aliases).entries@,
        is_alias_token(alias_name@) && has_key(old(aliases).entries@, alias_name@) ==> {
            &&& r is Ok
            &&& map_lookup(final(aliases).entries@, alias_name@) is None
            &&& (forall|k2: Seq<char>| k2 != alias_name@ ==> #[trigger] map_lookup(
                final(aliases).entries@,
                k2,
            ) == map_lookup(old(aliases).entries@, k2))
        },
{
    let sigil = !alias_name.is_empty() && alias_name.get_char(0) == '@';
    if !sigil {
        return Err(AliasCommandError::NotAnAlias);
    }
    if aliases.remove(alias_name) {
        Ok(())
    } else {
        proof {
            lemma_drop_key_absent(old(aliases).entries@, alias_name@);
        }
        Err(AliasCommandError::UnknownAlias)
    }
}

/// Dropping a key that no entry has changes nothing.
proof fn lemma_drop_key_absent(s: Seq<StrMapEntry>, key: Seq<char>)
    requires
        !has_key(s, key),
    ensures
        crate::strmap::drop_key(s, key) == s,
    decreases s.len(),
{
    if s.len() == 0 {
        assert(crate::strmap::drop_key(s, key) =~= s);
    } else {
        assert(s[0].key@ != key);
        assert forall|i: int| 0 <= i < s.drop_first().len() implies (#[trigger] s.drop_first()[i]).key@
            != key by {
            assert(s.drop_first()[i] == s[i + 1]);
        }
        assert(!has_key(s.drop_first(), key));
        lemma_drop_key_absent(s.drop_first(), key);
        assert(crate::strmap::drop_key(s, key) =~= seq![s[0]] + s.drop_first());
        assert(seq![s[0]] + s.drop_first() =~= s);
    }
}

/// Creates an alias for the session at a 1-based roster index: the name
/// must carry the `@` sigil and the index must resolve.  Returns the
/// session ID the alias is now bound to.
pub fn create_alias(
    aliases: &mut Aliases,
    roster: &Vec<CachedSession>,
    alias_name: &str,
    session_number: usize,
) -> (r: Result<String, AliasCommandError>)
    requires
        old(aliases).wf(),
    ensures
        final(aliases).wf(),
        !is_alias_token(alias_name@) ==> r == Err::<String, _>(AliasCommandError::NotAnAlias)
            && final(aliases).entries@ == old(aliases).entries@,
        is_alias_token(alias_name@) ==> match index_lookup(roster@, session_number as int) {
            Err(e) => r == Err::<String, _>(AliasCommandError::BadSessionNumber { error: e })
                && final(aliases).entries@ == old(aliases).entries@,
            Ok(q) => {
                &&& r is Ok
                &&& (r->Ok_0)@ == q.0
                &&& map_lookup(final(aliases).entries@, alias_name@) == Some(r->Ok_0)
                &&& (forall|k2: Seq<char>| k2 != alias_name@ ==> #[trigger] map_lookup(
                    final(aliases).entries@,
                    k2,
                ) == map_lookup(old(aliases).entries@, k2))
            },
        },
{
    let sigil = !alias_name.is_empty() && alias_name.get_char(0) == '@';
    if !sigil {
        return Err(AliasCommandError::NotAnAlias);
    }
    if roster.len() == 0 {
        return Err(AliasCommandError::BadSessionNumber { error: ResolutionError::EmptyRoster });
    }
    if session_number == 0 {
        return Err(
            AliasCommandError::BadSessionNumber { error: ResolutionError::NonPositiveIndex },
        );
    }
    if session_number > roster.len() {
        return Err(
            AliasCommandError::BadSessionNumber { error: ResolutionError::IndexOutOfBounds },
        );
    }
    let id = roster[session_number - 1].id.clone();
    aliases.insert(alias_name.to_owned(), id.clone());
    Ok(id)
}

} // verus!
