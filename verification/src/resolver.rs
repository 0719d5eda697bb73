//! Token resolution: who, if anyone, a presented token authenticates as.
//!
//! Voters have two sources. The override store maps a voter's name to the
//! token that a forced reset gave out; the voter snapshot holds the token the
//! voter started with. An override wins, and a voter who has an override can
//! no longer use the cached token. Admins have one source, their snapshot.

use crate::cache::{AdminTable, VoterTable};
use crate::model::{Admin, AdminView, Voter, VoterView};
use crate::table::{text_views, StrMap};
use vstd::prelude::*;

verus! {

/// Why a token was not accepted.
#[derive(Debug, Clone, Copy, PartialEq, Eq, Structural)]
pub enum AuthError {
    /// The token authenticates nobody.
    Unauthorized,
    /// The token is the override of a name that the voter snapshot lacks.
    InternalError,
}

/// The tokens of `pairs` by name. Of two pairs with one name the later one
/// stays.
pub open spec fn index_pairs(pairs: Seq<(String, String)>) -> Map<Seq<char>, Seq<char>>
    decreases pairs.len(),
{
    if pairs.len() == 0 {
        Map::empty()
    } else {
        index_pairs(pairs.drop_last()).insert(pairs.last().0@, pairs.last().1@)
    }
}

/// The override table of what the override store returned, as pairs of name
/// and token. A failed read (`None`) is an `InternalError`: without the
/// overrides no token can be judged.
pub fn get_voters_data_redis(
    fetched: Option<Vec<(String, String)>>,
) -> (overrides: Result<StrMap<String>, AuthError>)
    ensures
        match overrides {
            Ok(table) => fetched is Some && text_views(table@) == index_pairs(fetched->0@),
            Err(error) => fetched is None && error == AuthError::InternalError,
        },
{
    let pairs = match fetched {
        Some(pairs) => pairs,
        None => {
            return Err(AuthError::InternalError);
        },
    };
    let mut table: StrMap<String> = StrMap::new();
    let mut i: usize = 0;
    assert(pairs@.take(0) =~= Seq::<(String, String)>::empty());
    assert(text_views(table@) =~= index_pairs(pairs@.take(0)));
    while i < pairs.len()
        invariant
            i <= pairs.len(),
            text_views(table@) == index_pairs(pairs@.take(i as int)),
        decreases pairs.len() - i,
    {
        let ghost before = table@;
        let name = pairs[i].0.clone();
        let token = pairs[i].1.clone();
        table.insert(name, token);
        proof {
            let upto = pairs@.take(i + 1);
            assert(upto.drop_last() =~= pairs@.take(i as int));
            assert(upto.last() == pairs@[i as int]);
            assert(text_views(table@) =~= text_views(before).insert(name@, token@));
        }
        i = i + 1;
    }
    assert(pairs@.take(pairs.len() as int) =~= pairs@);
    Ok(table)
}

/// Whether `token` is the current override token of `name`.
pub open spec fn holds_override(
    overrides: Map<Seq<char>, Seq<char>>,
    token: Seq<char>,
    name: Seq<char>,
) -> bool {
    overrides.contains_key(name) && overrides[name] == token
}

/// Whether `token` is the current override token of anybody.
pub open spec fn is_override_token(overrides: Map<Seq<char>, Seq<char>>, token: Seq<char>) -> bool {
    exists|name: Seq<char>| holds_override(overrides, token, name)
}

/// Whether `token` is the cached token of the cached voter `name`.
pub open spec fn holds_cached(
    voters: Map<Seq<char>, VoterView>,
    token: Seq<char>,
    name: Seq<char>,
) -> bool {
    voters.contains_key(name) && voters[name].token == token
}

/// Whether `name` may still authenticate by the cached token `token`: it is
/// the voter's cached token, and the voter was never reset.
pub open spec fn holds_fresh(
    overrides: Map<Seq<char>, Seq<char>>,
    voters: Map<Seq<char>, VoterView>,
    token: Seq<char>,
    name: Seq<char>,
) -> bool {
    holds_cached(voters, token, name) && !overrides.contains_key(name)
}

/// Whether `token` authenticates as the cached voter `name`. Where the token
/// is anybody's override, only the override counts.
pub open spec fn authenticates(
    overrides: Map<Seq<char>, Seq<char>>,
    voters: Map<Seq<char>, VoterView>,
    token: Seq<char>,
    name: Seq<char>,
) -> bool {
    if is_override_token(overrides, token) {
        holds_override(overrides, token, name) && voters.contains_key(name)
    } else {
        holds_fresh(overrides, voters, token, name)
    }
}

/// Whether `token` authenticates as some cached voter.
pub open spec fn authenticates_somebody(
    overrides: Map<Seq<char>, Seq<char>>,
    voters: Map<Seq<char>, VoterView>,
    token: Seq<char>,
) -> bool {
    exists|name: Seq<char>| authenticates(overrides, voters, token, name)
}

/// Whether `token` is to be turned away: it is nobody's override, and no
/// cached voter may still use it.
pub open spec fn is_unauthorized(
    overrides: Map<Seq<char>, Seq<char>>,
    voters: Map<Seq<char>, VoterView>,
    token: Seq<char>,
) -> bool {
    !is_override_token(overrides, token) && !authenticates_somebody(overrides, voters, token)
}

/// The view of an optional string.
pub open spec fn name_view(name: Option<String>) -> Option<Seq<char>> {
    match name {
        Some(text) => Some(text@),
        None => None,
    }
}

/// The precedence rule: the identity that two lookups of one token give.
pub open spec fn resolved(
    override_lookup: Option<Seq<char>>,
    cache_lookup: Option<Seq<char>>,
    cache_hit_was_reset: bool,
) -> Option<Seq<char>> {
    match override_lookup {
        Some(name) => Some(name),
        None => match cache_lookup {
            Some(name) => if cache_hit_was_reset {
                None
            } else {
                Some(name)
            },
            None => None,
        },
    }
}

/// Merges the two lookups of a token. `override_lookup` is the name whose
/// override token it is, `cache_lookup` the name whose cached token it is,
/// and `cache_hit_was_reset` says whether that second name has any override.
/// `None` stands for Unauthorized.
pub fn resolve(
    override_lookup: Option<String>,
    cache_lookup: Option<String>,
    cache_hit_was_reset: bool,
) -> (identity: Option<String>)
    ensures
        name_view(identity) == resolved(
            name_view(override_lookup),
            name_view(cache_lookup),
            cache_hit_was_reset,
        ),
{
    match override_lookup {
        Some(name) => Some(name),
        None => match cache_lookup {
            Some(name) => if cache_hit_was_reset {
                None
            } else {
                Some(name)
            },
            None => None,
        },
    }
}

/// Scans the override store for a name whose override token is `token`. A
/// name that the voter snapshot knows is preferred.
pub fn lookup_override(
    overrides: &StrMap<String>,
    voters: &VoterTable,
    token: &String,
) -> (found: Option<String>)
    ensures
        match found {
            Some(name) => {
                &&& holds_override(text_views(overrides@), token@, name@)
                &&& !voters@.contains_key(name@) ==> forall|other: Seq<char>|
                    holds_override(text_views(overrides@), token@, other)
                        ==> !voters@.contains_key(other)
            },
            None => !is_override_token(text_views(overrides@), token@),
        },
{
    proof {
        use_type_invariant(overrides);
        overrides.lemma_rows();
    }
    let mut uncached: Option<usize> = None;
    let mut i: usize = 0;
    let n = overrides.len();
    while i < n
        invariant
            i <= n,
            n == overrides.keys().len(),
            n == overrides.values().len(),
            forall|j: int|
                0 <= j < n ==> overrides@.contains_key(#[trigger] overrides.keys()[j])
                    && overrides@[overrides.keys()[j]] == overrides.values()[j],
            forall|j: int|
                0 <= j < i && (#[trigger] overrides.values()[j])@ == token@
                    ==> !voters@.contains_key(overrides.keys()[j]),
            match uncached {
                Some(k) => k < i && overrides.values()[k as int]@ == token@,
                None => forall|j: int| 0 <= j < i ==> (#[trigger] overrides.values()[j])@ != token@,
            },
        decreases n - i,
    {
        if *overrides.value_at(i) == *token {
            let name = overrides.key_at(i);
            if voters.contains(name) {
                return Some(name.clone());
            }
            if uncached.is_none() {
                uncached = Some(i);
            }
        }
        i = i + 1;
    }
    proof {
        assert forall|other: Seq<char>| #[trigger]
            holds_override(text_views(overrides@), token@, other) implies !voters@.contains_key(
            other,
        ) && uncached is Some by {
            let j = overrides.keys().index_of(other);
            assert(overrides.keys().contains(other));
            assert(0 <= j < n && overrides.keys()[j] == other);
            assert(overrides.values()[j]@ == token@);
        }
    }
    match uncached {
        Some(k) => Some(overrides.key_at(k).clone()),
        None => None,
    }
}

/// A voter found by the cached token.
#[derive(Debug)]
pub struct CacheHit {
    /// Name of the voter.
    pub name: String,
    /// Whether the voter has an override, so that the cached token is stale.
    pub was_reset: bool,
}

/// Scans the voter snapshot for a voter whose cached token is `token`, and
/// says whether that voter has an override. A voter without one is preferred.
pub fn lookup_cached(
    voters: &VoterTable,
    overrides: &StrMap<String>,
    token: &String,
) -> (found: Option<CacheHit>)
    ensures
        match found {
            Some(hit) => {
                &&& holds_cached(voters@, token@, hit.name@)
                &&& hit.was_reset == overrides@.contains_key(hit.name@)
                &&& hit.was_reset ==> forall|other: Seq<char>|
                    !holds_fresh(text_views(overrides@), voters@, token@, other)
            },
            None => forall|other: Seq<char>| !holds_cached(voters@, token@, other),
        },
{
    let mut stale: Option<usize> = None;
    let mut i: usize = 0;
    let n = voters.len();
    proof {
        voters.lemma_names();
        assert forall|j: int| 0 <= j < n implies voters@.contains_key(
            #[trigger] voters.names()[j],
        ) by {
            assert(voters.names().contains(voters.names()[j]));
        }
    }
    while i < n
        invariant
            i <= n,
            n == voters.names().len(),
            forall|j: int| 0 <= j < n ==> voters@.contains_key(#[trigger] voters.names()[j]),
            forall|j: int|
                0 <= j < i && voters@[#[trigger] voters.names()[j]].token == token@
                    ==> overrides@.contains_key(voters.names()[j]),
            match stale {
                Some(k) => k < i && voters@[voters.names()[k as int]].token == token@,
                None => forall|j: int|
                    0 <= j < i ==> voters@[#[trigger] voters.names()[j]].token != token@,
            },
        decreases n - i,
    {
        let voter = voters.voter_at(i);
        if voter.token == *token {
            if !overrides.contains_key(&voter.name) {
                return Some(CacheHit { name: voter.name.clone(), was_reset: false });
            }
            if stale.is_none() {
                stale = Some(i);
            }
        }
        i = i + 1;
    }
    proof {
        voters.lemma_names();
        assert forall|other: Seq<char>| #[trigger]
            holds_cached(voters@, token@, other) implies overrides@.contains_key(other)
            && stale is Some by {
            let j = voters.names().index_of(other);
            assert(voters.names().contains(other));
            assert(0 <= j < n && voters.names()[j] == other);
        }
    }
    let found = match stale {
        Some(k) => {
            let voter = voters.voter_at(k);
            let name = voter.name.clone();
            proof {
                assert(name@ == voters.names()[k as int]);
            }
            Some(CacheHit { name, was_reset: true })
        },
        None => None,
    };
    found
}

/// Resolves a voter's token against the override store and the voter
/// snapshot.
///
/// The voter returned is one that `token` authenticates as. `Unauthorized`
/// comes exactly when the token is nobody's override and no voter may still
/// use it as a cached token; `InternalError` exactly when it is somebody's
/// override, but of no cached voter.
pub fn verify_voter_token(
    cookie_user_token: &str,
    overrides: &StrMap<String>,
    voters: &VoterTable,
) -> (verdict: Result<Voter, AuthError>)
    ensures
        match verdict {
            Ok(voter) => authenticates(
                text_views(overrides@),
                voters@,
                cookie_user_token@,
                voter.name@,
            ) && voters@[voter.name@] == voter@,
            Err(AuthError::Unauthorized) => is_unauthorized(
                text_views(overrides@),
                voters@,
                cookie_user_token@,
            ),
            Err(AuthError::InternalError) => is_override_token(
                text_views(overrides@),
                cookie_user_token@,
            ) && !authenticates_somebody(text_views(overrides@), voters@, cookie_user_token@),
        },
{
    let token = cookie_user_token.to_owned();
    let override_lookup = lookup_override(overrides, voters, &token);
    let by_override = override_lookup.is_some();
    let (cache_lookup, was_reset) = match lookup_cached(voters, overrides, &token) {
        Some(hit) => (Some(hit.name), hit.was_reset),
        None => (None, false),
    };
    let ghost cached = name_view(cache_lookup);
    match resolve(override_lookup, cache_lookup, was_reset) {
        None => {
            proof {
                assert(cached is Some ==> was_reset);
            }
            Err(AuthError::Unauthorized)
        },
        Some(name) => match voters.get(&name) {
            Some(voter) => Ok(voter.clone()),
            None => {
                proof {
                    assert(by_override);
                }
                Err(AuthError::InternalError)
            },
        },
    }
}

/// Whether `token` is the session token of the cached admin `id`.
pub open spec fn holds_session(
    admins: Map<Seq<char>, AdminView>,
    token: Seq<char>,
    id: Seq<char>,
) -> bool {
    admins.contains_key(id) && admins[id].admin_session_token == Some(token)
}

/// Resolves an admin's token: it is accepted exactly when it equals the
/// session token of a cached admin, who is returned.
pub fn verify_admin_token(
    admins: &AdminTable,
    admin_token: &str,
) -> (verdict: Result<Admin, AuthError>)
    ensures
        match verdict {
            Ok(admin) => holds_session(admins@, admin_token@, admin.admin_id@)
                && admins@[admin.admin_id@] == admin@,
            Err(error) => error == AuthError::Unauthorized && forall|id: Seq<char>|
                !holds_session(admins@, admin_token@, id),
        },
{
    let token = admin_token.to_owned();
    let mut i: usize = 0;
    let n = admins.len();
    while i < n
        invariant
            i <= n,
            n == admins.ids().len(),
            token@ == admin_token@,
            forall|j: int|
                0 <= j < i ==> admins@[#[trigger] admins.ids()[j]].admin_session_token != Some(
                    admin_token@,
                ),
        decreases n - i,
    {
        let admin = admins.admin_at(i);
        match &admin.admin_session_token {
            Some(session) => {
                if *session == token {
                    return Ok(admin.clone());
                }
            },
            None => {},
        }
        i = i + 1;
    }
    proof {
        admins.lemma_ids();
        assert forall|id: Seq<char>| !holds_session(admins@, admin_token@, id) by {
            if admins@.contains_key(id) {
                let j = admins.ids().index_of(id);
                assert(admins.ids().contains(id));
                assert(0 <= j < n && admins.ids()[j] == id);
            }
        }
    }
    Err(AuthError::Unauthorized)
}

} // verus!
