//! What the request handlers decide before and after they touch a store:
//! admin login, the admin's right to reset a voter, and who may read the
//! candidate list.

use crate::cache::{with_session, AdminTable, VoterTable};
use crate::model::{AdminView, Campus, Candidate, CandidateView, VoterView};
use crate::resolver::{
    authenticates_somebody, holds_session, verify_admin_token, verify_voter_token, AuthError,
};
use crate::table::{text_views, StrMap};
use crate::token::{
    generate_session_token, generate_token, is_alphanumeric, is_letter, SESSION_TOKEN_LENGTH,
    VOTER_TOKEN_LENGTH,
};
use vstd::prelude::*;

verus! {

/// Whether `password` is the password of the cached admin `id`.
pub open spec fn credentials_match(
    admins: Map<Seq<char>, AdminView>,
    id: Seq<char>,
    password: Seq<char>,
) -> bool {
    admins.contains_key(id) && admins[id].admin_password == password
}

/// Checks an admin's id and password against the snapshot.
pub fn check_credentials(
    admins: &AdminTable,
    admin_id: &str,
    admin_password: &str,
) -> (matches: bool)
    ensures
        matches == credentials_match(admins@, admin_id@, admin_password@),
{
    let id = admin_id.to_owned();
    let password = admin_password.to_owned();
    match admins.get(&id) {
        Some(admin) => admin.admin_password == password,
        None => false,
    }
}

/// Gives the admin `session_token` as session token, if id and password
/// match. Returns whether they do; where they do not, nothing changes.
pub fn open_session(
    admins: &mut AdminTable,
    admin_id: &str,
    admin_password: &str,
    session_token: String,
) -> (opened: bool)
    ensures
        opened == credentials_match(old(admins)@, admin_id@, admin_password@),
        final(admins)@ == (if opened {
            old(admins)@.insert(admin_id@, with_session(old(admins)@[admin_id@], session_token@))
        } else {
            old(admins)@
        }),
{
    if !check_credentials(admins, admin_id, admin_password) {
        return false;
    }
    let id = admin_id.to_owned();
    admins.set_session_token(&id, session_token)
}

/// Logs an admin in: where id and password match, a fresh session token is
/// drawn, stored in the snapshot and returned. Otherwise the login is
/// `Unauthorized` and nothing changes.
pub fn login(
    admins: &mut AdminTable,
    admin_id: &str,
    admin_password: &str,
) -> (session: Result<String, AuthError>)
    ensures
        session is Ok <==> credentials_match(old(admins)@, admin_id@, admin_password@),
        match session {
            Ok(token) => final(admins)@ == old(admins)@.insert(
                admin_id@,
                with_session(old(admins)@[admin_id@], token@),
            ) && token@.len() == SESSION_TOKEN_LENGTH && forall|i: int|
                0 <= i < token@.len() ==> is_alphanumeric(#[trigger] token@[i]),
            Err(error) => error == AuthError::Unauthorized && final(admins)@ == old(admins)@,
        },
{
    if !check_credentials(admins, admin_id, admin_password) {
        return Err(AuthError::Unauthorized);
    }
    let token = generate_session_token();
    let opened = open_session(admins, admin_id, admin_password, token.clone());
    assert(opened);
    Ok(token)
}

/// Why a reset was not begun.
#[derive(Debug, Clone, Copy, PartialEq, Eq, Structural)]
pub enum ResetDenied {
    /// The token is no admin's session token.
    Unauthorized,
    /// No voter of that name is cached.
    NotFound,
}

/// Whether `token` is the session token of some cached admin.
pub open spec fn is_admin_token(admins: Map<Seq<char>, AdminView>, token: Seq<char>) -> bool {
    exists|id: Seq<char>| holds_session(admins, token, id)
}

/// Whether an admin's request to reset a voter may go on.
pub open spec fn reset_verdict(
    admins: Map<Seq<char>, AdminView>,
    voters: Map<Seq<char>, VoterView>,
    admin_token: Seq<char>,
    voter_name: Seq<char>,
) -> Result<(), ResetDenied> {
    if !is_admin_token(admins, admin_token) {
        Err(ResetDenied::Unauthorized)
    } else if !voters.contains_key(voter_name) {
        Err(ResetDenied::NotFound)
    } else {
        Ok(())
    }
}

/// Checks an admin's request to reset a voter: the token must be an admin's
/// session token, and the voter must be cached.
pub fn authorize_reset(
    admins: &AdminTable,
    voters: &VoterTable,
    admin_token: &str,
    voter_name: &str,
) -> (verdict: Result<(), ResetDenied>)
    ensures
        verdict == reset_verdict(admins@, voters@, admin_token@, voter_name@),
{
    if verify_admin_token(admins, admin_token).is_err() {
        return Err(ResetDenied::Unauthorized);
    }
    let name = voter_name.to_owned();
    if !voters.contains(&name) {
        return Err(ResetDenied::NotFound);
    }
    Ok(())
}

/// Begins the reset of a voter: where the request may go on, draws the token
/// that the override store is to hold for the voter from now on.
pub fn begin_reset(
    admins: &AdminTable,
    voters: &VoterTable,
    admin_token: &str,
    voter_name: &str,
) -> (begun: Result<String, ResetDenied>)
    ensures
        match begun {
            Ok(token) => reset_verdict(admins@, voters@, admin_token@, voter_name@) is Ok
                && token@.len() == VOTER_TOKEN_LENGTH && forall|i: int|
                0 <= i < token@.len() ==> is_letter(#[trigger] token@[i]),
            Err(denied) => reset_verdict(admins@, voters@, admin_token@, voter_name@) == Err::<
                (),
                ResetDenied,
            >(denied),
        },
{
    match authorize_reset(admins, voters, admin_token, voter_name) {
        Ok(_) => Ok(generate_token()),
        Err(denied) => Err(denied),
    }
}

/// Whether `token` is an admin's session token or authenticates a voter.
pub fn is_authenticated(
    admins: &AdminTable,
    overrides: &StrMap<String>,
    voters: &VoterTable,
    token: &str,
) -> (known: bool)
    ensures
        known == (is_admin_token(admins@, token@) || authenticates_somebody(
            text_views(overrides@),
            voters@,
            token@,
        )),
{
    if verify_admin_token(admins, token).is_ok() {
        return true;
    }
    verify_voter_token(token, overrides, voters).is_ok()
}

/// The candidates of `campus` among `candidates`, in their order.
pub open spec fn of_campus(candidates: Seq<Candidate>, campus: Campus) -> Seq<CandidateView>
    decreases candidates.len(),
{
    if candidates.len() == 0 {
        Seq::empty()
    } else if candidates.last().campus == campus {
        of_campus(candidates.drop_last(), campus).push(candidates.last()@)
    } else {
        of_campus(candidates.drop_last(), campus)
    }
}

/// The views of `candidates`.
pub open spec fn candidate_views(candidates: Seq<Candidate>) -> Seq<CandidateView> {
    Seq::new(candidates.len(), |i: int| candidates[i]@)
}

/// Picks the candidates of `campus`.
pub fn candidates_of(candidates: &Vec<Candidate>, campus: Campus) -> (chosen: Vec<Candidate>)
    ensures
        candidate_views(chosen@) == of_campus(candidates@, campus),
{
    let mut chosen: Vec<Candidate> = Vec::new();
    let mut i: usize = 0;
    assert(candidates@.take(0) =~= Seq::<Candidate>::empty());
    assert(candidate_views(chosen@) =~= of_campus(candidates@.take(0), campus));
    while i < candidates.len()
        invariant
            i <= candidates.len(),
            candidate_views(chosen@) == of_campus(candidates@.take(i as int), campus),
        decreases candidates.len() - i,
    {
        let ghost before = chosen@;
        proof {
            let upto = candidates@.take(i + 1);
            assert(upto.drop_last() =~= candidates@.take(i as int));
            assert(upto.last() == candidates@[i as int]);
        }
        if candidates[i].campus == campus {
            chosen.push(candidates[i].clone());
            proof {
                assert(candidate_views(chosen@) =~= candidate_views(before).push(
                    candidates@[i as int]@,
                ));
            }
        }
        i = i + 1;
    }
    assert(candidates@.take(candidates.len() as int) =~= candidates@);
    chosen
}

/// The candidate list, campus by campus.
#[derive(Debug)]
pub struct CandidatesByCampus {
    pub mm: Vec<Candidate>,
    pub pd: Vec<Candidate>,
}

/// The candidate list for whoever presents `token`: an admin or a voter gets
/// the candidates of both campuses, anybody else is `Unauthorized`.
pub fn list_candidates(
    admins: &AdminTable,
    overrides: &StrMap<String>,
    voters: &VoterTable,
    candidates: &Vec<Candidate>,
    token: &str,
) -> (listing: Result<CandidatesByCampus, AuthError>)
    ensures
        listing is Ok <==> (is_admin_token(admins@, token@) || authenticates_somebody(
            text_views(overrides@),
            voters@,
            token@,
        )),
        match listing {
            Ok(list) => candidate_views(list.mm@) == of_campus(candidates@, Campus::MM)
                && candidate_views(list.pd@) == of_campus(candidates@, Campus::PD),
            Err(error) => error == AuthError::Unauthorized,
        },
{
    if !is_authenticated(admins, overrides, voters, token) {
        return Err(AuthError::Unauthorized);
    }
    Ok(
        CandidatesByCampus {
            mm: candidates_of(candidates, Campus::MM),
            pd: candidates_of(candidates, Campus::PD),
        },
    )
}

} // verus!
