use kprs_web_api::access::{
    authorize_reset, begin_reset, candidates_of, check_credentials, is_authenticated,
    list_candidates, login, open_session, ResetDenied,
};
use kprs_web_api::cache::{get_voters_data, init_admin_data};
use kprs_web_api::model::{Admin, Campus, Candidate, Voter};
use kprs_web_api::resolver::{get_voters_data_redis, verify_admin_token, AuthError};

fn voter(name: &str, token: &str, campus: Campus) -> Voter {
    Voter { token: token.to_string(), name: name.to_string(), class: "X-C".to_string(), campus }
}

fn admin(id: &str, password: &str, session: Option<&str>) -> Admin {
    Admin {
        admin_id: id.to_string(),
        admin_password: password.to_string(),
        admin_session_token: session.map(|token| token.to_string()),
    }
}

fn candidate(name: &str, campus: Campus) -> Candidate {
    Candidate { name: name.to_string(), campus }
}

#[test]
fn credentials_need_id_and_password() {
    let admins = init_admin_data(Some(vec![admin("root", "pw1", None)]));
    assert!(check_credentials(&admins, "root", "pw1"));
    assert!(!check_credentials(&admins, "root", "pw2"));
    assert!(!check_credentials(&admins, "root", ""));
    assert!(!check_credentials(&admins, "staff", "pw1"));
    assert!(!check_credentials(&admins, "", ""));
}

#[test]
fn login_gives_a_session_token_that_verifies() {
    let mut admins = init_admin_data(Some(vec![
        admin("root", "pw1", None),
        admin("staff", "pw2", Some("OLD")),
    ]));
    let token = login(&mut admins, "staff", "pw2").unwrap();
    assert_eq!(token.chars().count(), 50);
    assert!(token.chars().all(|c| c.is_ascii_alphanumeric()));
    assert_eq!(verify_admin_token(&admins, &token), Ok(admin("staff", "pw2", Some(&token))));
    assert_eq!(verify_admin_token(&admins, "OLD"), Err(AuthError::Unauthorized));
    assert_eq!(admins.get(&"root".to_string()), Some(&admin("root", "pw1", None)));
}

#[test]
fn login_with_wrong_password_changes_nothing() {
    let mut admins = init_admin_data(Some(vec![admin("staff", "pw2", Some("OLD"))]));
    assert_eq!(login(&mut admins, "staff", "nope"), Err(AuthError::Unauthorized));
    assert_eq!(login(&mut admins, "nobody", "pw2"), Err(AuthError::Unauthorized));
    assert_eq!(admins.get(&"staff".to_string()), Some(&admin("staff", "pw2", Some("OLD"))));
    assert_eq!(admins.len(), 1);
}

#[test]
fn open_session_stores_the_given_token() {
    let mut admins = init_admin_data(Some(vec![admin("staff", "pw2", None)]));
    assert!(open_session(&mut admins, "staff", "pw2", "TOKEN-1".to_string()));
    assert_eq!(admins.get(&"staff".to_string()), Some(&admin("staff", "pw2", Some("TOKEN-1"))));
    assert!(!open_session(&mut admins, "staff", "bad", "TOKEN-2".to_string()));
    assert_eq!(admins.get(&"staff".to_string()), Some(&admin("staff", "pw2", Some("TOKEN-1"))));
}

#[test]
fn reset_needs_an_admin_and_a_known_voter() {
    let admins = init_admin_data(Some(vec![admin("root", "pw1", Some("S1"))]));
    let voters = get_voters_data(Some(vec![voter("Ani", "a", Campus::MM)]));
    assert_eq!(authorize_reset(&admins, &voters, "S1", "Ani"), Ok(()));
    assert_eq!(authorize_reset(&admins, &voters, "S1", "Zed"), Err(ResetDenied::NotFound));
    assert_eq!(authorize_reset(&admins, &voters, "bad", "Ani"), Err(ResetDenied::Unauthorized));
    assert_eq!(authorize_reset(&admins, &voters, "bad", "Zed"), Err(ResetDenied::Unauthorized));
}

#[test]
fn begun_reset_hands_out_a_voter_token() {
    let admins = init_admin_data(Some(vec![admin("root", "pw1", Some("S1"))]));
    let voters = get_voters_data(Some(vec![voter("Ani", "a", Campus::MM)]));
    let token = begin_reset(&admins, &voters, "S1", "Ani").unwrap();
    assert_eq!(token.chars().count(), 6);
    assert!(token.chars().all(|c| c.is_ascii_alphabetic()));
    assert_eq!(begin_reset(&admins, &voters, "S1", "Zed"), Err(ResetDenied::NotFound));
    assert_eq!(begin_reset(&admins, &voters, "", "Ani"), Err(ResetDenied::Unauthorized));
}

#[test]
fn reset_token_replaces_the_cached_one() {
    let admins = init_admin_data(Some(vec![admin("root", "pw1", Some("S1"))]));
    let voters = get_voters_data(Some(vec![voter("Ani", "a", Campus::MM)]));
    let token = begin_reset(&admins, &voters, "S1", "Ani").unwrap();
    let overrides = get_voters_data_redis(Some(vec![("Ani".to_string(), token.clone())])).unwrap();
    assert!(is_authenticated(&admins, &overrides, &voters, &token));
    assert!(!is_authenticated(&admins, &overrides, &voters, "a"));
}

#[test]
fn admins_and_voters_are_authenticated() {
    let admins = init_admin_data(Some(vec![admin("root", "pw1", Some("S1"))]));
    let voters = get_voters_data(Some(vec![voter("Ani", "a", Campus::MM)]));
    let overrides = get_voters_data_redis(Some(vec![])).unwrap();
    assert!(is_authenticated(&admins, &overrides, &voters, "S1"));
    assert!(is_authenticated(&admins, &overrides, &voters, "a"));
    assert!(!is_authenticated(&admins, &overrides, &voters, "pw1"));
    assert!(!is_authenticated(&admins, &overrides, &voters, ""));
}

#[test]
fn candidates_are_listed_by_campus() {
    let admins = init_admin_data(Some(vec![admin("root", "pw1", Some("S1"))]));
    let voters = get_voters_data(Some(vec![voter("Ani", "a", Campus::MM)]));
    let overrides = get_voters_data_redis(Some(vec![])).unwrap();
    let candidates = vec![
        candidate("Rina", Campus::MM),
        candidate("Bayu", Campus::PD),
        candidate("Sari", Campus::MM),
    ];
    let listing = list_candidates(&admins, &overrides, &voters, &candidates, "a").unwrap();
    assert_eq!(listing.mm, vec![candidate("Rina", Campus::MM), candidate("Sari", Campus::MM)]);
    assert_eq!(listing.pd, vec![candidate("Bayu", Campus::PD)]);
    assert!(list_candidates(&admins, &overrides, &voters, &candidates, "S1").is_ok());
    assert_eq!(
        list_candidates(&admins, &overrides, &voters, &candidates, "x").err(),
        Some(AuthError::Unauthorized)
    );
    assert!(candidates_of(&candidates, Campus::PD).len() == 1);
    assert!(candidates_of(&Vec::new(), Campus::PD).is_empty());
}
