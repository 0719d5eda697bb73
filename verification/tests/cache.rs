use kprs_web_api::cache::{
    find_candidate, get_all_admin_data, get_candidates_data, get_voters_data, init_admin_data,
    update_admin_data, update_voters_data, AdminTable, VoterTable,
};
use kprs_web_api::model::{Admin, Campus, Candidate, Voter};

fn voter(name: &str, token: &str, campus: Campus) -> Voter {
    Voter { token: token.to_string(), name: name.to_string(), class: "X-C".to_string(), campus }
}

fn admin(id: &str, password: &str, session: Option<&str>) -> Admin {
    Admin {
        admin_id: id.to_string(),
        admin_password: password.to_string(),
        admin_session_token: session.map(|token| token.to_string()),
    }
}

#[test]
fn voter_snapshot_holds_what_was_fetched() {
    let table = get_voters_data(Some(vec![
        voter("Ani", "a", Campus::MM),
        voter("Budi", "b", Campus::PD),
    ]));
    assert_eq!(table.len(), 2);
    assert!(table.contains(&"Ani".to_string()));
    assert!(!table.contains(&"ani".to_string()));
    assert_eq!(table.get(&"Budi".to_string()), Some(&voter("Budi", "b", Campus::PD)));
    assert_eq!(table.get(&"Cici".to_string()), None);
    assert_eq!(table.voter_at(0), &voter("Ani", "a", Campus::MM));
    assert_eq!(
        table.to_records(),
        vec![voter("Ani", "a", Campus::MM), voter("Budi", "b", Campus::PD)]
    );
}

#[test]
fn voter_snapshot_keeps_the_later_record_of_a_name() {
    let table = get_voters_data(Some(vec![
        voter("Ani", "first", Campus::MM),
        voter("Budi", "b", Campus::PD),
        voter("Ani", "second", Campus::PD),
    ]));
    assert_eq!(table.len(), 2);
    assert_eq!(table.get(&"Ani".to_string()), Some(&voter("Ani", "second", Campus::PD)));
    assert_eq!(
        table.to_records(),
        vec![voter("Ani", "second", Campus::PD), voter("Budi", "b", Campus::PD)]
    );
}

#[test]
fn failed_voter_fetch_leaves_an_empty_snapshot() {
    let mut table = get_voters_data(Some(vec![voter("Ani", "a", Campus::MM)]));
    update_voters_data(&mut table, None);
    assert_eq!(table.len(), 0);
    assert!(!table.contains(&"Ani".to_string()));
    assert_eq!(get_voters_data(None).len(), 0);
    assert_eq!(VoterTable::new().len(), 0);
}

#[test]
fn voter_refresh_replaces_the_snapshot() {
    let mut table = get_voters_data(Some(vec![voter("Ani", "a", Campus::MM)]));
    update_voters_data(&mut table, Some(vec![voter("Budi", "b", Campus::PD)]));
    assert!(!table.contains(&"Ani".to_string()));
    assert_eq!(table.to_records(), vec![voter("Budi", "b", Campus::PD)]);
}

#[test]
fn admin_snapshot_holds_what_was_fetched() {
    let table = init_admin_data(Some(vec![
        admin("root", "pw1", Some("S1")),
        admin("staff", "pw2", None),
        admin("root", "pw3", None),
    ]));
    assert_eq!(table.len(), 2);
    assert_eq!(table.get(&"root".to_string()), Some(&admin("root", "pw3", None)));
    assert_eq!(table.admin_at(1), &admin("staff", "pw2", None));
    assert_eq!(
        get_all_admin_data(&table),
        vec![admin("root", "pw3", None), admin("staff", "pw2", None)]
    );
}

#[test]
fn failed_admin_fetch_leaves_an_empty_snapshot() {
    let mut table = init_admin_data(Some(vec![admin("root", "pw1", None)]));
    update_admin_data(&mut table, None);
    assert_eq!(table.len(), 0);
    assert!(get_all_admin_data(&table).is_empty());
    assert_eq!(AdminTable::new().len(), 0);
    update_admin_data(&mut table, Some(vec![admin("staff", "pw2", None)]));
    assert_eq!(get_all_admin_data(&table), vec![admin("staff", "pw2", None)]);
}

#[test]
fn session_token_is_set_for_a_known_admin_only() {
    let mut table = init_admin_data(Some(vec![
        admin("root", "pw1", Some("S1")),
        admin("staff", "pw2", None),
    ]));
    assert!(table.set_session_token(&"staff".to_string(), "S2".to_string()));
    assert_eq!(table.get(&"staff".to_string()), Some(&admin("staff", "pw2", Some("S2"))));
    assert_eq!(table.get(&"root".to_string()), Some(&admin("root", "pw1", Some("S1"))));
    assert!(!table.set_session_token(&"nobody".to_string(), "S3".to_string()));
    assert_eq!(table.len(), 2);
    assert!(table.set_session_token(&"root".to_string(), "S4".to_string()));
    assert_eq!(table.get(&"root".to_string()), Some(&admin("root", "pw1", Some("S4"))));
}

#[test]
fn candidate_snapshot_is_the_fetched_list_or_empty() {
    let fetched = vec![
        Candidate { name: "Rina".to_string(), campus: Campus::MM },
        Candidate { name: "Bayu".to_string(), campus: Campus::PD },
    ];
    assert_eq!(get_candidates_data(Some(fetched.clone())), fetched);
    assert!(get_candidates_data(None).is_empty());
}

#[test]
fn candidate_is_found_by_name_and_campus() {
    let candidates = vec![
        Candidate { name: "Rina".to_string(), campus: Campus::MM },
        Candidate { name: "Bayu".to_string(), campus: Campus::PD },
        Candidate { name: "Rina".to_string(), campus: Campus::PD },
    ];
    assert_eq!(find_candidate(&candidates, &"Rina".to_string(), Campus::MM), Some(0));
    assert_eq!(find_candidate(&candidates, &"Rina".to_string(), Campus::PD), Some(2));
    assert_eq!(find_candidate(&candidates, &"Bayu".to_string(), Campus::MM), None);
    assert_eq!(find_candidate(&candidates, &"rina".to_string(), Campus::MM), None);
    assert_eq!(find_candidate(&Vec::new(), &"Rina".to_string(), Campus::MM), None);
}
