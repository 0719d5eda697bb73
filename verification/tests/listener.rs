use kprs_web_api::hub::{Action, Hub};
use kprs_web_api::ledger::{CastOutcome, Ledger};
use kprs_web_api::listener::{
    handle_live_changes, Command, EntityKind, ListenerState, StreamEvent,
};
use kprs_web_api::model::{Campus, Candidate, Vote, Voter};

fn changed(action: Action, vote: Option<(&str, &str)>) -> StreamEvent {
    StreamEvent::Changed {
        action,
        vote: vote.map(|(voter, candidate)| Vote {
            voter_name: voter.to_string(),
            candidate_name: candidate.to_string(),
        }),
    }
}

#[test]
fn subscription_opens_or_fails() {
    assert_eq!(
        handle_live_changes(EntityKind::Voter, ListenerState::Subscribing, StreamEvent::Subscribed),
        (ListenerState::Listening, Command::Idle)
    );
    assert_eq!(
        handle_live_changes(
            EntityKind::Voter,
            ListenerState::Subscribing,
            StreamEvent::SubscribeFailed
        ),
        (ListenerState::Failed, Command::Stop)
    );
    assert_eq!(
        handle_live_changes(EntityKind::Vote, ListenerState::Subscribing, StreamEvent::Ended),
        (ListenerState::Failed, Command::Stop)
    );
    assert_eq!(
        handle_live_changes(
            EntityKind::Vote,
            ListenerState::Subscribing,
            changed(Action::Create, Some(("Ani", "Rina")))
        ),
        (ListenerState::Subscribing, Command::Idle)
    );
}

#[test]
fn voter_and_admin_changes_refresh_their_snapshot() {
    assert_eq!(
        handle_live_changes(
            EntityKind::Voter,
            ListenerState::Listening,
            changed(Action::Update, None)
        ),
        (ListenerState::Listening, Command::Refresh(EntityKind::Voter))
    );
    assert_eq!(
        handle_live_changes(
            EntityKind::Admin,
            ListenerState::Listening,
            changed(Action::Create, None)
        ),
        (ListenerState::Listening, Command::Refresh(EntityKind::Admin))
    );
    assert_eq!(
        handle_live_changes(
            EntityKind::Admin,
            ListenerState::Listening,
            changed(Action::Delete, Some(("Ani", "Rina")))
        ),
        (ListenerState::Listening, Command::Refresh(EntityKind::Admin))
    );
}

#[test]
fn vote_changes_refresh_and_broadcast() {
    assert_eq!(
        handle_live_changes(
            EntityKind::Vote,
            ListenerState::Listening,
            changed(Action::Create, Some(("Ani", "Rina")))
        ),
        (ListenerState::Listening, Command::RefreshAndBroadcast("v-c:Ani,Rina".to_string()))
    );
    assert_eq!(
        handle_live_changes(
            EntityKind::Vote,
            ListenerState::Listening,
            changed(Action::Update, Some(("Ani", "Sari")))
        ),
        (ListenerState::Listening, Command::RefreshAndBroadcast("v-u:Ani,Sari".to_string()))
    );
    assert_eq!(
        handle_live_changes(
            EntityKind::Vote,
            ListenerState::Listening,
            changed(Action::Delete, Some(("Ani", "Sari")))
        ),
        (ListenerState::Listening, Command::RefreshAndBroadcast("v-d:Ani,Sari".to_string()))
    );
    assert_eq!(
        handle_live_changes(
            EntityKind::Vote,
            ListenerState::Listening,
            changed(Action::Other, Some(("Ani", "Sari")))
        ),
        (ListenerState::Listening, Command::RefreshAndBroadcast("vAni,Sari".to_string()))
    );
    assert_eq!(
        handle_live_changes(
            EntityKind::Vote,
            ListenerState::Listening,
            changed(Action::Create, None)
        ),
        (ListenerState::Listening, Command::Refresh(EntityKind::Vote))
    );
}

#[test]
fn faulty_notification_is_skipped() {
    assert_eq!(
        handle_live_changes(EntityKind::Vote, ListenerState::Listening, StreamEvent::Faulty),
        (ListenerState::Listening, Command::Idle)
    );
    assert_eq!(
        handle_live_changes(EntityKind::Voter, ListenerState::Subscribing, StreamEvent::Faulty),
        (ListenerState::Subscribing, Command::Idle)
    );
    assert_eq!(
        handle_live_changes(EntityKind::Voter, ListenerState::Listening, StreamEvent::Subscribed),
        (ListenerState::Listening, Command::Idle)
    );
}

#[test]
fn ended_stream_is_never_resumed() {
    let (state, command) =
        handle_live_changes(EntityKind::Admin, ListenerState::Listening, StreamEvent::Ended);
    assert_eq!((state, command), (ListenerState::Failed, Command::Stop));
    let events = vec![
        StreamEvent::Subscribed,
        StreamEvent::SubscribeFailed,
        changed(Action::Create, Some(("Ani", "Rina"))),
        StreamEvent::Faulty,
        StreamEvent::Ended,
    ];
    for event in events {
        assert_eq!(
            handle_live_changes(EntityKind::Vote, ListenerState::Failed, event),
            (ListenerState::Failed, Command::Stop)
        );
    }
}

#[test]
fn accepted_cast_reaches_every_connected_session() {
    let candidates = vec![Candidate { name: "Rina".to_string(), campus: Campus::MM }];
    let ani = Voter {
        token: "t".to_string(),
        name: "Ani".to_string(),
        class: "X".to_string(),
        campus: Campus::MM,
    };
    let mut ledger = Ledger::new();
    let mut hub: Hub<()> = Hub::new();
    hub.register("c1".to_string(), ());
    hub.register("c2".to_string(), ());
    hub.register("c3".to_string(), ());
    let pending = ledger.begin_cast(&candidates, &ani, "Rina").unwrap();
    let persisted = Vote {
        voter_name: pending.vote.voter_name.clone(),
        candidate_name: pending.vote.candidate_name.clone(),
    };
    assert_eq!(ledger.finish_cast(pending, true), CastOutcome::Accepted);
    hub.unregister("c2");
    let (state, command) = handle_live_changes(
        EntityKind::Vote,
        ListenerState::Listening,
        StreamEvent::Changed { action: Action::Create, vote: Some(persisted.clone()) },
    );
    assert_eq!(state, ListenerState::Listening);
    assert_eq!(command, Command::RefreshAndBroadcast("v-c:Ani,Rina".to_string()));
    let deliveries = hub.broadcast(&kprs_web_api::hub::VoteEvent {
        action: Action::Create,
        vote: persisted,
    });
    let sent: Vec<(&str, &str)> = deliveries
        .iter()
        .map(|d| (d.connection_id.as_str(), d.message.as_str()))
        .collect();
    assert_eq!(sent, vec![("c1", "v-c:Ani,Rina"), ("c3", "v-c:Ani,Rina")]);
}
