use kprs_web_api::hub::{
    format_event, get_live_clients, handle_socket_message, Action, Delivery, Hub, SocketMessage,
    SocketReply, VoteEvent,
};
use kprs_web_api::model::Vote;

fn event(action: Action, voter: &str, candidate: &str) -> VoteEvent {
    VoteEvent {
        action,
        vote: Vote { voter_name: voter.to_string(), candidate_name: candidate.to_string() },
    }
}

#[test]
fn messages_name_action_voter_and_candidate() {
    assert_eq!(format_event(&event(Action::Create, "Ani", "Rina")), "v-c:Ani,Rina");
    assert_eq!(format_event(&event(Action::Update, "Ani", "Rina")), "v-u:Ani,Rina");
    assert_eq!(format_event(&event(Action::Delete, "Ani", "Rina")), "v-d:Ani,Rina");
    assert_eq!(format_event(&event(Action::Other, "Ani", "Rina")), "vAni,Rina");
}

#[test]
fn messages_keep_names_as_they_are() {
    assert_eq!(format_event(&event(Action::Create, "", "")), "v-c:,");
    assert_eq!(
        format_event(&event(Action::Create, "Putu Ayu, S.", "Dr. Ülkü")),
        "v-c:Putu Ayu, S.,Dr. Ülkü"
    );
}

#[test]
fn broadcast_reaches_every_connection_once() {
    let mut hub: Hub<u32> = Hub::new();
    hub.register("c1".to_string(), 1);
    hub.register("c2".to_string(), 2);
    hub.register("c3".to_string(), 3);
    let deliveries = hub.broadcast(&event(Action::Create, "Ani", "Rina"));
    let expected: Vec<Delivery> = ["c1", "c2", "c3"]
        .iter()
        .map(|id| Delivery { connection_id: id.to_string(), message: "v-c:Ani,Rina".to_string() })
        .collect();
    assert_eq!(deliveries, expected);
}

#[test]
fn deliver_sends_the_given_message_to_everybody() {
    let mut hub: Hub<u32> = Hub::new();
    hub.register("c1".to_string(), 1);
    hub.register("c2".to_string(), 2);
    let deliveries = hub.deliver("v-u:Ani,Sari");
    assert_eq!(
        deliveries,
        vec![
            Delivery { connection_id: "c1".to_string(), message: "v-u:Ani,Sari".to_string() },
            Delivery { connection_id: "c2".to_string(), message: "v-u:Ani,Sari".to_string() },
        ]
    );
    assert!(Hub::<u32>::new().deliver("x").is_empty());
}

#[test]
fn broadcast_to_nobody_is_empty() {
    let hub: Hub<u32> = Hub::new();
    assert!(hub.broadcast(&event(Action::Delete, "Ani", "Rina")).is_empty());
    assert!(get_live_clients(&hub).is_empty());
}

#[test]
fn disconnected_session_receives_nothing() {
    let mut hub: Hub<&str> = Hub::new();
    hub.register("c1".to_string(), "sink-1");
    hub.register("c2".to_string(), "sink-2");
    hub.register("c3".to_string(), "sink-3");
    assert_eq!(hub.unregister("c2"), Some("sink-2"));
    let deliveries = hub.broadcast(&event(Action::Create, "Ani", "Rina"));
    let ids: Vec<&str> = deliveries.iter().map(|d| d.connection_id.as_str()).collect();
    assert_eq!(ids, vec!["c1", "c3"]);
    assert!(deliveries.iter().all(|d| d.message == "v-c:Ani,Rina"));
    assert_eq!(hub.sink("c2"), None);
    assert_eq!(hub.sink("c3"), Some(&"sink-3"));
    assert_eq!(hub.unregister("c2"), None);
    assert_eq!(hub.len(), 2);
}

#[test]
fn registering_an_id_again_replaces_its_sink() {
    let mut hub: Hub<u32> = Hub::new();
    hub.register("c1".to_string(), 1);
    hub.register("c2".to_string(), 2);
    hub.register("c1".to_string(), 10);
    assert_eq!(hub.len(), 2);
    assert_eq!(hub.sink("c1"), Some(&10));
    assert_eq!(get_live_clients(&hub), vec!["c1".to_string(), "c2".to_string()]);
    assert_eq!(hub.connection_at(1), "c2");
}

#[test]
fn socket_messages_are_answered() {
    assert_eq!(
        handle_socket_message(SocketMessage::Ping(vec![1, 2, 3])),
        SocketReply::Pong(vec![1, 2, 3])
    );
    assert_eq!(handle_socket_message(SocketMessage::Ping(vec![])), SocketReply::Pong(vec![]));
    assert_eq!(handle_socket_message(SocketMessage::Other), SocketReply::Ignore);
    assert_eq!(handle_socket_message(SocketMessage::Closed), SocketReply::Unregister);
}
