use pie_signal::auth::{AuthError, Claims};
use pie_signal::message::{Delivery, Outbound, Task, WsError, WsMessage, WsOutboundEvents, WsResponse};
use pie_signal::server::Server;
use tokio::sync::mpsc::{channel, Receiver};

fn connect(s: &mut Server, c: u128, user: &str) -> Receiver<String> {
    let (tx, rx) = channel::<String>(8);
    s.connect(c, tx, user.to_string(), 1000);
    rx
}

fn only_response(r: &pie_signal::message::Reply, to: u128) -> WsResponse {
    assert_eq!(r.deliveries.len(), 1);
    assert_eq!(r.deliveries[0].to, to);
    match &r.deliveries[0].what {
        Outbound::Response(x) => x.clone(),
        other => panic!("unexpected {:?}", other),
    }
}

#[test]
fn ping_yields_pong() {
    let mut s = Server::new();
    let _rx = connect(&mut s, 1, "a");
    let r = s.route_text(1, "ping", Err("expected value at line 1 column 1".to_string()), 0);
    assert_eq!(r.deliveries, vec![Delivery { to: 1, what: Outbound::Text("pong".to_string()) }]);
    assert!(!r.close);
}

#[test]
fn unparsable_text_gets_error_and_stays_open() {
    let mut s = Server::new();
    let _rx = connect(&mut s, 1, "a");
    let r = s.route_text(1, "{oops", Err("key must be a string".to_string()), 0);
    assert_eq!(only_response(&r, 1), WsResponse::Error { message: "Invalid message format: key must be a string".to_string() });
    assert!(!r.close);
}

#[test]
fn create_mints_unused_room_without_joining() {
    let mut s = Server::new();
    let _rx = connect(&mut s, 1, "a");
    let r = s.route_text(1, "{\"type\":\"Create\"}", Ok(WsMessage::Create), 0);
    match only_response(&r, 1) {
        WsResponse::CreateOK { room_id } => {
            assert_eq!(room_id.len(), 21);
            assert!(room_id.chars().all(|ch| ch.is_ascii_alphanumeric() || ch == '_' || ch == '-'));
            assert!(!s.store().verify(&room_id));
        }
        other => panic!("unexpected {:?}", other),
    }
}

#[test]
fn join_without_room_mints_fresh_room() {
    let mut s = Server::new();
    let _rx = connect(&mut s, 1, "alice");
    let r = s.handle_join(1, None, "alice".to_string(), 5);
    let room = r.prune_room.clone().unwrap();
    assert_eq!(only_response(&r, 1), WsResponse::JoinOk { room: room.clone() });
    assert!(s.store().verify(&room));
}

#[test]
fn join_broadcasts_peer_joined_to_others() {
    let mut s = Server::new();
    let _a = connect(&mut s, 1, "alice");
    let _b = connect(&mut s, 2, "bob");
    s.handle_join(1, Some("R".to_string()), "alice".to_string(), 5);
    let r = s.handle_join(2, Some("R".to_string()), "bob".to_string(), 6);
    assert_eq!(r.deliveries.len(), 2);
    assert_eq!(r.deliveries[0], Delivery { to: 2, what: Outbound::Response(WsResponse::JoinOk { room: "R".to_string() }) });
    assert_eq!(r.deliveries[1], Delivery { to: 1, what: Outbound::Response(WsResponse::PeerJoined { user_id: "bob".to_string() }) });
    assert_eq!(r.prune_room, Some("R".to_string()));
}

#[test]
fn join_of_unknown_connection_is_error() {
    let mut s = Server::new();
    let r = s.handle_join(5, Some("R".to_string()), "x".to_string(), 0);
    assert_eq!(only_response(&r, 5), WsResponse::Error { message: "Connection not found".to_string() });
    assert!(!s.store().verify(&"R".to_string()));
}

#[test]
fn end_to_end_join_and_verify() {
    let mut s = Server::new();
    let _a = connect(&mut s, 1, "alice");
    let _b = connect(&mut s, 2, "bob");
    let _c = connect(&mut s, 3, "carol");
    let joined = s.route_text(1, "{\"type\":\"Join\",\"user_id\":\"alice\"}", Ok(WsMessage::Join { room: None, user_id: "alice".to_string() }), 10);
    let room = match only_response(&joined, 1) {
        WsResponse::JoinOk { room } => room,
        other => panic!("unexpected {:?}", other),
    };
    let v = s.route_text(2, "", Ok(WsMessage::VerifyRoom { room: room.clone() }), 11);
    assert_eq!(only_response(&v, 2), WsResponse::VerifySuccess { room });
    let n = s.route_text(3, "", Ok(WsMessage::VerifyRoom { room: "nonexistent".to_string() }), 12);
    assert_eq!(only_response(&n, 3), WsResponse::VerifyError { error: "Room does not exist".to_string() });
}

#[test]
fn second_offer_reuses_session() {
    let mut s = Server::new();
    let _a = connect(&mut s, 1, "a");
    let first = s.route_text(1, "", Ok(WsMessage::Offer { sdp: "v=0 one".to_string() }), 0);
    let session = match first.task {
        Task::Negotiate { session, created: true, .. } => session,
        other => panic!("unexpected {:?}", other),
    };
    let second = s.route_text(1, "", Ok(WsMessage::Offer { sdp: "v=0 two".to_string() }), 0);
    assert_eq!(second.task, Task::Negotiate { session, created: false, sdp: "v=0 two".to_string() });
    assert_eq!(s.peer_sessions().session_of(1), Some(session));
}

#[test]
fn offer_from_unknown_connection_is_error() {
    let mut s = Server::new();
    let r = s.handle_offer(4, "v=0".to_string());
    assert_eq!(only_response(&r, 4), WsResponse::Error { message: WsError::ConnectionNotFound.message() });
    assert_eq!(s.peer_sessions().session_of(4), None);
}

#[test]
fn ice_before_offer_is_connection_not_found() {
    let mut s = Server::new();
    let _a = connect(&mut s, 1, "a");
    let r = s.route_text(1, "", Ok(WsMessage::IceCandidate { candidate: "{}".to_string() }), 0);
    assert_eq!(only_response(&r, 1), WsResponse::Error { message: "Connection not found".to_string() });
    assert_eq!(r.task, Task::Nothing);
    assert!(!r.close);
}

#[test]
fn ice_after_offer_goes_to_session() {
    let mut s = Server::new();
    let _a = connect(&mut s, 1, "a");
    s.handle_offer(1, "v=0".to_string());
    let session = s.peer_sessions().session_of(1).unwrap();
    let r = s.handle_ice_candidate(1, "{\"candidate\":\"c\"}".to_string());
    assert!(r.deliveries.is_empty());
    assert_eq!(r.task, Task::AddCandidate { session, candidate: "{\"candidate\":\"c\"}".to_string() });
}

#[test]
fn refresh_token_asks_for_validation() {
    let mut s = Server::new();
    let _a = connect(&mut s, 1, "a");
    let r = s.route_text(1, "", Ok(WsMessage::RefreshToken { token: "t".to_string() }), 0);
    assert_eq!(r.task, Task::Authenticate { token: "t".to_string() });
    assert!(r.deliveries.is_empty());
}

#[test]
fn refresh_success_updates_metadata() {
    let mut s = Server::new();
    let _a = connect(&mut s, 1, "old");
    let claims = Claims { sub: "new".to_string(), aud: "authenticated".to_string(), exp: 9999 };
    let r = s.finish_refresh(1, Ok(claims), 77);
    assert_eq!(only_response(&r, 1), WsResponse::AuthOk);
    assert!(!r.close);
    let m = s.store().get_metadata(1).unwrap();
    assert_eq!(m.user_id, "new");
    assert_eq!(m.last_verified_at, 77);
}

#[test]
fn refresh_failure_closes_connection() {
    let mut s = Server::new();
    let _a = connect(&mut s, 1, "a");
    let r = s.finish_refresh(1, Err(AuthError::Expired), 77);
    assert_eq!(only_response(&r, 1), WsResponse::AuthFailed);
    assert!(r.close);
    assert_eq!(s.store().get_metadata(1).unwrap().user_id, "a");
}

#[test]
fn cleanup_of_sole_member_removes_room() {
    let mut s = Server::new();
    let _a = connect(&mut s, 1, "a");
    let r = s.handle_join(1, Some("R".to_string()), "a".to_string(), 0);
    assert_eq!(r.prune_room, Some("R".to_string()));
    s.handle_offer(1, "v=0".to_string());
    let session = s.peer_sessions().session_of(1);
    assert!(session.is_some());
    assert_eq!(s.cleanup(1), session);
    assert!(!s.store().verify(&"R".to_string()));
    assert!(s.sink_of(1).is_none());
    assert!(s.store().get_metadata(1).is_none());
    assert_eq!(s.cleanup(1), None);
}

#[test]
fn failed_broadcast_recipient_is_pruned() {
    let mut s = Server::new();
    let _a = connect(&mut s, 1, "a");
    let _b = connect(&mut s, 2, "b");
    let _c = connect(&mut s, 3, "c");
    s.handle_join(1, Some("R".to_string()), "a".to_string(), 0);
    s.handle_join(2, Some("R".to_string()), "b".to_string(), 0);
    let r = s.handle_join(3, Some("R".to_string()), "c".to_string(), 0);
    let mut notified: Vec<u128> = r.deliveries[1..].iter().map(|d| d.to).collect();
    notified.sort();
    assert_eq!(notified, vec![1, 2]);
    s.finish_broadcast(&"R".to_string(), &vec![2]);
    let mut m = s.store().members(&"R".to_string());
    m.sort();
    assert_eq!(m, vec![1, 3]);
}

#[test]
fn participants_reply_and_close() {
    let mut s = Server::new();
    let _a = connect(&mut s, 1, "alice");
    let _b = connect(&mut s, 2, "bob");
    s.handle_join(1, Some("R".to_string()), "alice".to_string(), 0);
    let r = s.list_participants(1);
    assert!(!r.close);
    assert_eq!(r.deliveries[0].what, Outbound::Event(WsOutboundEvents::Participants { users: vec!["alice".to_string()] }));
    let lonely = s.list_participants(2);
    assert!(lonely.close);
    assert!(lonely.deliveries.is_empty());
}

#[test]
fn connect_registers_sink_and_metadata() {
    let mut s = Server::new();
    assert!(s.sink_of(1).is_none());
    let _a = connect(&mut s, 1, "alice");
    assert!(s.sink_of(1).is_some());
    assert_eq!(s.store().get_metadata(1).unwrap().user_id, "alice");
}

#[test]
fn error_texts() {
    assert_eq!(WsError::InvalidMessage("x".to_string()).message(), "Invalid message: x");
    assert_eq!(WsError::InternalServerError.message(), "Internal server error");
    assert_eq!(WsError::RoomNotFound.message(), "Room not found");
}

#[test]
fn first_revision_join_uses_connected_user() {
    let mut s = Server::new();
    let _a = connect(&mut s, 1, "alice");
    let r = s.route_event(1, pie_signal::message::WsInboundEvents::Join { room: "R".to_string() }, 3);
    assert_eq!(r.deliveries, vec![Delivery { to: 1, what: Outbound::Event(WsOutboundEvents::JoinOk { room: "R".to_string() }) }]);
    assert_eq!(s.store().get_metadata(1).unwrap().user_id, "alice");
    assert!(s.store().verify(&"R".to_string()));
    let unknown = s.route_event(9, pie_signal::message::WsInboundEvents::Join { room: "R".to_string() }, 3);
    assert!(unknown.close);
    let listed = s.route_event(1, pie_signal::message::WsInboundEvents::ListParticipants, 4);
    assert_eq!(listed.deliveries[0].what, Outbound::Event(WsOutboundEvents::Participants { users: vec!["alice".to_string()] }));
}

#[test]
fn copies_keep_every_field() {
    let r = WsResponse::VerifyError { error: "Room does not exist".to_string() };
    assert_eq!(r.copy(), r);
    let a = WsResponse::Answer { sdp: "v=0".to_string() };
    assert_eq!(a.copy(), a);
    let k = pie_signal::auth::Jwk { kid: "k".to_string(), n: "n".to_string(), e: "e".to_string() };
    assert_eq!(k.copy(), k);
}

#[test]
fn release_session_keeps_connection() {
    let mut s = Server::new();
    let _a = connect(&mut s, 1, "a");
    s.handle_offer(1, "v=0".to_string());
    let session = s.peer_sessions().session_of(1);
    assert_eq!(s.release_session(1), session);
    assert!(s.sink_of(1).is_some());
    let again = s.handle_offer(1, "v=0".to_string());
    assert!(matches!(again.task, Task::Negotiate { created: true, .. }));
}

fn ids(v: &[&str]) -> Vec<String> {
    v.iter().map(|s| s.to_string()).collect()
}

#[test]
fn pick_fresh_takes_first_unused_draw() {
    let mut s = Server::new();
    let _a = connect(&mut s, 1, "a");
    s.handle_join(1, Some("taken".to_string()), "a".to_string(), 0);
    assert_eq!(s.pick_fresh(&ids(&["taken", "free1", "free2"])), Some("free1".to_string()));
    assert_eq!(s.pick_fresh(&ids(&["taken", "taken"])), None);
    assert_eq!(s.pick_fresh(&ids(&[])), None);
}

#[test]
fn create_from_draws() {
    let mut s = Server::new();
    let _a = connect(&mut s, 1, "a");
    s.handle_join(1, Some("taken".to_string()), "a".to_string(), 0);
    let r = s.create_from(1, &ids(&["taken", "fresh"]));
    assert_eq!(only_response(&r, 1), WsResponse::CreateOK { room_id: "fresh".to_string() });
    let none = s.create_from(1, &ids(&["taken"]));
    assert_eq!(only_response(&none, 1), WsResponse::Error { message: "Internal server error".to_string() });
}

#[test]
fn join_from_draws_mints_first_fresh() {
    let mut s = Server::new();
    let _a = connect(&mut s, 1, "a");
    let _b = connect(&mut s, 2, "b");
    s.handle_join(1, Some("taken".to_string()), "a".to_string(), 0);
    let r = s.join_from(2, None, "b".to_string(), 1, &ids(&["taken", "next"]));
    assert_eq!(r.prune_room, Some("next".to_string()));
    assert_eq!(only_response(&r, 2), WsResponse::JoinOk { room: "next".to_string() });
    let failed = s.join_from(2, None, "b".to_string(), 2, &ids(&["taken", "next"]));
    assert_eq!(only_response(&failed, 2), WsResponse::Error { message: "Internal server error".to_string() });
    assert_eq!(s.store().get_metadata(2).unwrap().room_id, Some("next".to_string()));
}

#[test]
fn each_member_notified_once() {
    let mut s = Server::new();
    for c in 1..=4u128 {
        let (tx, _rx) = channel::<String>(8);
        s.connect(c, tx, format!("u{}", c), 0);
        let r = s.handle_join(c, Some("R".to_string()), format!("u{}", c), 0);
        let mut to: Vec<u128> = r.deliveries[1..].iter().map(|d| d.to).collect();
        to.sort();
        to.dedup();
        assert_eq!(to.len(), r.deliveries.len() - 1);
        assert_eq!(to, (1..c).collect::<Vec<u128>>());
    }
}
