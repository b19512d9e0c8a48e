use warp_router::{
    Action, Config, DrainReport, Forwarder, ForwarderState, Inbound, RegistrationType, Registry,
    Socket, SocketType,
};

fn lobby_with(n: usize) -> (Registry, String, Vec<Forwarder>) {
    let config = Config::default();
    let mut rgs = Registry::new();
    let id = rgs.create("p", "h", RegistrationType::Lobby, None, &config).unwrap();
    let mut forwarders = Vec::new();
    for _ in 0..n {
        forwarders.push(Socket::spawn_forwarding(id.clone(), &mut rgs, SocketType::Socket).unwrap());
    }
    (rgs, id, forwarders)
}

#[test]
fn a_forwarder_starts_running() {
    let (rgs, id, forwarders) = lobby_with(1);
    let forwarder = &forwarders[0];
    assert_eq!(forwarder.state, ForwarderState::Running);
    assert_eq!(forwarder.reg_uuid, id);
    assert_eq!(forwarder.sock_type, SocketType::Socket);
    assert_eq!(rgs.lookup(&id).unwrap().connections[0].uuid, forwarder.con_uuid);
}

#[test]
fn silence_is_answered_with_one_ping() {
    let (rgs, _, mut forwarders) = lobby_with(2);
    assert_eq!(forwarders[0].step(&rgs, Inbound::Idle), Action::Ping);
    assert_eq!(forwarders[0].state, ForwarderState::Running);
}

#[test]
fn a_pong_is_passed_over() {
    let (rgs, _, mut forwarders) = lobby_with(2);
    assert_eq!(forwarders[0].step(&rgs, Inbound::Pong), Action::Skip);
    assert_eq!(forwarders[0].state, ForwarderState::Running);
}

#[test]
fn a_failed_read_keeps_the_forwarder_running() {
    let (rgs, _, mut forwarders) = lobby_with(2);
    assert_eq!(forwarders[0].step(&rgs, Inbound::Failure), Action::Skip);
    assert_eq!(forwarders[0].state, ForwarderState::Running);
    assert_eq!(
        forwarders[0].step(&rgs, Inbound::Message),
        Action::Deliver(vec![forwarders[1].con_uuid.clone()])
    );
}

#[test]
fn the_end_of_the_stream_drains() {
    let (mut rgs, id, mut forwarders) = lobby_with(2);
    assert_eq!(forwarders[0].step(&rgs, Inbound::End), Action::Drain);
    assert_eq!(forwarders[0].state, ForwarderState::Draining);
    assert_eq!(forwarders[0].step(&rgs, Inbound::Message), Action::Drain);
    assert_eq!(forwarders[0].step(&rgs, Inbound::Idle), Action::Drain);
    assert_eq!(
        forwarders[0].drain(&mut rgs, true),
        DrainReport { detached: true, remaining: 1, removed: false }
    );
    assert_eq!(forwarders[0].state, ForwarderState::Closed);
    let reg = rgs.lookup(&id).unwrap();
    assert_eq!(reg.connections.len(), 1);
    assert_eq!(reg.connections[0].uuid, forwarders[1].con_uuid);
}

#[test]
fn a_closed_forwarder_does_nothing() {
    let (mut rgs, id, mut forwarders) = lobby_with(2);
    forwarders[0].drain(&mut rgs, false);
    assert_eq!(forwarders[0].step(&rgs, Inbound::Message), Action::Skip);
    assert_eq!(forwarders[0].step(&rgs, Inbound::Idle), Action::Skip);
    assert_eq!(forwarders[0].step(&rgs, Inbound::End), Action::Skip);
    assert_eq!(forwarders[0].state, ForwarderState::Closed);
    assert_eq!(
        forwarders[0].drain(&mut rgs, true),
        DrainReport { detached: false, remaining: 0, removed: false }
    );
    assert_eq!(rgs.lookup(&id).unwrap().connections.len(), 1);
}

#[test]
fn a_drained_peer_receives_no_more() {
    let (mut rgs, _, mut forwarders) = lobby_with(3);
    let mut gone = forwarders.remove(1);
    gone.drain(&mut rgs, false);
    assert_eq!(
        forwarders[0].step(&rgs, Inbound::Message),
        Action::Deliver(vec![forwarders[1].con_uuid.clone()])
    );
}

#[test]
fn the_last_forwarder_removes_the_registration() {
    let (mut rgs, id, mut forwarders) = lobby_with(2);
    let report = forwarders[0].drain(&mut rgs, true);
    assert!(report.detached && !report.removed);
    let report = forwarders[1].drain(&mut rgs, true);
    assert_eq!(report, DrainReport { detached: true, remaining: 0, removed: true });
    assert!(rgs.lookup(&id).is_none());
    assert_eq!(rgs.len(), 0);
}

#[test]
fn a_lone_socket_delivers_to_nobody() {
    let (rgs, _, mut forwarders) = lobby_with(1);
    assert_eq!(forwarders[0].step(&rgs, Inbound::Message), Action::Deliver(vec![]));
    assert_eq!(forwarders[0].state, ForwarderState::Running);
}

#[test]
fn a_destroyed_registration_delivers_nothing() {
    let (mut rgs, id, mut forwarders) = lobby_with(2);
    let mut reg = rgs.remove(&id).unwrap();
    assert!(reg.destroy);
    reg.uuid = String::from("0badcafe");
    assert!(rgs.insert(reg).is_ok());
    let mut stranded = Forwarder {
        reg_uuid: String::from("0badcafe"),
        con_uuid: forwarders[0].con_uuid.clone(),
        sock_type: SocketType::Socket,
        state: ForwarderState::Running,
    };
    assert_eq!(stranded.step(&rgs, Inbound::Message), Action::Drain);
    assert_eq!(stranded.state, ForwarderState::Draining);
    assert_eq!(forwarders[1].step(&rgs, Inbound::Message), Action::Drain);
}

#[test]
fn a_stranger_to_the_registration_drains() {
    let (rgs, id, _) = lobby_with(2);
    let mut stranger = Forwarder {
        reg_uuid: id,
        con_uuid: String::from("00000000000000000000000000000000"),
        sock_type: SocketType::Socket,
        state: ForwarderState::Running,
    };
    assert_eq!(stranger.step(&rgs, Inbound::Message), Action::Drain);
}
