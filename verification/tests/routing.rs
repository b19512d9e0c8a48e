use warp_router::{Connection, Registration, RegistrationType, SocketType};

fn registration(reg_type: RegistrationType) -> Registration {
    Registration {
        uuid: String::from("abcd1234"),
        key: String::new(),
        host_key: String::new(),
        reg_type,
        connections: Vec::new(),
        destroy: false,
    }
}

fn session() -> Registration {
    let mut reg = registration(RegistrationType::HostClient);
    assert!(reg.insert_connection(String::from("h1"), SocketType::Host));
    assert!(reg.insert_connection(String::from("c1"), SocketType::Client));
    assert!(reg.insert_connection(String::from("h2"), SocketType::Host));
    assert!(reg.insert_connection(String::from("c2"), SocketType::Client));
    reg
}

fn names(ids: &[&str]) -> Vec<String> {
    ids.iter().map(|s| s.to_string()).collect()
}

#[test]
fn a_host_reaches_all_and_only_clients() {
    let reg = session();
    assert_eq!(reg.recipients(SocketType::Host, "h1"), names(&["c1", "c2"]));
    assert_eq!(reg.recipients(SocketType::Host, "h2"), names(&["c1", "c2"]));
}

#[test]
fn a_client_reaches_all_and_only_hosts() {
    let reg = session();
    assert_eq!(reg.recipients(SocketType::Client, "c1"), names(&["h1", "h2"]));
    assert_eq!(reg.recipients(SocketType::Client, "c2"), names(&["h1", "h2"]));
}

#[test]
fn a_lobby_peer_reaches_every_other_peer() {
    let mut reg = registration(RegistrationType::Lobby);
    for id in ["a", "b", "c"] {
        assert!(reg.insert_connection(id.to_string(), SocketType::Socket));
    }
    assert_eq!(reg.recipients(SocketType::Socket, "a"), names(&["b", "c"]));
    assert_eq!(reg.recipients(SocketType::Socket, "b"), names(&["a", "c"]));
    assert_eq!(reg.recipients(SocketType::Socket, "c"), names(&["a", "b"]));
}

#[test]
fn nobody_receives_from_an_empty_registration() {
    let reg = registration(RegistrationType::Lobby);
    assert!(reg.recipients(SocketType::Socket, "a").is_empty());
}

#[test]
fn the_audience_of_each_role() {
    assert_eq!(SocketType::Socket.recipient_role(), SocketType::Socket);
    assert_eq!(SocketType::Host.recipient_role(), SocketType::Client);
    assert_eq!(SocketType::Client.recipient_role(), SocketType::Host);
}

#[test]
fn an_attached_identifier_is_not_attached_twice() {
    let mut reg = registration(RegistrationType::Lobby);
    assert!(reg.insert_connection(String::from("a"), SocketType::Socket));
    assert!(!reg.insert_connection(String::from("a"), SocketType::Socket));
    assert_eq!(reg.connections.len(), 1);
}

#[test]
fn every_role_is_attached() {
    let mut lobby = registration(RegistrationType::Lobby);
    assert!(lobby.insert_connection(String::from("a"), SocketType::Host));
    assert!(lobby.insert_connection(String::from("b"), SocketType::Client));
    let id = lobby.add_connection(SocketType::Host);
    assert_eq!(lobby.connections.len(), 3);
    assert_eq!(
        lobby.connections[2],
        Connection { sock_type: SocketType::Host, uuid: id.clone() }
    );
    assert_eq!(lobby.connections[0].uuid, "a");
    assert_eq!(lobby.connections[1].uuid, "b");
    assert_eq!(lobby.uuid, "abcd1234");
    assert_eq!(lobby.reg_type, RegistrationType::Lobby);
    assert!(!lobby.destroy);
    let mut session = registration(RegistrationType::HostClient);
    assert!(session.insert_connection(String::from("a"), SocketType::Socket));
    let id = session.add_connection(SocketType::Socket);
    assert_eq!(session.connections.len(), 2);
    assert_eq!(session.connections[1].uuid, id);
}

#[test]
fn a_stray_role_hears_and_is_heard_by_its_audience_only() {
    let mut lobby = registration(RegistrationType::Lobby);
    for (id, role) in [("s1", SocketType::Socket), ("h", SocketType::Host), ("s2", SocketType::Socket)] {
        assert!(lobby.insert_connection(id.to_string(), role));
    }
    assert_eq!(lobby.recipients(SocketType::Socket, "s1"), names(&["s2"]));
    assert!(lobby.recipients(SocketType::Host, "h").is_empty());
}

#[test]
fn types_admit_their_roles() {
    assert!(!RegistrationType::Lobby.accepts(SocketType::Host));
    assert!(!RegistrationType::Lobby.accepts(SocketType::Client));
    assert!(!RegistrationType::HostClient.accepts(SocketType::Socket));
    assert!(RegistrationType::Lobby.accepts(SocketType::Socket));
    assert!(RegistrationType::HostClient.accepts(SocketType::Host));
    assert!(RegistrationType::HostClient.accepts(SocketType::Client));
}

#[test]
fn connections_are_found_and_detached() {
    let mut reg = session();
    assert_eq!(reg.find_connection("h2"), Some(2));
    assert_eq!(reg.find_connection("zz"), None);
    assert_eq!(
        reg.remove_connection("c1"),
        Some(Connection { sock_type: SocketType::Client, uuid: String::from("c1") })
    );
    assert_eq!(reg.remove_connection("c1"), None);
    assert_eq!(reg.find_connection("h2"), Some(1));
    assert_eq!(reg.connections.len(), 3);
    assert_eq!(reg.recipients(SocketType::Host, "h1"), names(&["c2"]));
}

#[test]
fn add_connection_draws_distinct_identifiers() {
    let mut reg = registration(RegistrationType::Lobby);
    let a = reg.add_connection(SocketType::Socket);
    let b = reg.add_connection(SocketType::Socket);
    assert_ne!(a, b);
    assert_eq!(reg.connections.len(), 2);
    assert_eq!(reg.connections[0].uuid, a);
    assert_eq!(reg.connections[1].uuid, b);
    assert_eq!(reg.connections[1].sock_type, SocketType::Socket);
}

#[test]
fn spawn_sending_names_the_registration() {
    let reg = registration(RegistrationType::HostClient);
    let forwarder = reg.spawn_sending(SocketType::Client, String::from("c9"));
    assert_eq!(forwarder.reg_uuid, "abcd1234");
    assert_eq!(forwarder.con_uuid, "c9");
    assert_eq!(forwarder.sock_type, SocketType::Client);
    assert_eq!(forwarder.state, warp_router::ForwarderState::Running);
}

#[test]
fn registration_types_have_names() {
    assert_eq!(RegistrationType::from_name("hostclient"), Some(RegistrationType::HostClient));
    assert_eq!(RegistrationType::from_name("lobby"), Some(RegistrationType::Lobby));
    assert_eq!(RegistrationType::from_name("Lobby"), None);
    assert_eq!(RegistrationType::from_name("lobby "), None);
    assert_eq!(RegistrationType::from_name(""), None);
    assert_eq!(RegistrationType::HostClient.name(), "HostClient");
    assert_eq!(RegistrationType::Lobby.name(), "Lobby");
}

#[test]
fn nobody_receives_a_frame_of_their_own() {
    let reg = session();
    for c in &reg.connections {
        assert!(!reg.recipients(c.sock_type, &c.uuid).contains(&c.uuid));
    }
    let mut lobby = registration(RegistrationType::Lobby);
    assert!(lobby.insert_connection(String::from("only"), SocketType::Socket));
    assert!(lobby.recipients(SocketType::Socket, "only").is_empty());
}

#[test]
fn every_recipient_is_named_once() {
    let reg = session();
    for c in &reg.connections {
        let ids = reg.recipients(c.sock_type, &c.uuid);
        for (i, id) in ids.iter().enumerate() {
            assert!(!ids[i + 1..].contains(id));
        }
    }
}

#[test]
fn a_free_drawn_identifier_is_minted_as_it_is() {
    let reg = session();
    assert_eq!(reg.mint(String::from("zz")), "zz");
    assert_eq!(reg.mint(String::new()), "");
    assert_eq!(
        reg.mint(String::from("0123456789abcdef0123456789abcdef")),
        "0123456789abcdef0123456789abcdef"
    );
    let empty = registration(RegistrationType::Lobby);
    assert_eq!(empty.mint(String::from("a")), "a");
}

#[test]
fn an_attached_drawn_identifier_is_padded_past_the_longest() {
    let mut reg = registration(RegistrationType::Lobby);
    assert!(reg.insert_connection(String::from("c1"), SocketType::Socket));
    assert_eq!(reg.longest_id(), 2);
    assert_eq!(reg.mint(String::from("c1")), "c10");
    assert!(reg.insert_connection(String::from("c10"), SocketType::Socket));
    assert!(reg.insert_connection(String::from("abcdef"), SocketType::Socket));
    assert_eq!(reg.longest_id(), 6);
    assert_eq!(reg.mint(String::from("c1")), "c100000");
    assert_eq!(reg.mint(String::from("c10")), "c100000");
    assert_eq!(reg.mint(String::from("abcdef")), "abcdef0");
    assert_eq!(reg.mint(String::from("c2")), "c2");
    for drawn in ["c1", "c10", "abcdef"] {
        assert_eq!(reg.find_connection(&reg.mint(drawn.to_string())), None);
    }
}

#[test]
fn the_longest_identifier_counts_characters() {
    let mut reg = registration(RegistrationType::Lobby);
    assert_eq!(reg.longest_id(), 0);
    assert!(reg.insert_connection(String::from("äöü"), SocketType::Socket));
    assert_eq!(reg.longest_id(), 3);
    assert_eq!(reg.mint(String::from("äöü")), "äöü0");
    assert!(reg.insert_connection(String::new(), SocketType::Socket));
    assert_eq!(reg.longest_id(), 3);
    assert_eq!(reg.mint(String::new()), "0000");
}

#[test]
fn a_connection_is_always_attached() {
    let mut lobby = registration(RegistrationType::Lobby);
    for n in 1..=20 {
        let id = lobby.add_connection(SocketType::Socket);
        assert_eq!(id.len(), 32);
        assert!(id.chars().all(|c| matches!(c, '0'..='9' | 'a'..='f')));
        assert_eq!(lobby.connections.len(), n);
        assert_eq!(lobby.connections[n - 1].uuid, id);
    }
    let mut session = registration(RegistrationType::HostClient);
    let host = session.add_connection(SocketType::Host);
    let client = session.add_connection(SocketType::Client);
    assert_ne!(host, client);
    assert_eq!(session.connections.len(), 2);
}
