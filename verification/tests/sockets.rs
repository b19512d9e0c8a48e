use warp_router::sockets::socket::strip_trailing_slash;
use warp_router::sockets::Rejections;
use warp_router::{RegistrationType, Socket, SocketType};

fn named(s: &str) -> Option<String> {
    Some(s.to_string())
}

#[test]
fn one_trailing_slash_is_taken_off() {
    assert_eq!(strip_trailing_slash("host/"), "host");
    assert_eq!(strip_trailing_slash("host"), "host");
    assert_eq!(strip_trailing_slash("host//"), "host/");
    assert_eq!(strip_trailing_slash("/"), "");
    assert_eq!(strip_trailing_slash(""), "");
    assert_eq!(strip_trailing_slash("/host"), "/host");
}

#[test]
fn socket_types_name_roles() {
    assert_eq!(SocketType::from_name(&named("host")), Some(SocketType::Host));
    assert_eq!(SocketType::from_name(&named("host/")), Some(SocketType::Host));
    assert_eq!(SocketType::from_name(&named("client")), Some(SocketType::Client));
    assert_eq!(SocketType::from_name(&named("client/")), Some(SocketType::Client));
    assert_eq!(SocketType::from_name(&named("ho/st")), None);
    assert_eq!(SocketType::from_name(&named("host//")), None);
    assert_eq!(SocketType::from_name(&named("Host")), None);
    assert_eq!(SocketType::from_name(&named("socket")), None);
    assert_eq!(SocketType::from_name(&named("")), None);
    assert_eq!(SocketType::from_name(&None), None);
}

#[test]
fn a_wrong_key_is_refused_first() {
    for sock_type in [None, named("host"), named("bogus")] {
        assert_eq!(
            Socket::classify(RegistrationType::Lobby, false, &sock_type),
            Err(Rejections::IncorrectKey)
        );
        assert_eq!(
            Socket::classify(RegistrationType::HostClient, false, &sock_type),
            Err(Rejections::IncorrectKey)
        );
    }
}

#[test]
fn a_lobby_ignores_the_socket_type() {
    for sock_type in [None, named("host"), named("client"), named("bogus")] {
        assert_eq!(
            Socket::classify(RegistrationType::Lobby, true, &sock_type),
            Ok(SocketType::Socket)
        );
    }
}

#[test]
fn a_session_derives_the_role_from_the_socket_type() {
    let classify = |s: Option<String>| Socket::classify(RegistrationType::HostClient, true, &s);
    assert_eq!(classify(named("host")), Ok(SocketType::Host));
    assert_eq!(classify(named("host/")), Ok(SocketType::Host));
    assert_eq!(classify(named("client")), Ok(SocketType::Client));
    assert_eq!(classify(named("client/")), Ok(SocketType::Client));
    assert_eq!(classify(named("socket")), Err(Rejections::InvalidSockType));
    assert_eq!(classify(None), Err(Rejections::InvalidSockType));
}
