use warp_router::stats::{proc_mem, summarise};
use warp_router::{
    return_stats, Config, RegistrationStats, RegistrationType, Registry, SocketType, SystemStats,
};

#[test]
fn unknown_process_memory_is_minus_one() {
    assert_eq!(proc_mem(None), -1);
    assert_eq!(proc_mem(Some(0)), 0);
    assert_eq!(proc_mem(Some(123_456)), 123_456);
    assert_eq!(proc_mem(Some(i64::MAX as u64)), i64::MAX);
    assert_eq!(proc_mem(Some(i64::MAX as u64 + 1)), i64::MIN);
    assert_eq!(proc_mem(Some(u64::MAX)), -1);
    for m in [0, 1, u64::MAX / 2, u64::MAX / 2 + 1, u64::MAX - 7] {
        assert_eq!(proc_mem(Some(m)), m as i64);
    }
}

#[test]
fn an_empty_registry_has_no_entries() {
    let stats = return_stats(&Registry::new(), 16, 8, None);
    assert!(stats.registrations.is_empty());
    assert_eq!(stats.system, SystemStats { total_mem: 16, used_mem: 8, proc_mem: -1 });
}

#[test]
fn every_registration_is_summarised_in_order() {
    let config = Config::default();
    let mut rgs = Registry::new();
    let open = rgs.create("p", "h", RegistrationType::Lobby, None, &config).unwrap();
    let session = rgs.create("k", "k", RegistrationType::HostClient, None, &config).unwrap();
    rgs.add_connection(&open, SocketType::Socket).unwrap();
    rgs.add_connection(&open, SocketType::Socket).unwrap();
    rgs.add_connection(&session, SocketType::Host).unwrap();

    let stats = return_stats(&rgs, 1000, 600, Some(42));
    assert_eq!(
        stats.registrations,
        vec![
            RegistrationStats {
                id: open.clone(),
                connections: 2,
                reg_type: String::from("Lobby"),
                destroy: false,
            },
            RegistrationStats {
                id: session.clone(),
                connections: 1,
                reg_type: String::from("HostClient"),
                destroy: false,
            },
        ]
    );
    assert_eq!(stats.system, SystemStats { total_mem: 1000, used_mem: 600, proc_mem: 42 });
}

#[test]
fn a_summary_shows_the_destroy_flag() {
    let config = Config::default();
    let mut rgs = Registry::new();
    let id = rgs.create("p", "h", RegistrationType::Lobby, None, &config).unwrap();
    let gone = rgs.remove(&id).unwrap();
    assert_eq!(
        summarise(&gone),
        RegistrationStats { id, connections: 0, reg_type: String::from("Lobby"), destroy: true }
    );
}
