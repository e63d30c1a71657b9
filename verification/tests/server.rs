use fleetops::server::{parse_servers, Server, ServerConfigError};

#[test]
fn types_test_parse_server_with_name() {
    let server = Server::parse("myserver:ubuntu@192.168.1.10").unwrap();
    assert_eq!(server.name, "myserver");
    assert_eq!(server.ssh_host, Some("ubuntu@192.168.1.10".to_string()));
}

#[test]
fn types_test_parse_server_without_name() {
    let server = Server::parse("admin@192.168.1.20").unwrap();
    assert_eq!(server.name, "192.168.1.20");
    assert_eq!(server.ssh_host, Some("admin@192.168.1.20".to_string()));
}

#[test]
fn types_test_local_server() {
    let server = Server::local();
    assert!(server.is_local());
    assert_eq!(server.display_host(), "local");
}

#[test]
fn parse_cloud_vm_scenario() {
    let server = Server::parse("Cloud VM1:ubuntu@10.0.0.5").unwrap();
    assert_eq!(server.name, "Cloud VM1");
    assert_eq!(server.ssh_host, Some("ubuntu@10.0.0.5".to_string()));
    assert!(!server.is_local());
}

#[test]
fn parse_local_words_in_any_case() {
    for spec in ["local", "localhost", "LOCAL", "LocalHost", "  local \n", ""] {
        let s = Server::parse(spec).unwrap();
        assert!(s.is_local(), "{:?}", spec);
        assert_eq!(s.name, "localhost");
    }
    for spec in ["box:local", "box : LOCALHOST", "box:", " box :  "] {
        let s = Server::parse(spec).unwrap();
        assert!(s.is_local(), "{:?}", spec);
        assert_eq!(s.name, "box");
        assert_eq!(s.display_host(), "local");
    }
    assert!(!Server::parse("locals").unwrap().is_local());
    assert!(!Server::parse("x:local host").unwrap().is_local());
}

#[test]
fn parse_trims_each_part() {
    let s = Server::parse("  web 1 :  root@h  \n").unwrap();
    assert_eq!(s.name, "web 1");
    assert_eq!(s.ssh_host, Some("root@h".to_string()));
    assert_eq!(s.display_host(), "root@h");
}

#[test]
fn parse_names_a_bare_host_after_its_last_at() {
    assert_eq!(Server::parse("a@b@c").unwrap().name, "c");
    assert_eq!(Server::parse("plainhost").unwrap().name, "plainhost");
    assert_eq!(Server::parse("plainhost").unwrap().ssh_host, Some("plainhost".to_string()));
}

#[test]
fn parse_rejects_more_than_one_colon() {
    match Server::parse(" a:b:c ") {
        Err(ServerConfigError::InvalidFormat { input }) => assert_eq!(input, "a:b:c"),
        other => panic!("unexpected {:?}", other),
    }
    let e = Server::parse("a:b:c").unwrap_err();
    assert_eq!(
        e.message(),
        "invalid server format: 'a:b:c'. Expected 'name:user@host' or 'user@host'"
    );
}

#[test]
fn parse_with_a_configured_local_name() {
    let s = Server::parse_with_local_name("localhost", "tower").unwrap();
    assert_eq!(s.name, "tower");
    assert!(s.is_local());
    assert_eq!(s.display_host_or("this box"), "this box");
    assert_eq!(Server::local_named("tower").name, "tower");
}

#[test]
fn spec_round_trip_on_values() {
    for (name, host) in [("myserver", "ubuntu@192.168.1.10"), ("Cloud VM1", "ubuntu@10.0.0.5"), ("", "h")] {
        let s = Server::parse(&format!("{}:{}", name, host)).unwrap();
        assert_eq!((s.name.as_str(), s.display_host().as_str()), (name, host));
    }
}

#[test]
fn parse_servers_skips_blank_entries() {
    let v = parse_servers("a:u@h1, ,u@h2,,  local ,").unwrap();
    assert_eq!(v.len(), 3);
    assert_eq!(v[0].name, "a");
    assert_eq!(v[1].name, "h2");
    assert!(v[2].is_local());
    assert_eq!(parse_servers("").unwrap().len(), 0);
    assert_eq!(parse_servers(" , ").unwrap().len(), 0);
}

#[test]
fn parse_servers_reports_the_first_invalid_entry() {
    match parse_servers("a:u@h, x:y:z , p:q:r") {
        Err(ServerConfigError::InvalidFormat { input }) => assert_eq!(input, "x:y:z"),
        other => panic!("unexpected {:?}", other),
    }
}

#[test]
fn duplicate_keeps_every_field() {
    let s = Server::parse("n:u@h").unwrap();
    let d = s.duplicate();
    assert_eq!(d.name, "n");
    assert_eq!(d.ssh_host, Some("u@h".to_string()));
}

#[test]
fn server_error_messages() {
    assert_eq!(
        ServerConfigError::ServerNotFound { name: "x".to_string() }.message(),
        "server 'x' not found in configuration"
    );
    assert_eq!(ServerConfigError::EmptyServerList.message(), "empty server list");
    assert_eq!(
        ServerConfigError::DuplicateServer { name: "x".to_string() }.message(),
        "duplicate server name: 'x'"
    );
}

#[test]
fn test_parse_server_with_name() {
    let server = Server::parse("myserver:ubuntu@192.168.1.10").unwrap();
    assert_eq!(server.name, "myserver");
    assert_eq!(server.ssh_host, Some("ubuntu@192.168.1.10".to_string()));
}

#[test]
fn test_parse_server_without_name() {
    let server = Server::parse("admin@192.168.1.20").unwrap();
    assert_eq!(server.name, "192.168.1.20");
    assert_eq!(server.ssh_host, Some("admin@192.168.1.20".to_string()));
}

#[test]
fn test_local_server() {
    let server = Server::local();
    assert!(server.is_local());
    assert_eq!(server.display_host(), "local");
}
