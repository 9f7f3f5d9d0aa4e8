use provisioner::utils::server_iter;

#[test]
fn servers_of_the_default_fleet() {
    let servers = server_iter(2, 25565, "Mammoth Server");
    assert_eq!(
        servers,
        vec![
            (1, 25565, String::from("mammoth_server_25565"), String::from("Mammoth Server 1")),
            (2, 25566, String::from("mammoth_server_25566"), String::from("Mammoth Server 2")),
        ]
    );
}

#[test]
fn no_servers() {
    assert!(server_iter(0, 25565, "Mammoth Server").is_empty());
    assert!(server_iter(0, 65535, "").is_empty());
}

#[test]
fn ports_up_to_the_last() {
    let servers = server_iter(3, 65533, "X");
    let ports: Vec<u16> = servers.iter().map(|s| s.1).collect();
    assert_eq!(ports, vec![65533, 65534, 65535]);
    assert_eq!(servers[2].2, "x_65535");
    assert_eq!(servers[2].3, "X 3");
    let servers = server_iter(255, 0, "s");
    assert_eq!(servers.len(), 255);
    assert_eq!(servers[254], (255, 254, String::from("s_254"), String::from("s 255")));
}

#[test]
fn directory_is_in_lower_case_without_blanks() {
    let servers = server_iter(1, 7, "My  ÄRGER Server");
    assert_eq!(servers[0].2, "my__ärger_server_7");
    assert_eq!(servers[0].3, "My  ÄRGER Server 1");
}
