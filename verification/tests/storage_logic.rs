use shellmaster::models::{
    AuthType, KnownHost, KnownHostsConfig, ServerConfig, ServerData, ServerGroupData, SnippetCommand,
    SnippetGroup, SnippetsConfig,
};
use shellmaster::services::storage::{
    add_known_host, add_server, add_snippet_command, add_snippet_group, delete_server,
    delete_snippet_command, delete_snippet_group, find_known_host, get_groups, get_known_hosts_file,
    get_servers_file, get_settings_file, get_snippets_file, known_host_key, legacy_key_candidates,
    migrate_legacy_private_keys, remove_known_host, set_known_host_last_used, update_server,
    update_server_last_connected, update_snippet_command, update_snippet_group,
};

fn server(id: &str, label: &str, group: Option<&str>) -> ServerData {
    ServerData {
        id: id.to_string(),
        label: label.to_string(),
        host: format!("{}.example.com", id),
        port: 22,
        username: "root".to_string(),
        auth_type: AuthType::Password,
        password_encrypted: None,
        private_key_path: None,
        private_key_filename: None,
        key_passphrase_encrypted: None,
        group_id: group.map(|g| g.to_string()),
        description: None,
        last_connected_at: None,
    }
}

fn group(id: &str, name: &str) -> ServerGroupData {
    ServerGroupData { id: id.to_string(), name: name.to_string(), icon_path: String::new() }
}

fn snippet_group(id: &str, parent: Option<&str>) -> SnippetGroup {
    SnippetGroup { id: id.to_string(), name: format!("group {}", id), parent_id: parent.map(|p| p.to_string()) }
}

fn command(id: &str, group: Option<&str>) -> SnippetCommand {
    SnippetCommand {
        id: id.to_string(),
        name: format!("cmd {}", id),
        command: format!("echo {}", id),
        group_id: group.map(|g| g.to_string()),
    }
}

#[test]
fn config_files_live_in_the_config_dir() {
    assert_eq!(get_servers_file("/home/u/.config/shellmaster"), "/home/u/.config/shellmaster/servers.json");
    assert_eq!(get_settings_file("/cfg/"), "/cfg/settings.json");
    assert_eq!(get_snippets_file("/cfg"), "/cfg/snippets.json");
    assert_eq!(get_known_hosts_file(""), "known_hosts.json");
}

#[test]
fn add_update_and_delete_servers() {
    let mut config = ServerConfig { groups: vec![group("g1", "Prod")], servers: vec![] };
    add_server(&mut config, server("a", "Alpha", Some("g1")));
    add_server(&mut config, server("b", "Beta", None));
    assert_eq!(config.servers.len(), 2);
    assert_eq!(config.servers[1].label, "Beta");

    let mut changed = server("b", "Beta 2", None);
    changed.port = 2222;
    assert!(update_server(&mut config, changed));
    assert_eq!(config.servers[1].label, "Beta 2");
    assert_eq!(config.servers[1].port, 2222);
    assert!(!update_server(&mut config, server("zzz", "Nobody", None)));
    assert_eq!(config.servers.len(), 2);

    delete_server(&mut config, "a");
    assert_eq!(config.servers.len(), 1);
    assert_eq!(config.servers[0].id, "b");
    // the group lost its last server and goes with it
    assert!(config.groups.is_empty());
}

#[test]
fn deleting_a_server_keeps_groups_still_in_use() {
    let mut config = ServerConfig {
        groups: vec![group("g1", "Prod"), group("g2", "Dev")],
        servers: vec![server("a", "A", Some("g1")), server("b", "B", Some("g1")), server("c", "C", Some("g2"))],
    };
    delete_server(&mut config, "a");
    assert_eq!(config.groups.len(), 2);
    delete_server(&mut config, "c");
    assert_eq!(config.groups.len(), 1);
    assert_eq!(config.groups[0].id, "g1");
    let groups = get_groups(&config);
    assert_eq!(groups.len(), 1);
    assert_eq!(groups[0].name, "Prod");
}

#[test]
fn last_connected_is_stamped() {
    let mut config = ServerConfig { groups: vec![], servers: vec![server("a", "A", None)] };
    assert!(update_server_last_connected(&mut config, "a"));
    let stamp = config.servers[0].last_connected_at.clone().unwrap();
    // %Y-%m-%d %H:%M
    assert_eq!(stamp.len(), 16);
    assert_eq!(&stamp[4..5], "-");
    assert_eq!(&stamp[10..11], " ");
    assert!(!update_server_last_connected(&mut config, "missing"));
}

#[test]
fn snippet_groups_and_commands() {
    let mut config = SnippetsConfig { groups: vec![], commands: vec![] };
    add_snippet_group(&mut config, snippet_group("root", None));
    add_snippet_group(&mut config, snippet_group("child", Some("root")));
    add_snippet_command(&mut config, command("c1", Some("root")));
    add_snippet_command(&mut config, command("c2", None));
    assert_eq!(config.get_child_groups(None).len(), 1);
    assert_eq!(config.get_child_groups(Some("root"))[0].id, "child");
    assert_eq!(config.get_commands_in_group(Some("root"))[0].id, "c1");
    assert_eq!(config.get_commands_in_group(None)[0].id, "c2");

    let mut renamed = snippet_group("child", Some("root"));
    renamed.name = "Renamed".to_string();
    assert!(update_snippet_group(&mut config, renamed));
    assert_eq!(config.groups[1].name, "Renamed");
    assert!(!update_snippet_group(&mut config, snippet_group("nope", None)));

    let mut edited = command("c2", None);
    edited.command = "ls -la".to_string();
    assert!(update_snippet_command(&mut config, edited));
    assert_eq!(config.commands[1].command, "ls -la");
    assert!(!update_snippet_command(&mut config, command("nope", None)));

    delete_snippet_command(&mut config, "c2");
    assert_eq!(config.commands.len(), 1);
}

#[test]
fn deleting_a_snippet_group_removes_its_subtree() {
    let mut config = SnippetsConfig {
        groups: vec![
            snippet_group("a", None),
            snippet_group("b", Some("a")),
            snippet_group("c", Some("b")),
            snippet_group("d", None),
        ],
        commands: vec![command("x", Some("a")), command("y", Some("c")), command("z", Some("d")), command("w", None)],
    };
    delete_snippet_group(&mut config, "a");
    let ids: Vec<&str> = config.groups.iter().map(|g| g.id.as_str()).collect();
    assert_eq!(ids, vec!["d"]);
    let cmds: Vec<&str> = config.commands.iter().map(|c| c.id.as_str()).collect();
    assert_eq!(cmds, vec!["z", "w"]);
    // no command or group is left pointing at a deleted group
    for g in &config.groups {
        if let Some(p) = &g.parent_id {
            assert!(config.groups.iter().any(|x| &x.id == p));
        }
    }
}

#[test]
fn deleting_a_group_caught_in_a_parent_cycle_terminates() {
    let mut config = SnippetsConfig {
        groups: vec![snippet_group("a", Some("b")), snippet_group("b", Some("a")), snippet_group("c", None)],
        commands: vec![command("x", Some("b"))],
    };
    delete_snippet_group(&mut config, "a");
    assert_eq!(config.groups.len(), 1);
    assert_eq!(config.groups[0].id, "c");
    assert!(config.commands.is_empty());
}

#[test]
fn known_host_key_is_host_colon_port() {
    assert_eq!(known_host_key("example.com", 22), "example.com:22");
    assert_eq!(known_host_key("::1", 2222), "::1:2222");
}

#[test]
fn recorded_known_host_is_found_and_forgotten() {
    let mut config = KnownHostsConfig { hosts: vec![] };
    assert!(find_known_host(&config, "h", 22).is_none());
    add_known_host(&mut config, "h", 22, "ssh-ed25519", "SHA256:abc");
    let found = find_known_host(&config, "h", 22).unwrap();
    assert_eq!(found.fingerprint, "SHA256:abc");
    assert_eq!(found.key_type, "ssh-ed25519");
    assert_eq!(found.first_seen, found.last_used);
    // a new key for the same host replaces the old one in place
    add_known_host(&mut config, "h", 22, "ssh-rsa", "SHA256:def");
    assert_eq!(config.hosts.len(), 1);
    assert_eq!(find_known_host(&config, "h", 22).unwrap().fingerprint, "SHA256:def");
    assert!(find_known_host(&config, "h", 23).is_none());
    remove_known_host(&mut config, "h", 22);
    assert!(find_known_host(&config, "h", 22).is_none());
}

#[test]
fn known_host_last_use_is_refreshed() {
    let mut config = KnownHostsConfig {
        hosts: vec![KnownHost {
            host: "h:22".to_string(),
            key_type: "t".to_string(),
            fingerprint: "f".to_string(),
            first_seen: "2024-01-01 00:00:00".to_string(),
            last_used: "2024-01-01 00:00:00".to_string(),
        }],
    };
    assert!(set_known_host_last_used(&mut config, "h", 22, "2025-02-02 10:00:00"));
    assert_eq!(config.hosts[0].last_used, "2025-02-02 10:00:00");
    assert_eq!(config.hosts[0].first_seen, "2024-01-01 00:00:00");
    assert!(!set_known_host_last_used(&mut config, "other", 22, "x"));
}

#[test]
fn legacy_private_keys_are_migrated() {
    let mut legacy = server("a", "A", None);
    legacy.auth_type = AuthType::PublicKey;
    legacy.private_key_path = Some("/home/u/.ssh/id_rsa".to_string());
    let mut modern = server("b", "B", None);
    modern.auth_type = AuthType::PublicKey;
    modern.private_key_filename = Some("b.key".to_string());
    let mut config = ServerConfig { groups: vec![], servers: vec![legacy, modern, server("c", "C", None)] };
    let candidates = legacy_key_candidates(&config);
    assert_eq!(candidates.len(), 1);
    assert_eq!(candidates[0].0, 0);
    assert_eq!(candidates[0].1, "/home/u/.ssh/id_rsa");
    let stored = vec![Some("a.key".to_string()), None, None];
    assert!(migrate_legacy_private_keys(&mut config, &stored));
    assert_eq!(config.servers[0].private_key_filename.as_deref(), Some("a.key"));
    assert!(config.servers[0].private_key_path.is_none());
    assert!(!migrate_legacy_private_keys(&mut config, &vec![None, None, None]));
}
