use shellmaster::models::{AuthType, ServerConfig, ServerData, ServerGroupData, SnippetCommand, SnippetGroup, SnippetsConfig};
use shellmaster::pages::connecting::{
    current_step_index, display_stage_list, host_key_message_key, log_marker, shows_cancel, step_tone,
    title_key, StepTone,
};
use shellmaster::pages::home::{
    format_date, history_items, known_host_target, recent_history, server_groups_view, truncate_display,
    HistoryLabels, MenuType, SnippetsNav,
};
use shellmaster::pages::session_panel::{effective_model, panel_title_key, shows_thinking, snippet_folder_state};
use shellmaster::pages::terminal_view::{
    command_bytes, reconnect_attempt_text, search_count_text, shows_close_button, terminal_error_kind,
    terminal_tab_label, terminal_view, TerminalErrorKind, TerminalView,
};
use shellmaster::services::ai::ChatRole;
use shellmaster::ssh::event::{ConnectionStage, LogLevel};
use shellmaster::state::{SessionStatus, SidebarPanel};

fn srv(id: &str, label: &str, group: Option<&str>, last: Option<&str>) -> ServerData {
    ServerData {
        id: id.to_string(),
        label: label.to_string(),
        host: "h".to_string(),
        port: 22,
        username: "u".to_string(),
        auth_type: AuthType::Password,
        password_encrypted: None,
        private_key_path: None,
        private_key_filename: None,
        key_passphrase_encrypted: None,
        group_id: group.map(|g| g.to_string()),
        description: None,
        last_connected_at: last.map(|l| l.to_string()),
    }
}

fn labels() -> HistoryLabels {
    HistoryLabels {
        just_now: "just now".to_string(),
        minutes_ago: " min ago".to_string(),
        hours_ago: " h ago".to_string(),
        days_ago: " d ago".to_string(),
    }
}

#[test]
fn connecting_page_steps() {
    assert_eq!(display_stage_list().len(), 7);
    assert_eq!(current_step_index(ConnectionStage::Initializing), 0);
    assert_eq!(current_step_index(ConnectionStage::ConnectingProxy), 0);
    assert_eq!(current_step_index(ConnectionStage::ConnectingJumpHost), 0);
    assert_eq!(current_step_index(ConnectionStage::ConnectingHost), 1);
    assert_eq!(current_step_index(ConnectionStage::Authenticating), 3);
    assert_eq!(current_step_index(ConnectionStage::Connected), 6);
    assert_eq!(step_tone(2, 2, true, ConnectionStage::Handshaking), StepTone::Failed);
    assert_eq!(step_tone(1, 2, true, ConnectionStage::Handshaking), StepTone::Passed);
    assert_eq!(step_tone(3, 2, false, ConnectionStage::Handshaking), StepTone::Pending);
    assert_eq!(step_tone(6, 6, false, ConnectionStage::Connected), StepTone::Succeeded);
    assert_eq!(title_key(true, ConnectionStage::Connected), "connecting.error_title");
    assert_eq!(title_key(false, ConnectionStage::Connected), "connecting.connected");
    assert_eq!(title_key(false, ConnectionStage::Handshaking), "connecting.title");
    assert_eq!(host_key_message_key(true), "connecting.host_key.key_changed");
    assert_eq!(host_key_message_key(false), "connecting.host_key.first_connection");
    assert_eq!(log_marker(LogLevel::Warn), "▲");
    assert_eq!(log_marker(LogLevel::Error), "✕");
    assert!(shows_cancel(ConnectionStage::Handshaking));
    assert!(!shows_cancel(ConnectionStage::Connected));
}

#[test]
fn terminal_area_choices() {
    assert!(matches!(
        terminal_view(&SessionStatus::Connected, Some("bad".to_string()), true),
        TerminalView::Failed(ref e) if e == "bad"
    ));
    assert!(matches!(
        terminal_view(&SessionStatus::Reconnecting { attempt: 2, max_attempts: 5 }, None, true),
        TerminalView::Reconnecting { attempt: 2, max_attempts: 5 }
    ));
    assert!(matches!(terminal_view(&SessionStatus::Disconnected, None, true), TerminalView::Disconnected));
    assert!(matches!(terminal_view(&SessionStatus::Connected, None, true), TerminalView::Live));
    assert!(matches!(terminal_view(&SessionStatus::Disconnected, None, false), TerminalView::Loading));
    assert_eq!(terminal_error_kind("terminal.disconnected"), TerminalErrorKind::Disconnected);
    assert_eq!(terminal_error_kind("terminal.shell_exited"), TerminalErrorKind::ShellExited);
    assert_eq!(terminal_error_kind("eof"), TerminalErrorKind::Other);
}

#[test]
fn terminal_labels_and_texts() {
    assert_eq!(terminal_tab_label(Some("vim"), "Terminal", 2), "vim");
    assert_eq!(terminal_tab_label(Some(""), "Terminal", 2), "Terminal 2");
    assert_eq!(terminal_tab_label(None, "终端", 10), "终端 10");
    assert!(shows_close_button(2, true));
    assert!(!shows_close_button(1, true));
    assert!(!shows_close_button(3, false));
    assert_eq!(search_count_text(3, 17), "3/17");
    assert_eq!(reconnect_attempt_text("Attempt", 1, 3), "Attempt 1/3");
    assert_eq!(command_bytes(""), None);
    assert_eq!(command_bytes("ls é"), Some(vec![b'l', b's', b' ', 0xc3, 0xa9, 0x0d]));
}

#[test]
fn snippet_browser_navigation() {
    let config = SnippetsConfig {
        groups: vec![
            SnippetGroup { id: "a".to_string(), name: "A".to_string(), parent_id: None },
            SnippetGroup { id: "b".to_string(), name: "B".to_string(), parent_id: Some("a".to_string()) },
        ],
        commands: vec![
            SnippetCommand { id: "c".to_string(), name: "C".to_string(), command: "ls".to_string(), group_id: Some("b".to_string()) },
            SnippetCommand { id: "d".to_string(), name: "D".to_string(), command: "pwd".to_string(), group_id: None },
        ],
    };
    let mut nav = SnippetsNav::new();
    assert!(nav.current_parent_id().is_none());
    assert_eq!(nav.current_groups(&config).len(), 1);
    assert_eq!(nav.current_commands(&config)[0].id, "d");
    nav.enter_group("a".to_string());
    nav.enter_group("b".to_string());
    assert_eq!(nav.current_parent_id().as_deref(), Some("b"));
    assert_eq!(nav.current_commands(&config)[0].id, "c");
    nav.go_to_level(1);
    assert_eq!(nav.current_parent_id().as_deref(), Some("a"));
    nav.go_to_level(5);
    assert_eq!(nav.current_path.len(), 1);
    nav.go_to_level(0);
    assert!(nav.current_path.is_empty());
    let expanded = vec!["a".to_string()];
    assert_eq!(snippet_folder_state(&config, "a", &expanded), (true, true));
    assert_eq!(snippet_folder_state(&config, "b", &expanded), (false, true));
    assert_eq!(snippet_folder_state(&config, "z", &expanded), (false, false));
}

#[test]
fn known_host_keys_are_split() {
    assert_eq!(known_host_target("example.com:22"), Some(("example.com".to_string(), 22)));
    assert_eq!(known_host_target("::1:2222"), Some(("::1".to_string(), 2222)));
    assert_eq!(known_host_target("h:+7"), Some(("h".to_string(), 7)));
    assert_eq!(known_host_target("h:65535"), Some(("h".to_string(), 65535)));
    assert_eq!(known_host_target("h:65536"), None);
    assert_eq!(known_host_target("h:"), None);
    assert_eq!(known_host_target("h:2a"), None);
    assert_eq!(known_host_target("nocolon"), None);
}

#[test]
fn display_shortening() {
    assert_eq!(truncate_display("SHA256:abcdef", 40), "SHA256:abcdef");
    assert_eq!(truncate_display("0123456789", 4), "0123...");
    assert_eq!(truncate_display("0123", 4), "0123");
    assert_eq!(truncate_display("éé", 2), "é...");
    // a cut inside a character moves back to the character boundary
    assert_eq!(truncate_display("echo 你好", 6), "echo ...");
    assert_eq!(truncate_display("éé", 3), "é...");
    assert_eq!(truncate_display("你", 0), "...");
    assert_eq!(format_date("2024-12-11 15:30:00"), "2024-12-11");
    assert_eq!(format_date("2024-12-11"), "2024-12-11");
}

#[test]
fn server_list_groups() {
    let config = ServerConfig {
        groups: vec![
            ServerGroupData { id: "g1".to_string(), name: "Prod".to_string(), icon_path: String::new() },
            ServerGroupData { id: "g2".to_string(), name: "Empty".to_string(), icon_path: String::new() },
        ],
        servers: vec![
            srv("a", "A", Some("g1"), Some("2024-01-01 10:00")),
            srv("b", "B", None, None),
            srv("c", "C", Some("ghost"), None),
        ],
    };
    let view = server_groups_view(&config, "never", "Ungrouped");
    assert_eq!(view.len(), 3);
    assert_eq!(view[0].name, "Prod");
    assert_eq!(view[0].servers.len(), 1);
    assert_eq!(view[0].servers[0].last_connected, "2024-01-01 10:00");
    assert_eq!(view[0].servers[0].description, "-");
    assert!(view[1].servers.is_empty());
    assert_eq!(view[2].name, "Ungrouped");
    assert_eq!(view[2].servers[0].last_connected, "never");
    let no_loose = ServerConfig { groups: vec![], servers: vec![srv("a", "A", Some("g1"), None)] };
    assert!(server_groups_view(&no_loose, "never", "Ungrouped").is_empty());
}

#[test]
fn recent_connections_newest_first() {
    let base = chrono::NaiveDateTime::parse_from_str("2024-01-01 10:00", "%Y-%m-%d %H:%M")
        .unwrap()
        .and_utc()
        .timestamp();
    let servers = vec![
        srv("a", "A", None, Some("2024-01-01 10:00")),
        srv("b", "B", None, Some("not a date")),
        srv("c", "C", None, Some("2024-01-01 09:00")),
        srv("d", "D", None, None),
        srv("e", "E", None, Some("2024-01-01 10:00")),
        srv("f", "F", None, Some("2023-12-25 10:00")),
    ];
    let items = history_items(&servers, base + 30, &labels());
    let names: Vec<&str> = items.iter().map(|i| i.name.as_str()).collect();
    assert_eq!(names, vec!["A", "E", "C", "F"]);
    assert_eq!(items[0].time, "just now");
    assert_eq!(items[2].time, "1 h ago");
    assert_eq!(items[3].time, "7 d ago");
    let later = history_items(&servers, base + 5 * 60, &labels());
    assert_eq!(later[0].time, "5 min ago");
    let future = history_items(&servers, base - 600, &labels());
    assert_eq!(future[0].time, "just now");
    let many: Vec<ServerData> = (0..12).map(|i| srv("x", &format!("S{}", i), None, Some("2024-01-01 10:00"))).collect();
    assert_eq!(history_items(&many, base, &labels()).len(), 10);
    assert!(recent_history(&many, &labels()).len() == 10);
}

#[test]
fn menu_and_panel_keys() {
    assert_eq!(MenuType::Hosts.id(), "hosts");
    assert_eq!(MenuType::KnownHosts.id(), "known_hosts");
    assert_eq!(MenuType::Snippets.label_key(), "sidebar.snippets");
    assert_eq!(MenuType::Monitor.label_key(), "sidebar.monitor");
    assert_eq!(panel_title_key(SidebarPanel::Snippets), "mini_sidebar.snippets");
    assert_eq!(panel_title_key(SidebarPanel::Transfer), "mini_sidebar.transfer");
}

#[test]
fn ai_chat_panel_choices() {
    assert!(shows_thinking(true, None));
    assert!(shows_thinking(true, Some((ChatRole::Assistant, "", None))));
    assert!(shows_thinking(true, Some((ChatRole::Assistant, "", Some("")))));
    assert!(!shows_thinking(true, Some((ChatRole::Assistant, "", Some("hmm")))));
    assert!(!shows_thinking(true, Some((ChatRole::User, "", None))));
    assert!(!shows_thinking(false, None));
    let models = vec!["m1".to_string(), "m2".to_string()];
    assert_eq!(effective_model(Some("m2"), &models, true, "d"), "m2");
    assert_eq!(effective_model(Some("zz"), &models, true, "d"), "m1");
    assert_eq!(effective_model(None, &vec![], true, "d"), "d");
    assert_eq!(effective_model(None, &vec![], false, "d"), "—");
}

#[test]
fn known_host_key_text_reads_back() {
    let key = shellmaster::services::storage::known_host_key("::1", 2222);
    assert_eq!(key, "::1:2222");
    assert_eq!(known_host_target(&key), Some(("::1".to_string(), 2222)));
    let key = shellmaster::services::storage::known_host_key("example.com", 0);
    assert_eq!(known_host_target(&key), Some(("example.com".to_string(), 0)));
}
