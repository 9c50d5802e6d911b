use shellmaster::state::{SessionState, SessionStatus, SidebarPanel};

fn state_with_tab() -> SessionState {
    let mut s = SessionState::default();
    s.add_tab_with_ids("t1".to_string(), "term1".to_string(), "srv1".to_string(), "Server 1".to_string());
    s
}

#[test]
fn new_session_state_is_empty() {
    let s = SessionState::default();
    assert!(s.tabs.is_empty());
    assert!(s.active_tab_id.is_none());
    assert!(s.show_home);
    assert!(!s.sidebar_collapsed);
    assert_eq!(s.active_sidebar_panel, SidebarPanel::Snippets);
    assert!(!s.has_sessions());
}

#[test]
fn adding_a_tab_activates_it_in_front() {
    let mut s = state_with_tab();
    s.add_tab_with_ids("t2".to_string(), "term2".to_string(), "srv2".to_string(), "Server 2".to_string());
    assert_eq!(s.tabs.len(), 2);
    assert_eq!(s.tabs[0].id, "t2");
    assert_eq!(s.tabs[1].id, "t1");
    assert_eq!(s.active_tab_id.as_deref(), Some("t2"));
    assert!(!s.show_home);
    let tab = &s.tabs[0];
    assert!(matches!(tab.status, SessionStatus::Connecting));
    assert_eq!(tab.terminals.len(), 1);
    assert_eq!(tab.terminals[0].index, 1);
    assert_eq!(tab.active_terminal_id.as_deref(), Some("term2"));
    assert!(s.has_sessions());
}

#[test]
fn add_tab_uses_fresh_ids() {
    let mut s = SessionState::default();
    let a = s.add_tab("srv".to_string(), "S".to_string());
    let b = s.add_tab("srv".to_string(), "S".to_string());
    assert_ne!(a, b);
    assert_eq!(s.tabs[0].id, b);
    assert_ne!(s.tabs[0].terminals[0].id, s.tabs[1].terminals[0].id);
    let t = &s.tabs[0];
    assert!(matches!(t.status, SessionStatus::Connecting));
    assert_eq!(t.terminals.len(), 1);
    assert_eq!(t.terminals[0].index, 1);
    assert!(!t.terminals[0].pty_initialized);
    assert_eq!(t.active_terminal_id.as_deref(), Some(t.terminals[0].id.as_str()));
    assert_eq!(t.terminal_counter, 1);
    assert!(t.server_data.is_none());
    assert!(!s.show_home);
}

#[test]
fn closing_the_only_other_tab_activates_the_remaining_one() {
    let mut s = state_with_tab();
    s.add_tab_with_ids("t2".to_string(), "term2".to_string(), "srv2".to_string(), "Server 2".to_string());
    s.activate_tab("t1");
    assert_eq!(s.active_tab_id.as_deref(), Some("t1"));
    assert!(s.close_tab("t1"));
    assert_eq!(s.tabs.len(), 1);
    assert_eq!(s.active_tab_id.as_deref(), Some("t2"));
    assert!(!s.close_tab("missing"));
    assert!(s.close_tab("t2"));
    assert!(s.active_tab_id.is_none());
}

#[test]
fn closing_the_active_tab_activates_the_next_one() {
    let mut s = state_with_tab();
    s.add_tab_with_ids("t2".to_string(), "term2".to_string(), "srv2".to_string(), "Server 2".to_string());
    s.add_tab_with_ids("t3".to_string(), "term3".to_string(), "srv3".to_string(), "Server 3".to_string());
    // order: t3, t2, t1
    s.activate_tab("t2");
    assert!(s.close_tab("t2"));
    assert_eq!(s.active_tab_id.as_deref(), Some("t1"));
    assert!(s.close_tab("t1"));
    assert_eq!(s.active_tab_id.as_deref(), Some("t3"));
}

#[test]
fn closing_another_tab_keeps_the_active_one() {
    let mut s = state_with_tab();
    s.add_tab_with_ids("t2".to_string(), "term2".to_string(), "srv2".to_string(), "Server 2".to_string());
    assert!(s.close_tab("t1"));
    assert_eq!(s.active_tab_id.as_deref(), Some("t2"));
}

#[test]
fn activating_an_unknown_tab_changes_nothing() {
    let mut s = state_with_tab();
    s.activate_tab("nope");
    assert_eq!(s.active_tab_id.as_deref(), Some("t1"));
    assert_eq!(s.active_tab().unwrap().id, "t1");
}

#[test]
fn tab_status_is_updated() {
    let mut s = state_with_tab();
    s.update_tab_status("t1", SessionStatus::Connected);
    assert!(matches!(s.tabs[0].status, SessionStatus::Connected));
    s.update_tab_status("t1", SessionStatus::Error("boom".to_string()));
    assert!(matches!(&s.tabs[0].status, SessionStatus::Error(e) if e == "boom"));
}

#[test]
fn sidebar_toggles_and_panels() {
    let mut s = SessionState::default();
    s.toggle_sidebar();
    assert!(s.sidebar_collapsed);
    s.set_sidebar_panel(SidebarPanel::Transfer);
    assert!(!s.sidebar_collapsed);
    assert_eq!(s.active_sidebar_panel, SidebarPanel::Transfer);
}

#[test]
fn snippet_groups_expand_and_collapse() {
    let mut s = SessionState::default();
    s.toggle_snippets_group("g1");
    s.toggle_snippets_group("g2");
    assert_eq!(s.snippets_expanded.len(), 2);
    s.toggle_snippets_group("g1");
    assert_eq!(s.snippets_expanded, vec!["g2".to_string()]);
}

#[test]
fn terminals_are_numbered_and_closed() {
    let mut s = state_with_tab();
    let id2 = s.add_terminal_with_id("t1", "term2".to_string()).unwrap();
    assert_eq!(id2, "term2");
    assert_eq!(s.tabs[0].terminals[1].index, 2);
    assert_eq!(s.active_terminal_id("t1").as_deref(), Some("term2"));
    let id3 = s.add_terminal_instance("t1").unwrap();
    assert_eq!(s.tabs[0].terminals[2].index, 3);
    assert_eq!(s.get_terminal_instances("t1").len(), 3);
    assert_eq!(s.active_terminal_instance("t1").unwrap().id, id3);
    // closing the active terminal activates the first one
    s.close_terminal_instance("t1", &id3);
    assert_eq!(s.get_terminal_instances("t1").len(), 2);
    assert_eq!(s.active_terminal_id("t1").as_deref(), Some("term1"));
    s.activate_terminal_instance("t1", "term2");
    assert_eq!(s.active_terminal_id("t1").as_deref(), Some("term2"));
    s.close_terminal_instance("t1", "term1");
    assert_eq!(s.active_terminal_id("t1").as_deref(), Some("term2"));
    // the last terminal of a tab stays
    s.close_terminal_instance("t1", "term2");
    assert_eq!(s.get_terminal_instances("t1").len(), 1);
    // numbering goes on from the counter
    s.add_terminal_with_id("t1", "term4".to_string());
    assert_eq!(s.tabs[0].terminals[1].index, 4);
    assert!(s.add_terminal_with_id("missing", "x".to_string()).is_none());
    assert!(s.get_terminal_instances("missing").is_empty());
}

#[test]
fn pseudo_terminal_lifecycle() {
    let mut s = state_with_tab();
    assert!(s.terminal_needing_pty("t1").is_none()); // not connected yet
    s.update_tab_status("t1", SessionStatus::Connected);
    assert_eq!(s.terminal_needing_pty("t1").as_deref(), Some("term1"));
    assert!(s.resize_target("t1").is_none());
    s.mark_pty_ready("t1", "term1", 80, 24);
    assert!(s.terminal_needing_pty("t1").is_none());
    assert_eq!(s.resize_target("t1").as_deref(), Some("term1"));
    assert_eq!(s.tabs[0].terminals[0].last_sent_pty_size, Some((80, 24)));
    // same size: nothing to send; a new size is sent once
    assert!(!s.note_pty_size("t1", "term1", 80, 24));
    assert!(s.note_pty_size("t1", "term1", 100, 30));
    assert!(!s.note_pty_size("t1", "term1", 100, 30));
    assert_eq!(s.tabs[0].terminals[0].last_sent_pty_size, Some((100, 30)));
    s.set_pty_error("t1", "term1", "no pty".to_string());
    assert_eq!(s.tabs[0].terminals[0].pty_error.as_deref(), Some("no pty"));
    s.reset_terminal_pty("t1", "term1");
    assert!(!s.tabs[0].terminals[0].pty_initialized);
    assert!(s.tabs[0].terminals[0].pty_error.is_none());
    assert_eq!(s.terminal_needing_pty("t1").as_deref(), Some("term1"));
}

#[test]
fn server_data_of_a_tab() {
    let s = state_with_tab();
    assert!(s.server_data_for_tab("t1").is_none());
    assert!(s.server_data_for_tab("missing").is_none());
}

#[test]
fn terminal_numbers_stay_distinct() {
    let mut s = state_with_tab();
    s.add_terminal_instance("t1");
    s.add_terminal_instance("t1");
    let second = s.tabs[0].terminals[1].id.clone();
    s.close_terminal_instance("t1", &second);
    s.add_terminal_instance("t1");
    let idx: Vec<u32> = s.tabs[0].terminals.iter().map(|t| t.index).collect();
    assert_eq!(idx, vec![1, 3, 4]);
    assert_eq!(s.tabs[0].terminal_counter, 4);
}
