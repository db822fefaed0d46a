use simhark::viewer::{
    handle_client_message, parse_world_selection, render_index, selected_state_index, sort_dedup,
    websocket_port, GameStateInfo, ViewerConfig, ViewerHost, GameStateTracker, GoalTracker, MessageEffect, WebControl,
    WorldSelection,
};

fn info(command: &str, counter: u32) -> GameStateInfo {
    GameStateInfo {
        command: command.to_string(),
        command_counter: counter,
        stage: None,
        blue_name: Some("blue:bangka".to_string()),
        yellow_name: None,
    }
}

fn count(t: &GameStateTracker, command: &str) -> u32 {
    t.counts.iter().find(|(c, _)| c == command).map(|(_, n)| *n).unwrap_or(0)
}

#[test]
fn game_state_counts_entries_not_ticks() {
    let mut t = GameStateTracker::new();
    assert!(t.snapshot().is_none());
    t.update(info("STOP", 1));
    t.update(info("STOP", 1));
    t.update(info("FORCE_START", 2));
    t.update(info("STOP", 3));
    t.update(info("STOP", 4));
    assert_eq!(count(&t, "STOP"), 3);
    assert_eq!(count(&t, "FORCE_START"), 1);
    let snap = t.snapshot().unwrap();
    assert_eq!(snap.command, "STOP");
    assert_eq!(snap.command_counter, 4);
    assert_eq!(snap.blue_name, Some("blue:bangka"));
    assert_eq!(snap.stage, None);
    assert_eq!(snap.state_counts.len(), 2);
}

#[test]
fn goal_tracker_counts_rising_edges() {
    let mut g = GoalTracker::new();
    g.observe(true, false);
    g.observe(true, false);
    g.observe(false, true);
    g.observe(true, true);
    assert_eq!(g.blue, 2);
    assert_eq!(g.yellow, 1);
}

#[test]
fn world_selection_parsing() {
    assert_eq!(parse_world_selection(" 3, 1,3 ,x, 2"), vec![1, 2, 3]);
    assert_eq!(parse_world_selection("ALL"), Vec::<usize>::new());
    assert_eq!(parse_world_selection(""), Vec::<usize>::new());
    assert_eq!(sort_dedup(&vec![5, 1, 5, 0]), vec![0, 1, 5]);
}

#[test]
fn world_selection_clamps_and_filters() {
    let mut s = WorldSelection::new();
    s.select_world(9, 4);
    assert_eq!(s.selected_world, 3);
    assert_eq!(s.selected_worlds, vec![3]);
    let t = WorldSelection { selected_world: 0, selected_worlds: vec![] };
    assert_eq!(t.selected_worlds(3), vec![0, 1, 2]);
    let u = WorldSelection { selected_world: 0, selected_worlds: vec![7, 8] };
    assert_eq!(u.selected_worlds(3), vec![0]);
    assert_eq!(u.selected_world(0), 0);
    assert_eq!(selected_state_index(&vec![4, 9, 2], 9), Some(1));
    assert_eq!(selected_state_index(&vec![4, 9, 2], 1), Some(1));
    assert_eq!(selected_state_index(&vec![4, 9, 2], 7), Some(0));
    assert_eq!(selected_state_index(&vec![], 0), None);
}

#[test]
fn client_messages() {
    let mut sel = WorldSelection::new();
    let mut control = WebControl::new();
    assert_eq!(handle_client_message("world: 5", &mut sel, &mut control), MessageEffect::Nothing);
    assert_eq!(sel.selected_world, 5);
    assert_eq!(sel.selected_worlds, vec![5]);
    handle_client_message("worlds:4,2,4", &mut sel, &mut control);
    assert_eq!(sel.selected_world, 2);
    assert_eq!(sel.selected_worlds, vec![2, 4]);
    handle_client_message("worlds:nope", &mut sel, &mut control);
    assert_eq!(sel.selected_worlds, vec![2, 4]);
    handle_client_message("worlds: All ", &mut sel, &mut control);
    assert_eq!(sel.selected_world, 0);
    assert!(sel.selected_worlds.is_empty());

    // Control is ignored until web control is enabled.
    handle_client_message("control:pause", &mut sel, &mut control);
    assert!(control.running);
    assert_eq!(handle_client_message("speed:2", &mut sel, &mut control), MessageEffect::Nothing);
    control.enable_web_control();
    assert!(!control.running);
    handle_client_message("control: start ", &mut sel, &mut control);
    assert!(control.running);
    handle_client_message("control:restart", &mut sel, &mut control);
    assert!(control.take_restart_request());
    assert!(!control.take_restart_request());
    handle_client_message("control:stop", &mut sel, &mut control);
    assert!(!control.running);
    assert!(control.take_stop_request());
    assert_eq!(handle_client_message("speed:1.5", &mut sel, &mut control), MessageEffect::Speed("1.5"));
    assert_eq!(handle_client_message("hello", &mut sel, &mut control), MessageEffect::Nothing);
}

#[test]
fn index_page_gets_the_port_script() {
    assert_eq!(websocket_port(8315), 8316);
    assert_eq!(websocket_port(u16::MAX), u16::MAX);
    assert_eq!(
        render_index(8316, "<html><head><title>x</title></head><body></body></html>"),
        "<html><head><title>x</title><script>window.__SIMHARK_WS_PORT__=8316;</script></head><body></body></html>"
    );
    assert_eq!(
        render_index(1, "<p>no head</p>"),
        "<script>window.__SIMHARK_WS_PORT__=1;</script><p>no head</p>"
    );
}

#[test]
fn viewer_urls() {
    let c = ViewerConfig::new();
    assert_eq!(c.http_url(), "http://127.0.0.1:8315");
    assert_eq!(c.websocket_port(), 8316);
    let v6 = ViewerConfig { host: ViewerHost::UnspecifiedV6, http_port: 80 };
    assert_eq!(v6.http_url(), "http://[::1]:80");
    let other = ViewerConfig { host: ViewerHost::Other("10.0.0.2".to_string()), http_port: 9 };
    assert_eq!(other.http_url(), "http://10.0.0.2:9");
}
