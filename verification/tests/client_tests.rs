use champr::client::{
    apply_builds_blocker, apply_result_message, champion_name_for_id, choose_rune_source,
    extract_champion_id_from_session, selection_flags, socket_message_json, summoner_label, toggle_source,
    ChampSelectMessage, ChampSelectSession, MonitorAction, MonitorEvent, MonitorState,
    SessionAction, TeamMember,
};
use champr::cmd::CommandLineOutput;
use champr::config::collect_env_candidates;
use champr::web::ChampInfo;

fn member(cell: i64, champ: i64) -> TeamMember {
    TeamMember { cell_id: Some(cell), champion_id: Some(champ) }
}

fn action(cell: i64, kind: &str, champ: i64) -> SessionAction {
    SessionAction { actor_cell_id: Some(cell), action_type: Some(kind.to_string()), champion_id: Some(champ) }
}

fn session(cell: i64, team: Vec<TeamMember>, actions: Vec<Option<Vec<SessionAction>>>) -> ChampSelectSession {
    ChampSelectSession { local_player_cell_id: Some(cell), my_team: Some(team), actions: Some(actions) }
}

fn msg(uri: &str, event: &str, s: Option<ChampSelectSession>) -> ChampSelectMessage {
    ChampSelectMessage { uri: Some(uri.to_string()), event_type: Some(event.to_string()), session: s }
}

#[test]
fn champion_comes_from_team_then_actions() {
    let s = session(2, vec![member(1, 10), member(2, 107)], vec![]);
    assert_eq!(extract_champion_id_from_session(Some(&s)), 107);
    let s = session(2, vec![member(2, 0)], vec![Some(vec![action(2, "ban", 55)]), None, Some(vec![action(1, "pick", 9), action(2, "pick", 64)])]);
    assert_eq!(extract_champion_id_from_session(Some(&s)), 64);
    let s = session(3, vec![member(2, 1)], vec![Some(vec![action(3, "ban", 5)])]);
    assert_eq!(extract_champion_id_from_session(Some(&s)), 0);
    let no_cell = ChampSelectSession { local_player_cell_id: None, my_team: None, actions: None };
    assert_eq!(extract_champion_id_from_session(Some(&no_cell)), 0);
    assert_eq!(extract_champion_id_from_session(None), 0);
}

#[test]
fn monitor_follows_the_client_and_the_pick() {
    let mut st = MonitorState::new();
    assert!(matches!(st.step(MonitorEvent::Poll(None)), MonitorAction::Wait));
    let out = CommandLineOutput {
        auth_url: "riot:t@127.0.0.1:1".to_string(),
        dir: "C:/LoL/".to_string(),
        ..CommandLineOutput::default()
    };
    match st.step(MonitorEvent::Poll(Some(out.clone()))) {
        MonitorAction::ClientFound { auth_url, lol_dir, is_tencent } => {
            assert_eq!(auth_url, "riot:t@127.0.0.1:1");
            assert_eq!(lol_dir, "C:/LoL/");
            assert!(!is_tencent);
        }
        other => panic!("unexpected {:?}", other),
    }
    assert!(matches!(st.step(MonitorEvent::Poll(Some(out))), MonitorAction::Connect));
    let pick = msg("/lol-champ-select/v1/session", "Update", Some(session(1, vec![member(1, 107)], vec![])));
    assert!(matches!(st.step(MonitorEvent::Message(pick.clone())), MonitorAction::ShowChampion(107)));
    assert!(matches!(st.step(MonitorEvent::Message(pick)), MonitorAction::Ignore));
    let other = msg("/lol-gameflow/v1/session", "Update", None);
    assert!(matches!(st.step(MonitorEvent::Message(other)), MonitorAction::Ignore));
    let del = msg("/lol-champ-select/v1/session", "Delete", None);
    assert!(matches!(st.step(MonitorEvent::Message(del.clone())), MonitorAction::HideRunes));
    assert_eq!(st.current_champion_id, 0);
    assert!(matches!(st.step(MonitorEvent::Message(del)), MonitorAction::Ignore));
    assert!(matches!(st.step(MonitorEvent::ConnectFailed), MonitorAction::Wait));
    assert_eq!(st.current_auth_url, "riot:t@127.0.0.1:1");
    assert!(matches!(st.step(MonitorEvent::SocketClosed), MonitorAction::Wait));
    assert_eq!(st.current_auth_url, "");
}

#[test]
fn monitor_resets_when_the_client_goes_away() {
    let mut st = MonitorState::new();
    let out = CommandLineOutput { auth_url: "riot:a@127.0.0.1:2".to_string(), ..CommandLineOutput::default() };
    st.step(MonitorEvent::Poll(Some(out)));
    st.step(MonitorEvent::Message(msg("/lol-champ-select/v1/session", "Update", Some(session(0, vec![member(0, 3)], vec![])))));
    assert_eq!(st.current_champion_id, 3);
    assert!(matches!(st.step(MonitorEvent::Poll(None)), MonitorAction::ClientLost));
    assert_eq!(st.current_auth_url, "");
    assert_eq!(st.current_champion_id, 0);
}

#[test]
fn toggling_sources_adds_once_and_removes_all() {
    let mut sel = vec!["op.gg".to_string()];
    toggle_source(&mut sel, &"u.gg".to_string(), true);
    toggle_source(&mut sel, &"u.gg".to_string(), true);
    assert_eq!(sel, vec!["op.gg".to_string(), "u.gg".to_string()]);
    let mut dup = vec!["a".to_string(), "b".to_string(), "a".to_string()];
    toggle_source(&mut dup, &"a".to_string(), false);
    assert_eq!(dup, vec!["b".to_string()]);
}

#[test]
fn rune_source_prefers_the_saved_one() {
    let sources = vec!["op.gg".to_string(), "u.gg".to_string()];
    assert_eq!(choose_rune_source(&sources, &"u.gg".to_string()), (1, "u.gg".to_string()));
    assert_eq!(choose_rune_source(&sources, &"x".to_string()), (0, "op.gg".to_string()));
    assert_eq!(choose_rune_source(&vec![], &"x".to_string()), (0, String::new()));
}

#[test]
fn champion_names_are_found_by_key() {
    let champs = vec![
        ChampInfo { key: "1".to_string(), name: "Annie".to_string(), ..ChampInfo::default() },
        ChampInfo { key: "107".to_string(), name: "Rengar".to_string(), ..ChampInfo::default() },
    ];
    assert_eq!(champion_name_for_id(&champs, 107), "Rengar");
    assert_eq!(champion_name_for_id(&champs, 2), "");
}

#[test]
fn window_texts() {
    assert_eq!(selection_flags(&vec!["b".to_string()], &vec!["a".to_string(), "b".to_string()]), vec![false, true]);
    assert_eq!(apply_builds_blocker(0, "C:/"), Some("Select at least one source".to_string()));
    assert_eq!(apply_builds_blocker(1, ""), Some("League Client directory not found".to_string()));
    assert_eq!(apply_builds_blocker(1, "C:/"), None);
    assert_eq!(apply_result_message(true, 12), "Done! Applied builds for 12 champions");
    assert_eq!(apply_result_message(false, 12), "Error applying builds");
    assert_eq!(summoner_label(Some(("Faker".to_string(), "KR1".to_string(), "x".to_string()))), "Faker#KR1");
    assert_eq!(summoner_label(Some((String::new(), "t".to_string(), "Old Name".to_string()))), "Old Name");
    assert_eq!(summoner_label(None), "Connected");
}

#[test]
fn env_candidates_are_collected_once_each() {
    let mut candidates = vec!["/a/b/.env".to_string()];
    collect_env_candidates(&vec!["/a/b/.env".to_string(), "/a/.env".to_string(), "/.env".to_string()], &mut candidates);
    collect_env_candidates(&vec!["/x/.env".to_string(), "/a/.env".to_string()], &mut candidates);
    assert_eq!(candidates, vec!["/a/b/.env", "/a/.env", "/.env", "/x/.env"]);
}

#[test]
fn an_empty_auth_url_names_no_client() {
    let mut state = MonitorState::new();
    let out = CommandLineOutput {
        auth_url: "riot:t@127.0.0.1:1".to_string(),
        is_tencent: false,
        token: "t".to_string(),
        port: "1".to_string(),
        dir: "d/".to_string(),
    };
    assert!(matches!(state.step(MonitorEvent::Poll(Some(out))), MonitorAction::ClientFound { .. }));
    let empty = CommandLineOutput::default();
    assert!(matches!(state.step(MonitorEvent::Poll(Some(empty.clone()))), MonitorAction::ClientLost));
    assert_eq!(state.current_auth_url, "");
    assert!(matches!(state.step(MonitorEvent::Poll(Some(empty))), MonitorAction::Wait));
}

#[test]
fn socket_text_is_read_as_json() {
    assert!(socket_message_json("").is_none());
    assert!(socket_message_json("{oops").is_none());
    let v = socket_message_json("[8,\"OnJsonApiEvent\",{\"uri\":\"/x\"}]").unwrap();
    assert_eq!(v[2]["uri"], "/x");
}
