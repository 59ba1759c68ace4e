use telemon::config::SteamDeckGameStateConfig;
use telemon::linux::gamescope::{
    gamescope_xprop_args, DeckGameState, GameCandidate, GamescopeDetector, XpropEnvironment,
};
use telemon::linux::gamescope_detect::{xprop_attempt, DetectAction, DetectPhase, DetectionRun};
use telemon::linux::process_facts::{
    cmdline_text, desktop_game_candidate, desktop_window_pid, desktop_window_target,
    discover_steam_environment, environ_entries, environ_value, is_steam_comm, nul_fields,
    numeric_names, pid_alive, process_info, steam_app_id_from_environ, window_id_arg,
    SteamProcessFacts,
};

fn enabled_config() -> SteamDeckGameStateConfig {
    SteamDeckGameStateConfig {
        enabled: true,
        ..SteamDeckGameStateConfig::default()
    }
}

const GAME_XPROP: &str = "GAMESCOPE_FOCUSED_APP_GFX(CARDINAL) = 1234\n\
GAMESCOPE_FOCUSED_APP(CARDINAL) = 1234\n\
GAMESCOPE_FOCUSABLE_WINDOWS(CARDINAL) = 10, 1234, 4321\n";

// ---------------------------------------------------------------------------
// detection steps
// ---------------------------------------------------------------------------

#[test]
fn disabled_detection_finishes_at_once() {
    let detector = GamescopeDetector::new(SteamDeckGameStateConfig::default());
    let (run, action) = DetectionRun::start(&detector);
    assert!(matches!(action, DetectAction::Finished));
    let detection = run.finish();
    assert!(!detection.enabled);
    assert!(!detection.supported);
    assert_eq!(detection.state, DeckGameState::Idle);
    assert_eq!(detection.messages, vec!["disabled".to_string()]);
}

#[test]
fn supported_first_query_checks_processes_then_finishes() {
    let detector = GamescopeDetector::new(enabled_config());
    let (mut run, action) = DetectionRun::start(&detector);
    match action {
        DetectAction::RunXprop(env) => assert_eq!(env.display.as_deref(), Some(":0")),
        other => panic!("unexpected action {other:?}"),
    }
    let action = run.on_xprop(Ok(xprop_attempt(None, GAME_XPROP, "")));
    match action {
        DetectAction::CheckProcesses(pids) => assert_eq!(pids, vec![4321]),
        other => panic!("unexpected action {other:?}"),
    }
    let action = run.on_liveness(vec![true]);
    assert!(matches!(action, DetectAction::Finished));
    let detection = run.finish();
    assert!(detection.enabled);
    assert!(detection.supported);
    assert_eq!(detection.state, DeckGameState::GameFocusedVisible);
    assert_eq!(detection.snapshot.active_game_pid, Some(4321));
    assert!(detection.messages.is_empty());
}

#[test]
fn failed_first_query_retries_with_steam_display() {
    let detector = GamescopeDetector::new(enabled_config());
    let (mut run, _) = DetectionRun::start(&detector);
    let action = run.on_xprop(Err("not found".to_string()));
    assert!(matches!(action, DetectAction::DiscoverSteamEnvironment));
    assert_eq!(run.messages, vec!["failed to run xprop: not found".to_string()]);
    let steam = XpropEnvironment { display: Some(":1".to_string()), xauthority: None };
    let action = run.on_steam_environment(Some(steam));
    match action {
        DetectAction::RunXprop(env) => assert_eq!(env.display.as_deref(), Some(":1")),
        other => panic!("unexpected action {other:?}"),
    }
    assert_eq!(run.phase, DetectPhase::RetryXprop);
    let action = run.on_xprop(Ok(xprop_attempt(None, GAME_XPROP, "")));
    assert!(matches!(action, DetectAction::CheckProcesses(_)));
    assert_eq!(run.used_env.display.as_deref(), Some(":1"));
    assert!(run.supported);
}

#[test]
fn same_steam_display_is_not_queried_again() {
    let detector = GamescopeDetector::new(enabled_config());
    let (mut run, _) = DetectionRun::start(&detector);
    run.on_xprop(Ok(xprop_attempt(None, "", "")));
    let same = XpropEnvironment { display: Some(":0".to_string()), xauthority: None };
    let action = run.on_steam_environment(Some(same));
    match action {
        DetectAction::CheckProcesses(pids) => assert!(pids.is_empty()),
        other => panic!("unexpected action {other:?}"),
    }
}

#[test]
fn idle_state_tries_desktop_then_process_fallback() {
    let detector = GamescopeDetector::new(enabled_config());
    let (mut run, _) = DetectionRun::start(&detector);
    run.on_xprop(Ok(xprop_attempt(None, "", "")));
    run.on_steam_environment(None);
    let action = run.on_liveness(Vec::new());
    assert!(matches!(action, DetectAction::FindDesktopWindow(_)));
    let action = run.on_candidate(None);
    assert!(matches!(action, DetectAction::FindSteamProcessTree));
    let candidate = GameCandidate {
        app_id: 1234,
        pid: 99,
        state: DeckGameState::GameRunningBackground,
        detection_source: "steam_reaper_process".to_string(),
    };
    let action = run.on_candidate(Some(candidate));
    assert!(matches!(action, DetectAction::Finished));
    let detection = run.finish();
    assert!(detection.supported);
    assert_eq!(detection.state, DeckGameState::GameRunningBackground);
    assert_eq!(detection.snapshot.active_game_app_id, Some(1234));
    assert_eq!(detection.snapshot.active_game_pid, Some(99));
    assert_eq!(
        detection.messages,
        vec!["game state detected by steam_reaper_process".to_string()]
    );
}

#[test]
fn desktop_candidate_skips_process_fallback() {
    let detector = GamescopeDetector::new(enabled_config());
    let (mut run, _) = DetectionRun::start(&detector);
    run.on_xprop(Ok(xprop_attempt(None, "", "")));
    run.on_steam_environment(None);
    run.on_liveness(Vec::new());
    let candidate = desktop_game_candidate(77, true, false, Some(1234), "");
    let action = run.on_candidate(candidate);
    assert!(matches!(action, DetectAction::Finished));
    let detection = run.finish();
    assert_eq!(detection.state, DeckGameState::GameFocusedVisible);
    assert_eq!(
        detection.snapshot.detection_source.as_deref(),
        Some("desktop_active_window")
    );
}

#[test]
fn xprop_attempt_reports_failed_status_and_missing_atoms() {
    let attempt = xprop_attempt(
        Some("xprop exited with status 1".to_string()),
        "GAMESCOPE_FOCUSED_APP:  not found.\n",
        "",
    );
    assert_eq!(
        attempt.messages,
        vec![
            "xprop exited with status 1".to_string(),
            "GAMESCOPE_FOCUSED_APP:  not found.".to_string()
        ]
    );
    let quiet = xprop_attempt(None, "", "  some error \n");
    assert_eq!(quiet.messages, vec!["some error".to_string()]);
}

// ---------------------------------------------------------------------------
// process facts
// ---------------------------------------------------------------------------

#[test]
fn splits_on_nul_bytes() {
    assert_eq!(nul_fields(b"a\0bc\0"), vec![b"a".to_vec(), b"bc".to_vec(), Vec::new()]);
    assert_eq!(nul_fields(b""), vec![Vec::<u8>::new()]);
}

#[test]
fn cmdline_words_are_joined_with_spaces() {
    assert_eq!(cmdline_text(b"/usr/bin/game\0--flag\0\0x\0"), "/usr/bin/game --flag x");
    assert_eq!(cmdline_text(b"ok\0\xff\0end"), "ok end");
    assert_eq!(cmdline_text(b""), "");
}

#[test]
fn environ_entries_split_at_first_equals_and_last_wins() {
    let entries = environ_entries(b"A=1\0B=x=y\0junk\0A=2\0");
    assert_eq!(
        entries,
        vec![
            ("A".to_string(), "1".to_string()),
            ("B".to_string(), "x=y".to_string()),
            ("A".to_string(), "2".to_string()),
        ]
    );
    assert_eq!(environ_value(&entries, "A").as_deref(), Some("2"));
    assert_eq!(environ_value(&entries, "B").as_deref(), Some("x=y"));
    assert_eq!(environ_value(&entries, "C"), None);
}

#[test]
fn steam_app_id_prefers_app_id_then_game_id() {
    let entries = environ_entries(b"SteamAppId=769\0SteamGameId=1245620\0");
    assert_eq!(steam_app_id_from_environ(&entries), Some(1245620));
    let entries = environ_entries(b"SteamAppId=570\0SteamGameId=1245620\0");
    assert_eq!(steam_app_id_from_environ(&entries), Some(570));
    let entries = environ_entries(b"SteamAppId=abc\0");
    assert_eq!(steam_app_id_from_environ(&entries), None);
}

fn steam_facts(pid: u32, uid: u32, environ: &[u8]) -> SteamProcessFacts {
    SteamProcessFacts {
        pid,
        comm: Some("steam".to_string()),
        uid: Some(uid),
        environ: Some(environ_entries(environ)),
    }
}

#[test]
fn steam_environment_is_the_newest_client_of_this_user() {
    let facts = vec![
        steam_facts(100, 1000, b"DISPLAY=:0\0XAUTHORITY=/tmp/a\0"),
        steam_facts(300, 1000, b"DISPLAY=:1\0XAUTHORITY= \0"),
        steam_facts(400, 0, b"DISPLAY=:9\0"),
        steam_facts(500, 1000, b"DISPLAY=  \0"),
        SteamProcessFacts { pid: 600, comm: Some("bash".to_string()), uid: Some(1000), environ: None },
    ];
    let env = discover_steam_environment(Some(1000), &facts).unwrap();
    assert_eq!(env.display.as_deref(), Some(":1"));
    assert_eq!(env.xauthority, None);
    assert_eq!(discover_steam_environment(None, &facts), None);
    assert_eq!(discover_steam_environment(Some(42), &facts), None);
    assert!(is_steam_comm(" steam\n"));
    assert!(!is_steam_comm("steamwebhelper"));
}

#[test]
fn desktop_window_steps() {
    assert_eq!(desktop_window_target(true, "_NET_ACTIVE_WINDOW(WINDOW): window id # 0x2a00003\n"), Some(0x2a00003));
    assert_eq!(desktop_window_target(false, "_NET_ACTIVE_WINDOW(WINDOW): window id # 0x2a00003\n"), None);
    assert_eq!(desktop_window_target(true, "_NET_ACTIVE_WINDOW(WINDOW): window id # 0x0\n"), None);
    assert_eq!(window_id_arg(0x2a00003), "0x2a00003");
    assert_eq!(window_id_arg(0), "0x0");
    assert_eq!(window_id_arg(255), "0xff");
    assert_eq!(desktop_window_pid(true, "_NET_WM_PID(CARDINAL) = 4242\n"), Some(4242));
    assert_eq!(desktop_window_pid(false, "_NET_WM_PID(CARDINAL) = 4242\n"), None);
    assert!(pid_alive(5, true));
    assert!(!pid_alive(0, true));
    assert!(!pid_alive(5, false));
}

#[test]
fn desktop_candidate_uses_environment_then_window_text() {
    let from_env = desktop_game_candidate(7, true, false, Some(570), "steam_app_1234").unwrap();
    assert_eq!(from_env.app_id, 570);
    assert_eq!(from_env.pid, 7);
    assert_eq!(from_env.state, DeckGameState::GameFocusedVisible);
    assert_eq!(from_env.detection_source, "desktop_active_window");
    let from_text = desktop_game_candidate(7, true, false, None, "WM_CLASS = \"steam_app_1234\"").unwrap();
    assert_eq!(from_text.app_id, 1234);
    assert_eq!(desktop_game_candidate(7, false, false, Some(570), ""), None);
    assert_eq!(desktop_game_candidate(7, true, true, Some(570), ""), None);
    assert_eq!(desktop_game_candidate(7, true, false, None, "no id"), None);
}

#[test]
fn process_table_entries() {
    let info = process_info(
        42,
        Some("42 (game) S 7 42 42 0"),
        Some(" game\n"),
        Some(b"/bin/game\0-x\0".as_slice()),
    )
    .unwrap();
    assert_eq!(info.pid, 42);
    assert_eq!(info.ppid, 7);
    assert_eq!(info.comm, "game");
    assert_eq!(info.cmdline, "/bin/game -x");
    assert_eq!(process_info(42, None, Some("game"), None), None);
    let bare = process_info(42, Some("42 (game) S 7"), None, None).unwrap();
    assert_eq!(bare.comm, "");
    assert_eq!(bare.cmdline, "");
    let names = vec!["1".to_string(), "self".to_string(), "300".to_string()];
    assert_eq!(numeric_names(&names), vec![1, 300]);
}

#[test]
fn gamescope_xprop_reads_the_focus_atoms_of_the_root_window() {
    assert_eq!(
        gamescope_xprop_args(),
        vec![
            "-root",
            "GAMESCOPE_FOCUSED_APP_GFX",
            "GAMESCOPE_FOCUSED_APP",
            "GAMESCOPE_FOCUSED_WINDOW",
            "GAMESCOPE_FOCUSABLE_WINDOWS",
            "STEAM_GAMES_RUNNING",
            "GAMESCOPE_FOCUSABLE_APPS",
            "GAMESCOPE_FOCUSED_PID",
        ]
    );
}
