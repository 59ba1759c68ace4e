use telemon::linux::amdgpu::{
    active_power_profile_mode, dpm_clock_candidates, gpu_index_of_card, is_amd_vendor,
    memory_states, prefer_gpu_metrics_clock,
};
use telemon::linux::drm::{
    fdinfo_clients, LinuxDrmDeviceInspection, LinuxDrmInspection,
    counter_delta, is_engine_key, lowest_matching_name, parse_fdinfo, resident_memory,
    supported_driver, supported_gpu_positions, throttle_active, value_number, vendor_label,
};
use telemon::linux::gamescope::{
    find_steam_process_tree_candidate, parse_active_window_id, parse_stat_ppid, parse_wm_pid,
    parse_xprop_output, steam_app_id_from_text, steam_launch_app_id, DeckGameState,
    GamescopeFocusSnapshot, GamescopeFocusableWindow, ProcessInfo, STEAM_UI_APP_ID,
};
use telemon::linux::gpu_discovery::{
    is_card_name, is_render_node_name, pci_bdf_of_device_path, push_unique_device, sysfs_id,
    LinuxGpuDevice,
};
use telemon::linux::power_supply::{
    battery_direction, battery_power_labels, is_battery_type, read_attribute_text,
};

// ---------------------------------------------------------------------------
// gamescope game state
// ---------------------------------------------------------------------------

#[test]
fn focused_non_steam_app_without_pid_is_unknown() {
    let mut snapshot = GamescopeFocusSnapshot {
        focused_graphics_app_id: Some(1234),
        focused_app_id: Some(1234),
        ..Default::default()
    };
    snapshot.derive_active_game(|_| false);
    assert_eq!(snapshot.classify(), DeckGameState::UnknownGameProcess);
    assert!(!snapshot.classify().is_game_running());
}

#[test]
fn steam_focused_with_focusable_game_pid_is_background_game() {
    let mut snapshot = GamescopeFocusSnapshot {
        focused_input_app_id: Some(STEAM_UI_APP_ID),
        focused_app_id: Some(STEAM_UI_APP_ID),
        steam_games_running: Some(1),
        focusable_windows: vec![
            GamescopeFocusableWindow {
                window_id: 10,
                app_id: STEAM_UI_APP_ID,
                pid: 20,
            },
            GamescopeFocusableWindow {
                window_id: 11,
                app_id: 1234,
                pid: 30,
            },
        ],
        ..Default::default()
    };
    snapshot.derive_active_game(|pid| pid == 30);
    assert_eq!(snapshot.classify(), DeckGameState::GameRunningBackground);
    assert_eq!(snapshot.active_game_app_id, Some(1234));
    assert_eq!(snapshot.active_game_pid, Some(30));
}

#[test]
fn steam_ui_only_is_not_game_running() {
    let mut snapshot = GamescopeFocusSnapshot {
        focused_graphics_app_id: Some(STEAM_UI_APP_ID),
        focused_input_app_id: Some(STEAM_UI_APP_ID),
        focused_app_id: Some(STEAM_UI_APP_ID),
        steam_games_running: Some(0),
        focusable_app_ids: vec![STEAM_UI_APP_ID],
        ..Default::default()
    };
    snapshot.derive_active_game(|_| false);
    assert_eq!(snapshot.classify(), DeckGameState::SteamUiOnly);
    assert!(!snapshot.classify().is_game_running());
}

#[test]
fn parses_gamescope_focusable_window_triples() {
    let mut snapshot = parse_xprop_output(
        "GAMESCOPE_FOCUSED_APP_GFX(CARDINAL) = 1234\n\
         GAMESCOPE_FOCUSED_APP(CARDINAL) = 769\n\
         GAMESCOPE_FOCUSED_WINDOW(CARDINAL) = 41943067\n\
         GAMESCOPE_FOCUSABLE_WINDOWS(CARDINAL) = 41943067, 1234, 18342, 41943070, 769, 1540\n\
         STEAM_GAMES_RUNNING(CARDINAL) = 1\n",
    );
    snapshot.derive_active_game(|pid| pid == 18342);
    assert_eq!(snapshot.focused_graphics_app_id, Some(1234));
    assert_eq!(snapshot.focused_input_app_id, Some(769));
    assert_eq!(snapshot.focused_window_id, Some(41943067));
    assert_eq!(snapshot.focusable_windows.len(), 2);
    assert_eq!(snapshot.active_game_app_id, Some(1234));
    assert_eq!(snapshot.active_game_pid, Some(18342));
    assert_eq!(snapshot.classify(), DeckGameState::GameFocusedVisible);
}

#[test]
fn overlay_focus_keeps_graphics_game_visible() {
    let mut snapshot = parse_xprop_output(
        "GAMESCOPE_FOCUSED_APP_GFX(CARDINAL) = 1245620\n\
         GAMESCOPE_FOCUSED_APP(CARDINAL) = 769\n\
         GAMESCOPE_FOCUSABLE_WINDOWS(CARDINAL) = 99, 1245620, 2000, 100, 769, 3000\n\
         STEAM_GAMES_RUNNING(CARDINAL) = 1\n",
    );
    snapshot.derive_active_game(|pid| pid == 2000);
    assert_eq!(snapshot.active_game_app_id, Some(1245620));
    assert_eq!(snapshot.active_game_pid, Some(2000));
    assert_eq!(snapshot.classify(), DeckGameState::GameFocusedVisible);
}

#[test]
fn legacy_focusable_apps_without_pid_are_unknown() {
    let mut snapshot = parse_xprop_output(
        "GAMESCOPE_FOCUSED_APP(CARDINAL) = 769\nGAMESCOPE_FOCUSABLE_APPS(CARDINAL) = 769, 1234\n",
    );
    snapshot.derive_active_game(|_| false);
    assert_eq!(snapshot.focused_app_id, Some(769));
    assert_eq!(snapshot.focusable_app_ids, vec![769, 1234]);
    assert_eq!(snapshot.classify(), DeckGameState::UnknownGameProcess);
}

#[test]
fn parses_desktop_active_window_id_and_pid() {
    assert_eq!(
        parse_active_window_id("_NET_ACTIVE_WINDOW(WINDOW): window id # 0x3e00007\n"),
        Some(0x3e00007)
    );
    assert_eq!(parse_wm_pid("_NET_WM_PID(CARDINAL) = 12345\n"), Some(12345));
}

#[test]
fn parses_steam_app_ids() {
    assert_eq!(
        steam_app_id_from_text(r#"WM_CLASS(STRING) = "steam_app_1245620""#),
        Some(1245620)
    );
    assert_eq!(
        steam_launch_app_id("/usr/bin/reaper SteamLaunch AppId=730 -- /game"),
        Some(730)
    );
}

#[test]
fn steam_process_tree_requires_non_steam_descendant() {
    let processes = vec![
        ProcessInfo {
            pid: 10,
            ppid: 1,
            comm: "reaper".to_string(),
            cmdline: "/usr/bin/reaper SteamLaunch AppId=730 --".to_string(),
        },
        ProcessInfo {
            pid: 11,
            ppid: 10,
            comm: "steamwebhelper".to_string(),
            cmdline: "steamwebhelper".to_string(),
        },
        ProcessInfo {
            pid: 12,
            ppid: 11,
            comm: "proton".to_string(),
            cmdline: "proton waitforexitandrun game.exe".to_string(),
        },
    ];
    let candidate = find_steam_process_tree_candidate(&processes).unwrap();
    assert_eq!(candidate.app_id, 730);
    assert_eq!(candidate.pid, 12);
    assert_eq!(candidate.state, DeckGameState::GameRunningBackground);
}

#[test]
fn steam_tree_without_game_descendant_gives_nothing() {
    let processes = vec![
        ProcessInfo {
            pid: 10,
            ppid: 1,
            comm: "reaper".to_string(),
            cmdline: "/usr/bin/reaper SteamLaunch AppId=730 --".to_string(),
        },
        ProcessInfo {
            pid: 11,
            ppid: 10,
            comm: "steamwebhelper".to_string(),
            cmdline: "steamwebhelper".to_string(),
        },
    ];
    assert!(find_steam_process_tree_candidate(&processes).is_none());
}

#[test]
fn empty_snapshot_is_idle() {
    let snapshot = GamescopeFocusSnapshot::default();
    assert_eq!(snapshot.classify(), DeckGameState::Idle);
    assert_eq!(DeckGameState::GameFocusedVisible.as_str(), "game_focused_visible");
    assert_eq!(DeckGameState::Idle.as_str(), "idle");
}

#[test]
fn parses_parent_pid_from_stat() {
    assert_eq!(parse_stat_ppid("1234 (my game) S 99 1234 1234"), Some(99));
    assert_eq!(parse_stat_ppid("garbage"), None);
}

// ---------------------------------------------------------------------------
// DRM
// ---------------------------------------------------------------------------

#[test]
fn drm_drivers_and_vendors() {
    assert!(supported_driver("i915"));
    assert!(supported_driver("xe"));
    assert!(!supported_driver("nouveau"));
    assert_eq!(vendor_label(Some("0x8086")), "intel");
    assert_eq!(vendor_label(None), "unknown");
}

#[test]
fn fdinfo_is_parsed_into_fields() {
    let parsed = parse_fdinfo("drm-driver:\ti915\ndrm-engine-render:\t12345 ns\nbogus line\n");
    assert_eq!(parsed.get("drm-driver"), Some("i915".to_string()));
    assert_eq!(parsed.get("drm-engine-render"), Some("12345 ns".to_string()));
    assert_eq!(value_number("12345 ns"), 12345);
    assert_eq!(value_number("x"), 0);
    assert!(is_engine_key("drm-engine-render"));
    assert!(!is_engine_key("drm-driver"));
    assert_eq!(resident_memory("drm-resident-vram0"), Some("vram"));
}

#[test]
fn fdinfo_utilization_is_delta_based() {
    assert_eq!(counter_delta(None, 100), None);
    assert_eq!(counter_delta(Some(100), 250), Some(150));
    assert_eq!(counter_delta(Some(300), 250), None);
}

#[test]
fn throttle_groups_are_active_when_any_reason_is_set() {
    assert!(throttle_active(&[Some(0), Some(1)]));
    assert!(!throttle_active(&[Some(0), None]));
}

#[test]
fn lowest_numbered_hwmon_file_is_chosen() {
    let names = vec![
        "power2_input".to_string(),
        "power1_input".to_string(),
        "temp1_input".to_string(),
    ];
    assert_eq!(lowest_matching_name(&names, "power", "_input"), Some(1));
    assert_eq!(lowest_matching_name(&names, "fan", "_input"), None);
}

// ---------------------------------------------------------------------------
// amdgpu
// ---------------------------------------------------------------------------

#[test]
fn parses_active_dpm_clock() {
    let candidates = dpm_clock_candidates("0: 400Mhz\n1: 800Mhz *\n");
    assert_eq!(candidates, vec!["800".to_string()]);
    let hertz = candidates[0].parse::<f64>().unwrap() * 1_000_000.0;
    assert_eq!(hertz, 800_000_000.0);
}

#[test]
fn amdgpu_helpers() {
    assert_eq!(
        active_power_profile_mode("0 BOOTUP_DEFAULT\n1 3D_FULL_SCREEN*\n"),
        Some("3d_full_screen".to_string())
    );
    assert_eq!(gpu_index_of_card("card1"), "1".to_string());
    assert!(is_amd_vendor(Some("0x1002")));
    assert!(!is_amd_vendor(Some("0x10de")));
    assert_eq!(
        memory_states(Some(100), Some(40)),
        vec![("total", 100), ("used", 40), ("free", 60)]
    );
    let _ = prefer_gpu_metrics_clock(Some("0x163f"));
}

// ---------------------------------------------------------------------------
// power supply
// ---------------------------------------------------------------------------

#[test]
fn ignores_non_battery_power_supplies() {
    assert!(is_battery_type(Some("Battery")));
    assert!(!is_battery_type(Some("Mains")));
    assert!(!is_battery_type(None));
}

#[test]
fn parses_battery_metrics_and_derives_power() {
    assert_eq!(read_attribute_text("  Discharging\n"), Some("Discharging".to_string()));
    assert_eq!(read_attribute_text(" \n"), None);
    assert_eq!(battery_direction(Some("Discharging")), "discharge");
    assert_eq!(battery_direction(Some("Charging\n")), "charge");
    assert_eq!(battery_direction(Some("Full")), "unknown");
    let labels = battery_power_labels("BAT1", Some("Discharging"), true);
    assert_eq!(labels.get("battery"), Some("BAT1".to_string()));
    assert_eq!(labels.get("direction"), Some("discharge".to_string()));
    assert_eq!(labels.get("derived"), Some("true".to_string()));
    assert_eq!(labels.get("source"), Some("linux_power_supply".to_string()));
}

// ---------------------------------------------------------------------------
// GPU discovery
// ---------------------------------------------------------------------------

fn device(node: &str, bdf: Option<&str>) -> LinuxGpuDevice {
    LinuxGpuDevice {
        node_name: node.to_string(),
        render_node: None,
        card: Some(node.to_string()),
        drm_path: format!("/sys/class/drm/{node}"),
        device_path: "/sys/devices/pci0000:00/0000:03:00.0".to_string(),
        pci_bdf: bdf.map(str::to_string),
        vendor_id: Some("0x1002".to_string()),
        device_id: None,
        driver: None,
    }
}

#[test]
fn discovers_render_node_and_matching_card() {
    assert!(is_render_node_name("renderD128"));
    assert!(!is_render_node_name("renderD"));
    assert!(is_card_name("card0"));
    assert!(!is_card_name("card0-DP-1"));
    assert_eq!(
        pci_bdf_of_device_path("/sys/devices/pci0000:00/0000:03:00.0"),
        Some("0000:03:00.0".to_string())
    );
    assert_eq!(sysfs_id("0x1002\n"), Some("0x1002".to_string()));

    let mut devices = Vec::new();
    assert!(push_unique_device(&mut devices, device("card0", Some("0000:03:00.0"))));
    assert!(!push_unique_device(&mut devices, device("card1", Some("0000:03:00.0"))));
    assert_eq!(devices.len(), 1);
    assert_eq!(devices[0].stable_id(), "0000:03:00.0".to_string());
    assert_eq!(devices[0].backend_driver(), "unknown");
}

fn gpu_device(driver: Option<&str>) -> LinuxGpuDevice {
    LinuxGpuDevice {
        node_name: "card0".to_string(),
        render_node: None,
        card: Some("card0".to_string()),
        drm_path: "/sys/class/drm/card0".to_string(),
        device_path: "/sys/devices/pci0000:00/0000:00:02.0".to_string(),
        pci_bdf: Some("0000:00:02.0".to_string()),
        vendor_id: Some("0x8086".to_string()),
        device_id: None,
        driver: driver.map(str::to_string),
    }
}

#[test]
fn drm_inspection_counts_supported_devices() {
    let supported = LinuxDrmDeviceInspection::from_device(gpu_device(Some("i915")), vec!["/h".to_string()]);
    assert!(supported.supported);
    assert_eq!(supported.hwmon_dirs, vec!["/h".to_string()]);
    let other = LinuxDrmDeviceInspection::from_device(gpu_device(Some("amdgpu")), Vec::new());
    assert!(!other.supported);
    let unknown = LinuxDrmDeviceInspection::from_device(gpu_device(None), Vec::new());
    assert!(!unknown.supported);
    let inspection = LinuxDrmInspection {
        drm_root: "/sys/class/drm".to_string(),
        root_exists: true,
        root_error: None,
        devices: vec![supported, other, unknown],
    };
    assert_eq!(inspection.supported_devices(), 1);
    assert_eq!(inspection.summary(), "available, devices=3, supported_devices=1");
    let missing = LinuxDrmInspection { root_exists: false, ..inspection.clone() };
    assert_eq!(missing.summary(), "unavailable, root missing");
    let failed = LinuxDrmInspection { root_error: Some("denied".to_string()), ..inspection };
    assert_eq!(failed.summary(), "error: denied");
}

#[test]
fn fdinfo_counts_each_client_once_for_its_gpu() {
    let files = vec![
        parse_fdinfo("drm-driver: i915\ndrm-pdev: 0000:00:02.0\ndrm-client-id: 7\ndrm-engine-render: 100 ns\ndrm-engine-video: 20 ns\n"),
        parse_fdinfo("drm-driver: i915\ndrm-pdev: 0000:00:02.0\ndrm-client-id: 7\ndrm-engine-render: 100 ns\n"),
        parse_fdinfo("drm-driver: i915\ndrm-pdev: 0000:03:00.0\ndrm-client-id: 8\ndrm-engine-render: 5 ns\n"),
        parse_fdinfo("drm-driver: xe\ndrm-client-id: 9\ndrm-engine-render: 5 ns\n"),
        parse_fdinfo("drm-driver: i915\ndrm-cycles-render: 3\ndrm-resident-system: 4 KiB\n"),
    ];
    let clients = fdinfo_clients(&files, "i915", Some("0000:00:02.0"));
    assert_eq!(clients.counted, vec![0, 4]);
    assert_eq!(clients.engine_ns, 123);
    let any_device = fdinfo_clients(&files, "i915", None);
    assert_eq!(any_device.counted, vec![0, 2, 4]);
    assert_eq!(any_device.engine_ns, 128);
    let saturating = vec![
        parse_fdinfo("drm-driver: xe\ndrm-engine-a: 18446744073709551615\n"),
        parse_fdinfo("drm-driver: xe\ndrm-engine-a: 5\n"),
    ];
    assert_eq!(fdinfo_clients(&saturating, "xe", None).engine_ns, u64::MAX);
}

fn process(pid: u32, ppid: u32, comm: &str, cmdline: &str) -> ProcessInfo {
    ProcessInfo { pid, ppid, comm: comm.to_string(), cmdline: cmdline.to_string() }
}

#[test]
fn steam_process_tree_takes_the_breadth_first_game() {
    // Below the launch: a helper (11) whose child 13 is a game, then a game
    // (12) one level down; breadth-first finds 12 before 13.
    let processes = vec![
        process(10, 1, "reaper", "/usr/bin/reaper SteamLaunch AppId=730 --"),
        process(11, 10, "steamwebhelper", "steamwebhelper"),
        process(13, 11, "deep_game", "deep_game.exe"),
        process(12, 10, "game", "game.exe"),
        process(14, 12, "child_game", "child.exe"),
    ];
    let candidate = find_steam_process_tree_candidate(&processes).unwrap();
    assert_eq!(candidate.pid, 12);
    // In table order, the helper's children come after the launch's own.
    let processes = vec![
        process(10, 1, "reaper", "/usr/bin/reaper SteamLaunch AppId=730 --"),
        process(11, 10, "steamwebhelper", "steamwebhelper"),
        process(13, 11, "deep_game", "deep_game.exe"),
    ];
    assert_eq!(find_steam_process_tree_candidate(&processes).unwrap().pid, 13);
}

#[test]
fn drm_collector_reads_the_supported_gpus_in_order() {
    let devices = vec![
        gpu_device(Some("amdgpu")),
        gpu_device(Some("i915")),
        gpu_device(None),
        gpu_device(Some("xe")),
    ];
    assert_eq!(supported_gpu_positions(&devices), vec![1, 3]);
    assert!(supported_gpu_positions(&[]).is_empty());
}
