use telemon::game::capture::{
    jitter_values_ns, sorted_ns, tail_frame_time_ns, tail_sum_ns, CaptureStats, Tail,
};
use telemon::game::gamescope_wayland::{
    encode_message, frametime_ns_from_parts, parse_app_performance_stats, parse_registry_global,
    pop_message, push_wayland_string, RegistryGlobal, GAMESCOPE_CONTROL_INTERFACE,
};
use telemon::game::live_window::RollingFrameWindow;
use telemon::game::mangoapp::{
    decode_message, message_buffer_size, read_order_for_sources, MangoAppDropReason, MangoAppFrameReader,
    MangoAppFrameSample, MangoAppQueueReader, MangoAppQueueSource, MangoAppReadOne,
    MANGOAPP_FRAME_MESSAGE_TYPE, MANGOAPP_PAYLOAD_CAPACITY,
};
use telemon::game::steam::{
    manifest_paths, name_from_manifest, parse_acf_string_field, parse_library_folder_paths,
    SteamGameTitleResolver,
};

// ---------------------------------------------------------------------------
// gamescope Wayland protocol
// ---------------------------------------------------------------------------

#[test]
fn frametime_reconstructs_from_lo_hi_parts() {
    assert_eq!(
        frametime_ns_from_parts(0x89ab_cdef, 0x0123_4567),
        0x0123_4567_89ab_cdef
    );
}

#[test]
fn registry_global_parser_reads_wayland_string() {
    let mut payload = Vec::new();
    payload.extend_from_slice(&7_u32.to_ne_bytes());
    push_wayland_string(&mut payload, GAMESCOPE_CONTROL_INTERFACE);
    payload.extend_from_slice(&6_u32.to_ne_bytes());

    assert_eq!(
        parse_registry_global(&payload),
        Some(RegistryGlobal {
            name: 7,
            interface: GAMESCOPE_CONTROL_INTERFACE.to_string(),
            version: 6,
        })
    );
}

#[test]
fn app_performance_parser_reads_split_frametime() {
    let mut payload = Vec::new();
    payload.extend_from_slice(&996_580_u32.to_ne_bytes());
    payload.extend_from_slice(&0x89ab_cdef_u32.to_ne_bytes());
    payload.extend_from_slice(&0x0123_4567_u32.to_ne_bytes());

    assert_eq!(
        parse_app_performance_stats(&payload),
        Some((996_580, 0x0123_4567_89ab_cdef))
    );
}

#[test]
fn wayland_string_is_length_prefixed_nul_terminated_and_padded() {
    let mut payload = Vec::new();
    push_wayland_string(&mut payload, "abc");
    assert_eq!(payload.len(), 8);
    assert_eq!(&payload[0..4], &4_u32.to_ne_bytes());
    assert_eq!(&payload[4..8], b"abc\0");

    let mut payload = Vec::new();
    push_wayland_string(&mut payload, "abcd");
    assert_eq!(payload.len(), 12);
    assert_eq!(&payload[4..9], b"abcd\0");
    assert_eq!(&payload[9..12], &[0, 0, 0]);
}

#[test]
fn encoded_message_pops_back_unchanged() {
    let body = [1_u8, 2, 3, 4, 5, 6, 7, 8];
    let mut buffer = encode_message(9, 3, &body).unwrap();
    assert_eq!(buffer.len(), 16);
    buffer.extend_from_slice(&[0xaa, 0xbb]);
    let message = pop_message(&mut buffer).unwrap().unwrap();
    assert_eq!(message.object_id, 9);
    assert_eq!(message.opcode, 3);
    assert_eq!(message.payload, body.to_vec());
    assert_eq!(buffer, vec![0xaa, 0xbb]);
    assert!(pop_message(&mut buffer).unwrap().is_none());
}

#[test]
fn truncated_payloads_are_rejected() {
    assert_eq!(parse_app_performance_stats(&[1, 2, 3, 4, 5, 6, 7, 8]), None);
    let mut payload = Vec::new();
    payload.extend_from_slice(&7_u32.to_ne_bytes());
    payload.extend_from_slice(&100_u32.to_ne_bytes());
    assert_eq!(parse_registry_global(&payload), None);
}

// ---------------------------------------------------------------------------
// Rolling frame window
// ---------------------------------------------------------------------------

#[test]
fn evicts_samples_outside_window() {
    let mut window = RollingFrameWindow::new(1_000);
    window.push_frame_time(100, 10);
    window.push_frame_time(500, 10);
    window.push_frame_time(1_200, 10);
    assert_eq!(window.frame_count(), 2);
}

#[test]
fn summary_uses_current_window() {
    let mut window = RollingFrameWindow::new(1_000_000_000);
    window.push_frame_time(16_000_000, 16_000_000);
    window.push_frame_time(33_000_000, 17_000_000);
    let stats = CaptureStats::from_frame_times_ns(&window.frame_times_ns());
    assert_eq!(stats.frame_count(), 2);
}

#[test]
fn zero_frame_times_are_refused_by_the_window() {
    let mut window = RollingFrameWindow::new(1_000);
    assert!(!window.push_frame_time(100, 0));
    assert!(window.is_empty());
    assert!(window.push_frame_time(100, 7));
    assert!(window.push_frame_time(200, 9));
    assert_eq!(window.total_frame_time_ns(), 16);
    assert_eq!(window.frame_times_ns(), vec![7, 9]);
    window.clear();
    assert!(window.is_empty());
    assert_eq!(window.window_ns(), 1_000);
}

// ---------------------------------------------------------------------------
// Captures
// ---------------------------------------------------------------------------

#[test]
fn average_fps_uses_total_time() {
    let stats = CaptureStats::from_frame_times_ns(&[16_666_667, 33_333_333]);
    let fps = stats.frame_count() as f64 * 1_000_000_000.0 / stats.total_ns() as f64;
    assert!((fps - 40.0).abs() <= 0.000_01);
}

#[test]
fn low_and_high_one_percent_are_deterministic() {
    let mut frames = vec![10_000_000_u64; 99];
    frames.push(100_000_000);
    let stats = CaptureStats::from_frame_times_ns(&frames);
    let sorted = sorted_ns(&stats.frame_times_ns());
    let k = ((sorted.len() as f64 * 0.01).ceil() as usize).clamp(1, sorted.len());
    let low = 1_000_000_000.0 / tail_frame_time_ns(&sorted, k, Tail::Worst) as f64;
    let low_avg = k as f64 * 1_000_000_000.0 / tail_sum_ns(&sorted, k, Tail::Worst) as f64;
    let high = 1_000_000_000.0 / tail_frame_time_ns(&sorted, k, Tail::Best) as f64;
    let high_avg = k as f64 * 1_000_000_000.0 / tail_sum_ns(&sorted, k, Tail::Best) as f64;
    assert!((low - 10.0).abs() <= 0.000_01);
    assert!((low_avg - 10.0).abs() <= 0.000_01);
    assert!((high - 100.0).abs() <= 0.000_01);
    assert!((high_avg - 100.0).abs() <= 0.000_01);

    let mut reversed = frames.clone();
    reversed.reverse();
    assert_eq!(sorted_ns(&reversed), sorted);
}

#[test]
fn summary_uses_seconds_for_frame_times() {
    let stats = CaptureStats::from_frame_times_ns(&[16_000_000, 17_000_000, 33_000_000]);
    assert_eq!(stats.frame_count(), 3);
    let average = stats.total_ns() as f64 / stats.frame_count() as f64 / 1_000_000_000.0;
    assert!((average - 0.022).abs() <= 0.000_001);
    let sorted = sorted_ns(&stats.frame_times_ns());
    assert_eq!(sorted[1], 17_000_000);
    assert!(!jitter_values_ns(&stats.frame_times_ns()).is_empty());
}

#[test]
fn captures_skip_zero_and_filter_long_frames() {
    let mut stats = CaptureStats::new();
    assert!(!stats.push_frame_time_ns(0));
    assert!(stats.push_frame_time_ns(5));
    assert!(!stats.push_frame_time_ns_filtered(50, 10));
    assert!(stats.push_frame_time_ns_filtered(10, 10));
    assert_eq!(stats.frame_times_ns(), vec![5, 10]);
    assert_eq!(stats.total_ns(), 15);
}

#[test]
fn jitter_is_absolute_difference_of_neighbours() {
    assert_eq!(jitter_values_ns(&[10, 4, 9]), vec![6, 5]);
    assert!(jitter_values_ns(&[10]).is_empty());
    assert!(jitter_values_ns(&[]).is_empty());
}

#[test]
fn tails_take_the_edges_of_the_ordered_frames() {
    let sorted = sorted_ns(&[40, 10, 30, 20]);
    assert_eq!(sorted, vec![10, 20, 30, 40]);
    assert_eq!(tail_frame_time_ns(&sorted, 1, Tail::Worst), 40);
    assert_eq!(tail_frame_time_ns(&sorted, 2, Tail::Best), 20);
    assert_eq!(tail_sum_ns(&sorted, 2, Tail::Worst), 70);
    assert_eq!(tail_sum_ns(&sorted, 3, Tail::Best), 60);
}

// ---------------------------------------------------------------------------
// MangoApp
// ---------------------------------------------------------------------------


/// The size of the message type field (a C `long`).
fn long_size() -> usize {
    message_buffer_size() - MANGOAPP_PAYLOAD_CAPACITY
}

fn mangoapp_message(version: u32, visible_frametime_ns: u64) -> Vec<u8> {
    let mut m = Vec::new();
    if long_size() == 8 {
        m.extend_from_slice(&MANGOAPP_FRAME_MESSAGE_TYPE.to_ne_bytes());
    } else {
        m.extend_from_slice(&(MANGOAPP_FRAME_MESSAGE_TYPE as i32).to_ne_bytes());
    }
    m.extend_from_slice(&version.to_ne_bytes());
    m.extend_from_slice(&4242_u32.to_ne_bytes());
    m.extend_from_slice(&visible_frametime_ns.to_ne_bytes());
    m.push(0);
    m.push(0);
    m.extend_from_slice(&17_000_000_u64.to_ne_bytes());
    m.extend_from_slice(&5_000_000_u64.to_ne_bytes());
    m.extend_from_slice(&1280_u32.to_ne_bytes());
    m.extend_from_slice(&800_u32.to_ne_bytes());
    m
}

#[test]
fn frame_message_type_is_exactly_one() {
    assert_eq!(MANGOAPP_FRAME_MESSAGE_TYPE, 1);
}

#[test]
fn active_source_is_checked_first() {
    assert_eq!(read_order_for_sources(2, Some(1)), vec![1, 0]);
    assert_eq!(read_order_for_sources(2, None), vec![0, 1]);
    assert_eq!(read_order_for_sources(2, Some(9)), vec![0, 1]);
}

#[test]
fn source_presence_is_tracked_by_source_kind() {
    let reader = MangoAppFrameReader {
        sources: vec![MangoAppQueueReader {
            source: MangoAppQueueSource::ConfiguredFtok,
            queue_id: 7,
        }],
        active_source: None,
        max_frame_time_ns: 1_000_000_000,
    };
    assert!(reader.has_source(MangoAppQueueSource::ConfiguredFtok));
    assert!(!reader.has_source(MangoAppQueueSource::LegacyFailedFtok));
}

#[test]
fn decodes_version_one_message() {
    let message = mangoapp_message(1, 16_666_667);
    let payload_len = message.len() - long_size();
    assert_eq!(message.len(), long_size() + 42);
    assert_eq!(
        decode_message(&message, payload_len, 1_000_000_000),
        MangoAppReadOne::Sample(MangoAppFrameSample {
            pid: 4242,
            app_frametime_ns: 17_000_000,
            visible_frametime_ns: 16_666_667,
            latency_ns: 5_000_000,
        })
    );
}

#[test]
fn decodes_known_prefix_when_payload_has_future_fields() {
    let mut message = mangoapp_message(1, 16_666_667);
    message.extend([0xa5; 128]);
    let payload_len = long_size() + 42 - long_size() + 128;
    assert_eq!(
        decode_message(&message, payload_len, 1_000_000_000),
        MangoAppReadOne::Sample(MangoAppFrameSample {
            pid: 4242,
            app_frametime_ns: 17_000_000,
            visible_frametime_ns: 16_666_667,
            latency_ns: 5_000_000,
        })
    );
}

#[test]
fn optional_fields_require_complete_payloads() {
    let message = mangoapp_message(1, 16_666_667);
    let payload_len = (long_size() + 8) + 8 - long_size();
    assert_eq!(
        decode_message(&message, payload_len, 1_000_000_000),
        MangoAppReadOne::Sample(MangoAppFrameSample {
            pid: 4242,
            app_frametime_ns: 0,
            visible_frametime_ns: 16_666_667,
            latency_ns: 0,
        })
    );
}

#[test]
fn rejects_invalid_version() {
    let message = mangoapp_message(2, 16_666_667);
    let payload_len = message.len() - long_size();
    assert_eq!(
        decode_message(&message, payload_len, 1_000_000_000),
        MangoAppReadOne::Dropped(MangoAppDropReason::UnsupportedVersion)
    );
}

#[test]
fn rejects_short_payload_before_visible_frame_time() {
    let message = mangoapp_message(1, 16_666_667);
    let payload_len = (long_size() + 4) + 4 - long_size();
    assert_eq!(
        decode_message(&message, payload_len, 1_000_000_000),
        MangoAppReadOne::Dropped(MangoAppDropReason::TooShort)
    );
}

#[test]
fn rejects_invalid_frame_times() {
    for (value, reason) in [
        (0, MangoAppDropReason::Zero),
        (u64::MAX, MangoAppDropReason::InvalidSentinel),
        (2_000_000_000, MangoAppDropReason::TooLarge),
    ] {
        let message = mangoapp_message(1, value);
        let payload_len = message.len() - long_size();
        assert_eq!(
            decode_message(&message, payload_len, 1_000_000_000),
            MangoAppReadOne::Dropped(reason)
        );
    }
}

// ---------------------------------------------------------------------------
// Steam
// ---------------------------------------------------------------------------

#[test]
fn parses_libraryfolder_paths() {
    let text = "\"libraryfolders\"\n{\n  \"0\"\n  {\n    \"path\" \"/home/deck/.local/share/Steam\"\n  }\n  \"1\" \"/mnt/games/SteamLibrary\"\n}\n";
    let paths = parse_library_folder_paths(text);
    assert!(paths.contains(&"/home/deck/.local/share/Steam".to_string()));
    assert!(paths.contains(&"/mnt/games/SteamLibrary".to_string()));
}

#[test]
fn resolves_game_name_from_appmanifest() {
    let resolver = SteamGameTitleResolver::new(vec!["/games/root".to_string()]);
    let paths = resolver.manifest_paths(1234);
    assert_eq!(
        paths,
        vec![
            "/games/root/steamapps/appmanifest_1234.acf".to_string(),
            "/games/root/appmanifest_1234.acf".to_string(),
        ]
    );
    let text = "\"AppState\"\n{\n    \"appid\" \"1234\"\n    \"name\" \"Example Game\"\n}\n";
    let identity = resolver.resolve(1234, &[Some(text.to_string()), None]);
    assert_eq!(identity.app_id, 1234);
    assert_eq!(identity.name, Some("Example Game".to_string()));
    assert_eq!(identity.source, "steam_appmanifest");
}

#[test]
fn first_manifest_with_a_title_wins() {
    let resolver = SteamGameTitleResolver::new(vec!["/a".to_string(), "/b".to_string()]);
    let blank = "\"AppState\"\n{\n  \"name\" \"   \"\n}\n".to_string();
    let named = "\"AppState\"\n{\n  \"name\" \"Second\"\n}\n".to_string();
    let identity = resolver.resolve(7, &[None, Some(blank), Some(named)]);
    assert_eq!(identity.name, Some("Second".to_string()));
    assert_eq!(resolver.resolve(7, &[None]).name, None);
}

#[test]
fn acf_fields_and_manifest_names() {
    let text = "\"AppState\"\n{\n    \"appid\" \"1234\"\n    \"name\" \"Example Game\"\n}\n";
    assert_eq!(parse_acf_string_field(text, "appid"), Some("1234".to_string()));
    assert_eq!(parse_acf_string_field(text, "missing"), None);
    assert_eq!(name_from_manifest(text), Some("Example Game".to_string()));
    assert_eq!(
        manifest_paths(&["/x".to_string()], 5),
        vec![
            "/x/steamapps/appmanifest_5.acf".to_string(),
            "/x/appmanifest_5.acf".to_string(),
        ]
    );
}

#[test]
fn building_a_capture_is_pushing_each_frame() {
    let frames = [16_000_000u64, 0, 17_000_000, 0, 15_000_000];
    let built = CaptureStats::from_frame_times_ns(&frames);
    let mut pushed = CaptureStats::new();
    for frame in frames {
        pushed.push_frame_time_ns(frame);
    }
    assert_eq!(built.frame_times_ns(), pushed.frame_times_ns());
    assert_eq!(built.frame_count(), 3);
    assert_eq!(built.total_ns(), pushed.total_ns());
    assert_eq!(built.is_empty(), built.frame_count() == 0);
    assert!(CaptureStats::new().is_empty());
}

#[test]
fn window_frame_times_are_all_positive() {
    let mut window = RollingFrameWindow::new(1_000_000_000);
    assert!(!window.push_frame_time(10, 0));
    assert!(window.push_frame_time(20, 16_000_000));
    assert!(window.push_frame_time(30, 17_000_000));
    let times = window.frame_times_ns();
    assert_eq!(times, vec![16_000_000, 17_000_000]);
    assert!(times.iter().all(|&time| time > 0));
    assert_eq!(window.is_empty(), times.is_empty());
}
