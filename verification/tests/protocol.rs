use simhark::autoref_events::{event_label, important_event, RefGameEvent};
use simhark::grsim_command::{
    rebuilds_robots, sim_error, simulator_command_errors, vision_port_after, ConfigRequest,
    ControlRequest, SimCommandRequest, TeleportBallFlags,
};
use simhark::referee::{
    bot_suffix, card_change_text, command_from_ssl_code, command_label, referris_tick, ssl_code_from_command,
    team_label, CardChange, CardCounts, CardTracker, RefCommand, RefTeam,
};
use simhark::sim_net::{action_target, registered_teams, TeamSet};
use simhark::team::{
    kick_status_of, local_team_to_proto, status_entries, RobotStatusEntry, map_team, proto_team_to_local, status_changed,
    team_color_str, team_letter, KickStatus, KickType, KickerState, RobotStatusCache, TeamColor,
};
use simhark::varint::{
    encode_varint, frame_message, try_read_varint_from_slice, try_take_frame, VarintError,
};

#[test]
fn varint_reads_single_and_multi_byte_values() {
    assert_eq!(try_read_varint_from_slice(&[0x05]), Ok(Some((5, 1))));
    assert_eq!(try_read_varint_from_slice(&[0xac, 0x02, 0xff]), Ok(Some((300, 2))));
    assert_eq!(try_read_varint_from_slice(&[0x80]), Ok(None));
    assert_eq!(try_read_varint_from_slice(&[]), Ok(None));
}

#[test]
fn varint_too_long_is_an_error() {
    let bytes = [0xffu8; 11];
    assert_eq!(try_read_varint_from_slice(&bytes), Err(VarintError::TooLong));
}

#[test]
fn varint_roundtrip_on_examples() {
    for v in [0u64, 1, 127, 128, 300, 16384, u64::MAX] {
        let bytes = encode_varint(v);
        assert_eq!(try_read_varint_from_slice(&bytes), Ok(Some((v, bytes.len()))));
    }
    assert_eq!(encode_varint(300), vec![0xac, 0x02]);
    assert_eq!(encode_varint(u64::MAX).len(), 10);
}

#[test]
fn frames_roundtrip_and_wait_for_more_bytes() {
    let payload = vec![1u8, 2, 3];
    let mut buffer = frame_message(&payload);
    assert_eq!(buffer, vec![3, 1, 2, 3]);
    buffer.extend_from_slice(&[9, 9]);
    assert_eq!(try_take_frame(&mut buffer), Ok(Some(payload)));
    assert_eq!(buffer, vec![9, 9]);
    let mut partial = vec![5u8, 1, 2];
    assert_eq!(try_take_frame(&mut partial), Ok(None));
    assert_eq!(partial, vec![5, 1, 2]);
}

#[test]
fn referee_codes_roundtrip() {
    for code in [0, 1, 2, 3, 4, 5, 6, 7, 8, 9, 10, 11, 12, 13, 16, 17] {
        assert_eq!(ssl_code_from_command(command_from_ssl_code(code)), code);
    }
    assert_eq!(command_from_ssl_code(14), RefCommand::Unknown);
    assert_eq!(ssl_code_from_command(RefCommand::Unknown), 3);
    assert_eq!(command_label(RefCommand::BallPlacementBlue), "BALL_PLACEMENT_BLUE");
    assert_eq!(command_label(command_from_ssl_code(99)), "UNKNOWN");
}

#[test]
fn referris_tick_prefers_the_autoref_state() {
    let t = referris_tick(Some((RefCommand::Stop, 7)), 3, 100);
    assert_eq!(t.command_code, 1);
    assert_eq!(t.command_counter, 7);
    assert_eq!(t.command_label, "STOP");
    let t = referris_tick(None, 2, (1u64 << 32) + 5);
    assert_eq!(t.command_code, 2);
    assert_eq!(t.command_counter, 5);
    assert_eq!(t.command_label, "NORMAL_START");
}

#[test]
fn labels_and_suffixes() {
    assert_eq!(team_label(RefTeam::Unknown), "Unknown");
    assert_eq!(bot_suffix(Some(12)), "#12");
    assert_eq!(bot_suffix(None), "");
}

#[test]
fn card_tracker_reports_only_increases() {
    let mut t = CardTracker::new();
    let now = CardCounts { blue_yellow_cards: 1, yellow_yellow_cards: 0, blue_red_cards: 0, yellow_red_cards: 2 };
    assert_eq!(
        t.observe(now),
        vec![
            CardChange::YellowCard { team: TeamColor::Blue, total: 1 },
            CardChange::RedCard { team: TeamColor::Yellow, total: 2 }
        ]
    );
    assert_eq!(t.observe(now), vec![]);
}

#[test]
fn event_labels() {
    let e = RefGameEvent::BotCrashUnique {
        by_team: RefTeam::Blue,
        violator: Some(3),
        victim: Some(5),
        crash_speed: Some("1.20".to_string()),
    };
    assert_eq!(event_label(&e), "bot-crash by Blue#3 victim=5 speed=1.20");
    let e = RefGameEvent::BotCrashDrawn { bot_yellow: None, bot_blue: Some(2), crash_speed: None };
    assert_eq!(event_label(&e), "bot-crash-drawn yellow=? blue=2 speed=?");
    let e = RefGameEvent::PossibleGoal { by_team: RefTeam::Yellow };
    assert_eq!(event_label(&e), "possible-goal by Yellow");
    let e = RefGameEvent::AttackerTooCloseToDefenseArea {
        by_team: RefTeam::Unknown,
        by_bot: None,
        distance: Some("0.35".to_string()),
    };
    assert_eq!(event_label(&e), "attacker-too-close-to-defense-area by Unknown distance=0.35");
    let e = RefGameEvent::PlacementSucceeded { by_team: RefTeam::Blue, precision: None };
    assert_eq!(event_label(&e), "placement-succeeded by Blue precision=?");
    let e = RefGameEvent::BallLeftFieldTouchLine { by_team: RefTeam::Yellow, by_bot: Some(0) };
    assert_eq!(event_label(&e), "ball-left-touch-line by Yellow#0");
}

#[test]
fn important_events() {
    let out = RefGameEvent::BallLeftFieldGoalLine { by_team: RefTeam::Blue, by_bot: None };
    assert!(important_event(&out, false));
    let kick = RefGameEvent::AimlessKick { by_team: RefTeam::Blue, by_bot: None };
    assert!(!important_event(&kick, false));
    assert!(important_event(&kick, true));
}

#[test]
fn simulator_command_errors_in_order() {
    let cmd = SimCommandRequest {
        control: Some(ControlRequest {
            teleport_ball: Some(TeleportBallFlags { teleport_safely: Some(true), roll: Some(true) }),
            simulation_speed_set: true,
        }),
        config: Some(ConfigRequest {
            geometry_set: true,
            realism_config_set: true,
            vision_port: Some(70000),
            robot_spec_count: 0,
        }),
    };
    let codes: Vec<String> = simulator_command_errors(&cmd)
        .into_iter()
        .map(|e| e.code.unwrap())
        .collect();
    assert_eq!(
        codes,
        vec![
            "GRSIM_UNSUPPORTED_TELEPORT_SAFELY",
            "GRSIM_UNSUPPORTED_ROLL_BALL",
            "GRSIM_UNSUPPORTED_SIMULATION_SPEED",
            "GRSIM_UNSUPPORTED_CONFIG_GEOMETRY",
            "GRSIM_UNSUPPORTED_CONFIG_REALISM"
        ]
    );
    assert_eq!(vision_port_after(10020, &cmd), (70000u32 % 65536) as u16);
    assert!(!rebuilds_robots(&cmd));
}

#[test]
fn robot_spec_import_has_no_errors() {
    let cmd = SimCommandRequest {
        control: None,
        config: Some(ConfigRequest {
            geometry_set: false,
            realism_config_set: false,
            vision_port: Some(12000),
            robot_spec_count: 1,
        }),
    };
    assert!(simulator_command_errors(&cmd).is_empty());
    assert_eq!(vision_port_after(10020, &cmd), 12000);
    assert!(rebuilds_robots(&cmd));
    let e = sim_error("X", "y");
    assert_eq!(e.message.as_deref(), Some("y"));
}

#[test]
fn team_codes() {
    assert_eq!(local_team_to_proto(TeamColor::Blue), 1);
    assert_eq!(proto_team_to_local(0), Some(TeamColor::Yellow));
    assert_eq!(proto_team_to_local(2), None);
    assert_eq!(map_team(Some(1)), TeamColor::Yellow);
    assert_eq!(map_team(Some(0)), TeamColor::Blue);
    assert_eq!(map_team(None), TeamColor::Blue);
    assert_eq!(team_color_str(TeamColor::Yellow), "yellow");
    assert_eq!(team_letter(TeamColor::Blue), "B");
    assert_eq!(TeamColor::Blue.opponent(), TeamColor::Yellow);
}

#[test]
fn kicker_countdown_clears_kick() {
    let mut k = KickerState::new();
    assert!(k.consume_first_time());
    assert!(!k.consume_first_time());
    k.kick_countdown = 2;
    k.kick_type = KickType::Chip;
    k.step_kicker();
    assert_eq!(k.kick_type, KickType::Chip);
    k.step_kicker();
    assert_eq!(k.kick_countdown, 0);
    assert_eq!(k.kick_type, KickType::Idle);
    assert_eq!(kick_status_of(KickType::Flat), KickStatus::FlatKick);
    assert_eq!(kick_status_of(KickType::Idle), KickStatus::NoKick);
}

#[test]
fn status_cache_change_detection() {
    let a = vec![RobotStatusCache::from_state(true, KickStatus::NoKick)];
    let b = vec![RobotStatusCache::from_state(true, KickStatus::ChipKick)];
    assert!(status_changed(&a, &b));
    assert!(!status_changed(&a, &a.clone()));
    assert!(b[0].chip_kick());
    assert!(!b[0].flat_kick());
}

#[test]
fn simnet_registration_and_actions() {
    let set = registered_teams(&vec![1, 7]);
    assert_eq!(set, TeamSet { blue: true, yellow: false });
    assert_eq!(action_target(Some((1, 4)), set), Some((TeamColor::Blue, 4)));
    assert_eq!(action_target(Some((0, 4)), set), None);
    assert_eq!(action_target(Some((5, 4)), set), None);
    assert_eq!(action_target(None, set), None);
}

#[test]
fn card_announcements() {
    assert_eq!(
        card_change_text(CardChange::YellowCard { team: TeamColor::Blue, total: 2 }),
        "yellow-card Blue total=2"
    );
    assert_eq!(
        card_change_text(CardChange::RedCard { team: TeamColor::Yellow, total: 1 }),
        "red-card Yellow total=1"
    );
}

#[test]
fn status_packet_entries() {
    let caches = vec![
        RobotStatusCache::from_state(true, KickStatus::FlatKick),
        RobotStatusCache::from_state(false, KickStatus::NoKick),
    ];
    assert_eq!(
        status_entries(&vec![3, 7], &caches),
        vec![
            RobotStatusEntry { robot_id: 3, infrared: true, flat_kick: true, chip_kick: false },
            RobotStatusEntry { robot_id: 7, infrared: false, flat_kick: false, chip_kick: false },
        ]
    );
}
