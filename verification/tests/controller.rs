use simhark::controller::{referee_command_for, DummyController, GameCommand, TeamKind};
use simhark::match_setup::{
    bot_counts, check_crashpilot_limit, has_active_external, is_division_a, launches_external,
    log_frame_due, next_command_counter, physical_bot_count, physical_bot_counts, pop_first,
    prefixed_name, print_commands_due, robots_per_team, runs_in_process, side_name,
    warmup_failure_message, warmup_step, TeamBotCounts, WarmupStep,
};
use simhark::team_control::{FnTeamController, NoopController};

#[test]
fn dummy_aliases_parse_to_dummy() {
    for name in ["dummy", "noop", "none", "idle"] {
        assert!(matches!(TeamKind::parse(name), Ok(TeamKind::Dummy)));
    }
}

#[test]
fn team_kind_parse_is_case_insensitive_and_keeps_arguments() {
    assert!(matches!(TeamKind::parse("DUMMY"), Ok(TeamKind::Dummy)));
    assert!(matches!(TeamKind::parse("Sumatra"), Ok(TeamKind::Sumatra)));
    assert!(matches!(TeamKind::parse("tigers"), Ok(TeamKind::Sumatra)));
    assert!(matches!(TeamKind::parse("us"), Ok(TeamKind::Bangka)));
    assert!(matches!(TeamKind::parse("baseline"), Ok(TeamKind::BangkaLegacy)));
    match TeamKind::parse("bongka:params.json") {
        Ok(TeamKind::Bongka { params }) => assert_eq!(params.as_deref(), Some("params.json")),
        other => panic!("unexpected {other:?}"),
    }
    match TeamKind::parse("CP:model.safetensors") {
        Ok(TeamKind::CrashPilot { model }) => {
            assert_eq!(model.as_deref(), Some("model.safetensors"))
        }
        other => panic!("unexpected {other:?}"),
    }
    match TeamKind::parse("ungabunga") {
        Ok(TeamKind::Ungabunga { params }) => assert_eq!(params, None),
        other => panic!("unexpected {other:?}"),
    }
}

#[test]
fn team_kind_parse_rejects_unknown_names() {
    match TeamKind::parse("Robots:x") {
        Err(e) => assert_eq!(e, "unknown team kind: robots"),
        Ok(k) => panic!("unexpected {k:?}"),
    }
}

#[test]
fn team_kind_labels_parse_back() {
    let kinds = [
        TeamKind::Bangka,
        TeamKind::Bongka { params: Some("p".to_string()) },
        TeamKind::Ungabunga { params: None },
        TeamKind::Bangka1,
        TeamKind::BangkaLegacy,
        TeamKind::CrashPilot { model: None },
        TeamKind::Dummy,
        TeamKind::Sumatra,
    ];
    for k in kinds.iter() {
        let back = TeamKind::parse(k.label()).unwrap();
        assert_eq!(back.label(), k.label());
    }
    match TeamKind::parse(kinds[1].label()) {
        Ok(TeamKind::Bongka { params }) => assert_eq!(params, None),
        other => panic!("unexpected {other:?}"),
    }
    assert!(matches!(TeamKind::parse(TeamKind::Sumatra.label()), Ok(TeamKind::Sumatra)));
    assert_eq!(TeamKind::BangkaLegacy.label(), "legacy");
}

#[test]
fn team_kind_flags() {
    assert!(TeamKind::Sumatra.is_external());
    assert!(!TeamKind::Bangka.is_external());
    assert!(TeamKind::Bangka.uses_crashpilot_binding());
    assert!(!TeamKind::Dummy.uses_crashpilot_binding());
    assert!(!TeamKind::Sumatra.uses_crashpilot_binding());
}

#[test]
fn dummy_controller_commands_every_robot() {
    let c = DummyController::new(3);
    assert_eq!(c.name(), "dummy");
    assert_eq!(c.command_ids(), vec![0, 1, 2]);
}

#[test]
fn halt_maps_to_halt_code_everything_else_to_force_start() {
    assert_eq!(referee_command_for(GameCommand::Halt), 0);
    assert_eq!(referee_command_for(GameCommand::Running), 3);
    assert_eq!(referee_command_for(GameCommand::PrepareKickoffThem), 3);
}

#[test]
fn bot_counts_default_and_physical_counts() {
    let b = bot_counts(Some(0), None, 6);
    assert_eq!(b, TeamBotCounts { blue: 0, yellow: 6 });
    assert_eq!(physical_bot_count(Some(0), 6), 6);
    assert_eq!(physical_bot_count(None, 6), 6);
    assert_eq!(physical_bot_count(Some(3), 6), 3);
    let p = physical_bot_counts(Some(0), Some(11), 6);
    assert_eq!(p, TeamBotCounts { blue: 6, yellow: 11 });
    assert_eq!(robots_per_team(p), 11);
}

#[test]
fn external_sides_route_to_hybrid_path() {
    let counts = TeamBotCounts { blue: 6, yellow: 0 };
    assert!(!has_active_external(&TeamKind::Bangka, &TeamKind::Sumatra, counts));
    assert!(has_active_external(&TeamKind::Sumatra, &TeamKind::Bangka, counts));
    assert!(runs_in_process(&TeamKind::Bangka, 6));
    assert!(!runs_in_process(&TeamKind::Sumatra, 6));
    assert!(!runs_in_process(&TeamKind::Bangka, 0));
    assert!(launches_external(&TeamKind::Sumatra, 1));
    assert!(is_division_a('A'));
    assert!(is_division_a('a'));
    assert!(!is_division_a('b'));
}

#[test]
fn crashpilot_limit_refuses_division_a() {
    let counts = TeamBotCounts { blue: 11, yellow: 11 };
    let err = check_crashpilot_limit(&TeamKind::Bangka, &TeamKind::Sumatra, counts, 'a').unwrap_err();
    assert_eq!(
        err,
        "division a has 11 robots/team, but the in-process AI (CrashPilot) supports at most 8. Use --div b or --blue-bots/--yellow-bots <= 8 for matches against Sumatra."
    );
    assert!(check_crashpilot_limit(&TeamKind::Dummy, &TeamKind::Sumatra, counts, 'a').is_ok());
    let small = TeamBotCounts { blue: 8, yellow: 6 };
    assert!(check_crashpilot_limit(&TeamKind::Bangka, &TeamKind::Sumatra, small, 'b').is_ok());
}

#[test]
fn side_names() {
    assert_eq!(side_name(&TeamKind::Bangka, Some("bangka-v2"), 0), "bangka:0bots");
    assert_eq!(side_name(&TeamKind::Bangka, Some("bangka-v2"), 6), "bangka-v2");
    assert_eq!(side_name(&TeamKind::Sumatra, None, 6), "sumatra");
    assert_eq!(prefixed_name("blue", "sumatra"), "blue:sumatra");
}

#[test]
fn frame_schedules() {
    assert!(print_commands_due(true, false, 60, 120));
    assert!(!print_commands_due(true, false, 60, 121));
    assert!(print_commands_due(false, true, 0, 7));
    assert!(!print_commands_due(false, false, 1, 0));
    assert!(log_frame_due(4, 2));
    assert!(!log_frame_due(5, 2));
    assert_eq!(next_command_counter(1), 2);
    assert_eq!(next_command_counter(u32::MAX), 0);
}

#[test]
fn warmup_decisions() {
    assert_eq!(warmup_step(true, true, true), WarmupStep::Connected);
    assert_eq!(warmup_step(false, true, true), WarmupStep::TimedOut);
    assert_eq!(warmup_step(false, false, true), WarmupStep::ProcessExited);
    assert_eq!(warmup_step(false, false, false), WarmupStep::Wait);
    assert_eq!(
        warmup_failure_message(WarmupStep::TimedOut),
        Some("timed out waiting for Sumatra to connect on SimNet")
    );
    assert_eq!(
        warmup_failure_message(WarmupStep::ProcessExited),
        Some("a Sumatra process exited before connecting")
    );
    assert_eq!(warmup_failure_message(WarmupStep::Wait), None);
}

#[test]
fn pop_first_takes_the_head() {
    assert_eq!(pop_first(vec![3, 4]), Some(3));
    assert_eq!(pop_first(Vec::<u8>::new()), None);
}

#[test]
fn fn_controller_keeps_its_function() {
    let c = FnTeamController::new(|x: usize| x + 1);
    assert_eq!((c.f)(1), 2);
    let _n = NoopController;
}
