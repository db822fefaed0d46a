use simhark::faabs::{
    ai_task_color, ai_task_label, debug_color, task_color, AiCommandKind, StackTask,
    ball_holders, strategy_message, format_task_counts, robot_stack_address, interface_team_flags, next_feedback_robot, robot_event_flags, set_bit,
    str_lt, task_counts, RobotDebugInfo,
};
use simhark::motion::MotionFinding;
use simhark::team::{KickStatus, TeamColor};

fn robot(id: usize, task: &str) -> RobotDebugInfo {
    RobotDebugInfo {
        team: TeamColor::Blue,
        id,
        task: task.to_string(),
        color: "#ffffff".to_string(),
        message: None,
    }
}

#[test]
fn firmware_flags() {
    assert_eq!(set_bit(0, 1), 2);
    assert_eq!(set_bit(2, 3), 10);
    assert_eq!(robot_event_flags(true, KickStatus::NoKick), 0b1110);
    assert_eq!(robot_event_flags(false, KickStatus::NoKick), 0b1100);
    assert_eq!(robot_event_flags(true, KickStatus::FlatKick), 0b0010);
    assert_eq!(robot_event_flags(false, KickStatus::ChipKick), 0);
}

#[test]
fn task_counts_are_sorted_and_counted() {
    let robots = vec![robot(0, "Keeper"), robot(1, "Attacker"), robot(2, "Marking"), robot(3, "Attacker")];
    let counts = task_counts(&robots);
    assert_eq!(
        counts,
        vec![("Attacker".to_string(), 2), ("Keeper".to_string(), 1), ("Marking".to_string(), 1)]
    );
    assert_eq!(format_task_counts(&counts), "Attacker 2, Keeper 1, Marking 1");
    assert_eq!(format_task_counts(&Vec::new()), "none");
    assert!(task_counts(&Vec::new()).is_empty());
}

#[test]
fn text_order_matches_str_order() {
    for (a, b) in [("a", "b"), ("ab", "a"), ("", "a"), ("Keeper", "keeper"), ("x", "x"), ("é", "z")] {
        assert_eq!(str_lt(a, b), a < b);
        assert_eq!(str_lt(b, a), b < a);
    }
}

#[test]
fn feedback_rotation_and_interface_flags() {
    assert_eq!(next_feedback_robot(0, 3), 1);
    assert_eq!(next_feedback_robot(2, 3), 0);
    assert_eq!(interface_team_flags(TeamColor::Yellow), (true, false));
    assert_eq!(interface_team_flags(TeamColor::Blue), (false, true));
}

#[test]
fn motion_findings_keep_their_text() {
    let f = MotionFinding::new("ball-random-force", "ball sped up".to_string());
    assert_eq!(f.kind, "ball-random-force");
    assert_eq!(f.detail, "ball sped up");
}

#[test]
fn viewer_task_labels_and_colors() {
    assert_eq!(ai_task_label(AiCommandKind::PassTo(4)), "AI PassTo 4");
    assert_eq!(ai_task_label(AiCommandKind::GoalieGuard), "AI GoalieGuard");
    assert_eq!(ai_task_color(AiCommandKind::KickGoal), "#ef4444");
    assert_eq!(ai_task_color(AiCommandKind::PassTo(1)), "#0ea5e9");
    assert_eq!(task_color(true, StackTask::Kick), "#64748b");
    assert_eq!(task_color(false, StackTask::Block), "#6366f1");
    assert_eq!(task_color(false, StackTask::Other), "#94a3b8");
    assert_eq!(debug_color(Some(AiCommandKind::Hold), false, StackTask::Kick), "#94a3b8");
    assert_eq!(debug_color(None, false, StackTask::Kick), "#ef4444");
}

#[test]
fn robot_addresses() {
    assert_eq!(robot_stack_address(1), Some((10, 0, 64, 101)));
    assert_eq!(robot_stack_address(3), Some((10, 0, 64, 103)));
    assert_eq!(robot_stack_address(5), Some((10, 0, 64, 104)));
    assert_eq!(robot_stack_address(6), None);
}

#[test]
fn ball_holders_sorted_as_text() {
    assert_eq!(ball_holders(&vec![10, 2], &vec![1]), Some("Blue 10, Blue 2, Yellow 1".to_string()));
    assert_eq!(ball_holders(&vec![], &vec![3]), Some("Yellow 3".to_string()));
    assert_eq!(ball_holders(&vec![], &vec![]), None);
}

#[test]
fn strategy_line() {
    let line = strategy_message(
        TeamColor::Yellow,
        5,
        6,
        "Attacker 2",
        "ball=(0.10,-0.20) v=1.50m/s",
        None,
        Some(3),
        Some("  press high  "),
    );
    assert_eq!(
        line,
        "FAABS Yellow: commanded 5/6 active robots | tasks: Attacker 2 | ball=(0.10,-0.20) v=1.50m/s | holders: none | referee=3 | ai: press high"
    );
    let quiet = strategy_message(TeamColor::Blue, 0, 0, "none", "b", Some("Blue 1"), None, Some("   "));
    assert_eq!(quiet, "FAABS Blue: commanded 0/0 active robots | tasks: none | b | holders: Blue 1 | referee=none");
}
