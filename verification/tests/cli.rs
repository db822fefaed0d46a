use simhark::controller::TeamKind;
use simhark::match_cli::{final_line, series_header, series_log_path, series_seed, MatchArgs};
use simhark::text::replace_all;
use simhark::sim_cli::SimCli;
use simhark::sumatra::{
    ensure_sumatra_repo, missing_launcher_message, sumatra_args, sumatra_launcher,
    SumatraLaunchConfig,
};
use simhark::team::TeamColor;

fn args(xs: &[&str]) -> (Vec<String>, Vec<bool>) {
    let a: Vec<String> = xs.iter().map(|x| x.to_string()).collect();
    let n: Vec<bool> = a.iter().map(|x| x.parse::<f64>().is_ok()).collect();
    (a, n)
}

#[test]
fn match_args_defaults_and_values() {
    let (a, n) = args(&[
        "--blue", "bangka", "--yellow", "sumatra", "--div", "a", "--seconds", "30", "--seed", "7",
        "--matches", "3", "--log", "game.log", "--log-every", "4", "--quiet", "--viewer",
    ]);
    let m = MatchArgs::parse(&a, &n).unwrap();
    assert!(matches!(m.blue, TeamKind::Bangka));
    assert!(matches!(m.yellow, TeamKind::Sumatra));
    assert_eq!(m.div, 'a');
    assert_eq!(m.seconds.as_deref(), Some("30"));
    assert_eq!(m.seed, 7);
    assert_eq!(m.matches, 3);
    assert_eq!(m.log.as_deref(), Some("game.log"));
    assert_eq!(m.log_every, 4);
    assert!(m.quiet && m.viewer && !m.realtime);
    let (a, n) = args(&[]);
    let d = MatchArgs::parse(&a, &n).unwrap();
    assert_eq!((d.div, d.seed, d.matches, d.log_every, d.print_commands_every), ('b', 1, 1, 2, 60));
    assert!(d.seconds.is_none());
}

#[test]
fn match_args_errors() {
    let (a, n) = args(&["--seed"]);
    assert_eq!(MatchArgs::parse(&a, &n).unwrap_err(), "missing value for --seed");
    let (a, n) = args(&["--seconds", "soon"]);
    assert_eq!(MatchArgs::parse(&a, &n).unwrap_err(), "bad --seconds");
    let (a, n) = args(&["--seed", "-1"]);
    assert_eq!(MatchArgs::parse(&a, &n).unwrap_err(), "bad --seed");
    let (a, n) = args(&["--matches", "x"]);
    assert_eq!(MatchArgs::parse(&a, &n).unwrap_err(), "bad --matches");
    let (a, n) = args(&["--log-every", ""]);
    assert_eq!(MatchArgs::parse(&a, &n).unwrap_err(), "bad --log-every");
    let (a, n) = args(&["--print-commands-every", "q"]);
    assert_eq!(MatchArgs::parse(&a, &n).unwrap_err(), "bad --print-commands-every");
    let (a, n) = args(&["--blue", "robots"]);
    assert_eq!(MatchArgs::parse(&a, &n).unwrap_err(), "unknown team kind: robots");
    let (a, n) = args(&["--fast"]);
    assert_eq!(MatchArgs::parse(&a, &n).unwrap_err(), "unknown argument: --fast");
    let (a, n) = args(&["--help", "--fast"]);
    assert!(MatchArgs::parse(&a, &n).unwrap().help);
    let (a, n) = args(&["--div", ""]);
    assert_eq!(MatchArgs::parse(&a, &n).unwrap().div, 'b');
}

#[test]
fn simulator_options() {
    let a: Vec<String> = ["simhark", "64", "x", "--viewer", "--viewer-port", "9000", "--randomize"]
        .iter()
        .map(|x| x.to_string())
        .collect();
    let c = SimCli::parse(&a);
    assert_eq!(c.num_worlds, 64);
    assert_eq!(c.num_steps, 1000);
    assert!(c.viewer && c.randomize && !c.grsim_api);
    assert_eq!(c.viewer_port, 9000);
    let b: Vec<String> = ["simhark", "--viewer-port", "99999", "--viewer-port", "1"]
        .iter()
        .map(|x| x.to_string())
        .collect();
    let c = SimCli::parse(&b);
    assert_eq!(c.viewer_port, 8315);
    assert_eq!(c.num_worlds, 512);
    let e: Vec<String> = vec!["simhark".to_string()];
    assert_eq!(SimCli::parse(&e).num_steps, 1000);
}

#[test]
fn sumatra_command_line() {
    let c = SumatraLaunchConfig::with_repo_root("/opt/Sumatra".to_string());
    assert_eq!(
        sumatra_args(&c),
        vec!["--moduli=simulation_protocol", "--headless", "--aiBlue", "--aiYellow", "--maxSpeed"]
    );
    let r = SumatraLaunchConfig::for_remote_side("/opt/Sumatra".to_string(), TeamColor::Yellow);
    assert_eq!(
        sumatra_args(&r),
        vec!["--moduli=sim_client", "--headless", "--aiYellow", "--host=127.0.0.1"]
    );
}

#[test]
fn sumatra_paths_and_checks() {
    assert_eq!(sumatra_launcher("/opt/Sumatra", false), "/opt/Sumatra/build/install/sumatra/bin/sumatra");
    assert_eq!(sumatra_launcher("/opt/Sumatra/", false), "/opt/Sumatra/build/install/sumatra/bin/sumatra");
    assert_eq!(
        sumatra_launcher("C:\\Sumatra", true),
        "C:\\Sumatra\\build/install/sumatra/bin\\sumatra.bat"
    );
    assert_eq!(
        ensure_sumatra_repo("/x", false, false).unwrap_err(),
        "Sumatra checkout not found at /x. Please clone it manually there."
    );
    assert_eq!(
        ensure_sumatra_repo("/x", true, false).unwrap_err(),
        "/x does not look like a Sumatra checkout"
    );
    assert!(ensure_sumatra_repo("/x", true, true).is_ok());
    assert_eq!(missing_launcher_message("/x/l"), "missing built Sumatra launcher at /x/l");
}

#[test]
fn match_series_helpers() {
    assert_eq!(series_seed(5, 2), 7);
    assert_eq!(series_seed(u64::MAX, 2), 1);
    assert_eq!(series_log_path("runs/game.log", 2, 3), "runs/game_2.log");
    assert_eq!(series_log_path("a.log.log", 0, 2), "a_0.log_0.log");
    assert_eq!(series_log_path("runs/game.log", 0, 1), "runs/game.log");
    assert_eq!(series_log_path("plain", 4, 9), "plain");
    assert_eq!(
        final_line("blue:bangka", 2, 1, "yellow:sumatra", "blue:bangka"),
        "=== Final: blue:bangka 2 - 1 yellow:sumatra  | winner: blue:bangka ==="
    );
    assert_eq!(series_header(0, 3), "--- match 1/3 ---");
    assert_eq!(replace_all("aaa", "aa", "b"), "ba");
    assert_eq!(replace_all("xyz", "q", "b"), "xyz");
}
