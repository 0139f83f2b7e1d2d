use simhark::args::{next_arg, optional_path_arg, parse, parse_bots, Args, Parsed, Surroundings};
use simhark::config::DEFAULT_SECONDS_BITS;
use simhark::controller::TeamKind;
use simhark::launch::{
    center_step, run_configured_matches, CenterEvent, CenterStep, MatchConfiguration,
};
use simhark::client::{CommandStatus, SimharkCommand, SystemCommand};
use simhark::names::{default_replay_path, log_path, safe_name, substitute, suffix_path};
use simhark::number::Double;

fn strings(args: &[&str]) -> Vec<String> {
    args.iter().map(|a| a.to_string()).collect()
}

fn surroundings() -> Surroundings {
    Surroundings { viewer: true, max_robots_per_team: 16, timestamp: 1_700_000_000 }
}

fn parse_in(args: &[&str], s: Surroundings) -> Result<Parsed, String> {
    let args = strings(args);
    let numbers = args
        .iter()
        .map(|a| a.parse::<f64>().ok().map(|x| Double::from_bits(x.to_bits())))
        .collect::<Vec<_>>();
    parse(&args, &numbers, s)
}

fn run(args: &[&str]) -> Args {
    match parse_in(args, surroundings()) {
        Ok(Parsed::Run(args)) => args,
        Ok(Parsed::Help) => panic!("expected a run"),
        Err(e) => panic!("{e}"),
    }
}

fn error(args: &[&str]) -> String {
    parse_in(args, surroundings()).err().unwrap()
}

#[test]
fn no_arguments_give_the_defaults() {
    let args = run(&[]);
    assert_eq!(args.matches, 1);
    assert!(args.summary.is_none());
    assert!(matches!(args.mc.blue, TeamKind::Bangka));
    assert!(matches!(args.mc.yellow, TeamKind::Bangka));
    assert_eq!(args.mc.seconds.bits, 60.0f64.to_bits());
    assert_eq!(DEFAULT_SECONDS_BITS, 60.0f64.to_bits());
    assert_eq!((args.mc.div, args.mc.seed, args.mc.log_every), ('b', 1, 2));
    assert_eq!(args.mc.print_commands_every, 60);
    assert!(args.mc.teleport_ball_on_no_progress);
}

#[test]
fn options_set_what_they_name() {
    let args = run(&[
        "--blue", "bongka:p.json", "--yellow", "dummy", "--blue-bots", "0", "--yellow-bots", "8",
        "--seconds", "12.5", "--div", "A", "--seed", "9", "--matches", "3", "--log", "g.log",
        "--summary", "s.json", "--log-every", "5", "--print-commands", "--print-commands-every",
        "7", "--validate-pickup", "--viewer", "--realtime", "--quiet",
    ]);
    assert!(matches!(&args.mc.blue, TeamKind::Bongka { params: Some(p) } if p == "p.json"));
    assert!(matches!(args.mc.yellow, TeamKind::Dummy));
    assert_eq!((args.mc.blue_bots, args.mc.yellow_bots), (Some(0), Some(8)));
    assert_eq!(args.mc.seconds.bits, 12.5f64.to_bits());
    assert_eq!((args.mc.div, args.mc.seed, args.matches), ('A', 9, 3));
    assert_eq!(args.mc.log.as_deref(), Some("g.log"));
    assert_eq!(args.summary.as_deref(), Some("s.json"));
    assert_eq!((args.mc.log_every, args.mc.print_commands_every), (5, 7));
    assert!(args.mc.print_commands && args.mc.validate_pickup && args.mc.viewer);
    assert!(args.mc.realtime && args.mc.quiet && !args.mc.dev);
}

#[test]
fn interface_recording_brings_the_viewer() {
    let args = run(&["--record-interface"]);
    assert!(args.mc.interface_recording && args.mc.viewer);
}

#[test]
fn a_replay_path_may_be_left_out() {
    assert_eq!(run(&["--replay", "r.shreplay"]).mc.replay.as_deref(), Some("r.shreplay"));
    let args = run(&["--replay", "--yellow", "legacy", "--div", "A"]);
    assert_eq!(
        args.mc.replay.as_deref(),
        Some("recordings/bangka_vs_legacy_diva_seed1_1700000000.shreplay")
    );
    assert_eq!(
        run(&["--replay"]).mc.replay.as_deref(),
        Some("recordings/bangka_vs_bangka_divb_seed1_1700000000.shreplay")
    );
}

#[test]
fn development_matches_bring_the_viewer_and_no_recovery() {
    let args = run(&["--dev"]);
    assert!(args.mc.dev && args.mc.viewer && args.mc.realtime);
    assert!(!args.mc.teleport_ball_on_no_progress);
    assert_eq!(error(&["--dev", "--replay"]), "--dev cannot be combined with --replay");
    assert_eq!(error(&["--dev", "--matches", "2"]), "--dev cannot be combined with --matches");
    assert_eq!(
        error(&["--dev", "--blue", "sumatra"]),
        "--dev supports in-process AIs only; Sumatra cannot be hot-swapped"
    );
    let without = Surroundings { viewer: false, ..surroundings() };
    assert_eq!(
        parse_in(&["--dev"], without).err().unwrap(),
        "--dev requires building match-runner with `--features viewer`"
    );
}

#[test]
fn bad_arguments_are_told() {
    assert_eq!(error(&["--nope"]), "unknown argument: --nope");
    assert_eq!(error(&["--blue"]), "missing value for --blue");
    assert_eq!(error(&["--blue", "who"]), "unknown team kind: who");
    assert_eq!(error(&["--yellow", "who"]), "unknown team kind: who");
    assert_eq!(error(&["--seconds", "long"]), "bad --seconds");
    assert_eq!(error(&["--seed", "-1"]), "bad --seed");
    assert_eq!(error(&["--matches", "x"]), "bad --matches");
    assert_eq!(error(&["--log-every", "x"]), "bad --log-every");
    assert_eq!(error(&["--print-commands-every", "x"]), "bad --print-commands-every");
    assert_eq!(error(&["--blue-bots", "x"]), "bad --blue-bots");
    assert_eq!(error(&["--yellow-bots", "17"]), "--yellow-bots must be <= 16, got 17");
}

#[test]
fn help_comes_before_what_follows_it() {
    assert!(matches!(parse_in(&["-h", "--nope"], surroundings()), Ok(Parsed::Help)));
    assert!(matches!(parse_in(&["--quiet", "--help"], surroundings()), Ok(Parsed::Help)));
    assert!(parse_in(&["--nope", "--help"], surroundings()).is_err());
}

#[test]
fn values_and_paths_are_found_behind_their_options() {
    let args = strings(&["--a", "b", "-c"]);
    assert_eq!(next_arg(&args, 0), Ok(1));
    assert_eq!(next_arg(&args, 2), Err("missing value for -c".to_string()));
    assert_eq!(optional_path_arg(&args, 0), Some(1));
    assert_eq!(optional_path_arg(&args, 1), None);
    assert_eq!(optional_path_arg(&args, 2), None);
    assert_eq!(parse_bots("3", "--x", 3), Ok(3));
}

#[test]
fn each_of_several_matches_has_its_own_seed_and_files() {
    let args = run(&["--matches", "3", "--seed", "5", "--log", "a.log", "--replay", "r.shreplay"]);
    let mc = args.match_of_batch(2);
    assert_eq!(mc.seed, 7);
    assert_eq!(mc.log.as_deref(), Some("a_2.log"));
    assert_eq!(mc.replay.as_deref(), Some("r_2.shreplay"));
    let alone = run(&["--log", "a.log", "--replay", "r.shreplay"]).match_of_batch(0);
    assert_eq!(alone.log.as_deref(), Some("a.log"));
    assert_eq!(alone.replay.as_deref(), Some("r.shreplay"));
    let last = run(&["--matches", "2", "--seed", "18446744073709551615"]).match_of_batch(1);
    assert_eq!(last.seed, 0);
}

#[test]
fn safe_names_are_plain() {
    assert_eq!(safe_name("Bangka"), "bangka");
    assert_eq!(safe_name("--A  b__c!!"), "a-b-c");
    assert_eq!(safe_name("!!!"), "");
    assert_eq!(safe_name("-"), "");
    let once = safe_name("x//Y..z-");
    assert_eq!(once, "x-y-z");
    assert_eq!(safe_name(&once), once);
    assert_eq!(
        default_replay_path("a b", "C", 'B', 2, 3),
        "recordings/a-b_vs_c_divb_seed2_3.shreplay"
    );
}

#[test]
fn numbered_paths_keep_their_extension() {
    assert_eq!(suffix_path("r.shreplay", 4), "r_4.shreplay");
    assert_eq!(suffix_path("a/b/r.x.shreplay", 0), "a/b/r.x_0.shreplay");
    assert_eq!(suffix_path("plain", 1), "plain_1");
    assert_eq!(suffix_path(".hidden", 1), ".hidden_1");
    assert_eq!(suffix_path("/r.shreplay", 2), "/r_2.shreplay");
    assert_eq!(suffix_path("/tmp/x/r.shreplay", 2), "/tmp/x/r_2.shreplay");
    assert_eq!(suffix_path("./r.shreplay", 2), "./r_2.shreplay");
    assert_eq!(suffix_path("../a/../r.shreplay", 2), "../a/../r_2.shreplay");
    assert_eq!(suffix_path("a//r.shreplay", 2), "a/r_2.shreplay");
    assert_eq!(suffix_path("a/./r.shreplay", 2), "a/r_2.shreplay");
    assert_eq!(suffix_path("a/r.shreplay/", 2), "a/r_2.shreplay");
    assert_eq!(suffix_path("a/..", 2), "a/../replay_2");
    assert_eq!(suffix_path("/", 2), "/replay_2");
    assert_eq!(suffix_path("", 2), "replay_2");
    assert_eq!(log_path("x.log.log", 3), "x_3.log_3.log");
    assert_eq!(log_path("x.txt", 3), "x.txt");
    assert_eq!(substitute("aaa", "aa", "b"), "ba");
}

fn configuration() -> MatchConfiguration {
    MatchConfiguration {
        blue_controller: "bangka".into(),
        yellow_controller: "dummy".into(),
        blue_robots: 6,
        yellow_robots: 0,
        duration_ns: None,
        division: "A".into(),
        batch_count: 0,
        seed: 3,
        precompute: true,
        development: false,
        record: true,
    }
}

fn d(x: f64) -> Double {
    Double::from_bits(x.to_bits())
}

#[test]
fn a_launch_plays_what_was_configured() {
    let launch = run_configured_matches(&configuration(), d(0.0), 16).unwrap();
    assert_eq!(launch.count, 1);
    let mc = launch.match_config(2);
    assert!(matches!(mc.blue, TeamKind::Bangka));
    assert_eq!((mc.blue_bots, mc.yellow_bots), (Some(6), Some(0)));
    assert_eq!(mc.seconds.bits, 60.0f64.to_bits());
    assert_eq!((mc.div, mc.seed), ('a', 5));
    assert!(mc.viewer && !mc.realtime && !mc.dev && mc.interface_recording);
    assert_eq!(mc.log_every, 2);
}

#[test]
fn unsound_configurations_are_refused() {
    let refused = |c: MatchConfiguration, asked: f64| {
        run_configured_matches(&c, d(asked), 16).err().unwrap()
    };
    let mut c = configuration();
    c.blue_controller = "x".into();
    assert_eq!(refused(c, 1.0), "unknown team kind: x");
    let mut c = configuration();
    c.yellow_controller = "y".into();
    assert_eq!(refused(c, 1.0), "unknown team kind: y");
    let mut c = configuration();
    c.yellow_robots = 17;
    assert_eq!(refused(c, 1.0), "robot count exceeds 16");
    let mut c = configuration();
    c.duration_ns = Some(0);
    assert_eq!(refused(c, 0.0), "duration must be positive and finite");
    let mut c = configuration();
    c.division = "c".into();
    assert_eq!(refused(c, 1.0), "division must be A or B");
    let mut c = configuration();
    c.division = String::new();
    assert!(run_configured_matches(&c, d(1.0), 16).is_ok());
}

#[test]
fn the_start_center_accepts_launches_alone() {
    assert!(matches!(center_step(CenterEvent::Interrupted), CenterStep::Quit));
    assert!(matches!(
        center_step(CenterEvent::Closed),
        CenterStep::Again { acknowledge: None }
    ));
    let launch = SystemCommand::Simhark(SimharkCommand::LaunchMatch(configuration()));
    match center_step(CenterEvent::Command(launch)) {
        CenterStep::Launch { configuration, status, message } => {
            assert_eq!(configuration.seed, 3);
            assert_eq!(status, CommandStatus::Applied);
            assert_eq!(message, "validated; rebuilding host for match session");
        }
        _ => panic!("expected a launch"),
    }
    match center_step(CenterEvent::Command(SystemCommand::Simhark(SimharkCommand::Start))) {
        CenterStep::Again { acknowledge: Some((status, message)) } => {
            assert_eq!(status, CommandStatus::Rejected);
            assert_eq!(message, "match-runner only accepts launch_match");
        }
        _ => panic!("expected a refusal"),
    }
}
