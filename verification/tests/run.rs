use cargo_embed::config::{CliOptions, Config, Flashing, Gdb, General, Probe, Reset, Rtt, WireProtocol};
use cargo_embed::plan::{
    can_fail, download_options, failure_context, gdb_address, reset_mode, session, Artifact, ResetMode, Step,
};
use cargo_embed::run::{Embed, Event, RunStatus};

fn config(flashing: bool, reset: bool, gdb: bool, rtt: bool) -> Config {
    Config {
        general: General { chip: None, chip_descriptions: vec!["a.yaml".to_string()], connect_under_reset: false },
        probe: Probe { protocol: WireProtocol::Jtag, usb_vid: None, usb_pid: None, serial: None, speed: None },
        flashing: Flashing {
            enabled: flashing,
            halt_afterwards: false,
            restore_unwritten_bytes: true,
            do_chip_erase: true,
        },
        reset: Reset { enabled: reset, halt_afterwards: false },
        gdb: Gdb { enabled: gdb, gdb_connection_string: None },
        rtt: Rtt {
            enabled: rtt,
            up_channels: vec![],
            down_channels: vec![],
            timeout_nanos: 0,
            show_timestamps: false,
            show_location: false,
        },
    }
}

fn cli(work_dir: Option<&str>) -> CliOptions {
    CliOptions {
        config: Some("release".to_string()),
        chip: None,
        probe: None,
        disable_progressbars: true,
        work_dir: work_dir.map(|s| s.to_string()),
    }
}

fn name(step: &Step) -> String {
    match step {
        Step::Flash { .. } => "Flash".to_string(),
        step => format!("{step:?}").replace('"', ""),
    }
}

/// The steps of a run in which the step with the given name fails.
fn steps(cli: CliOptions, config: Config, failing: &str) -> (Vec<String>, RunStatus) {
    let mut run = Embed::start(cli);
    let mut taken = Vec::new();
    while let Some(step) = run.current() {
        assert_eq!(run.status(), RunStatus::Running);
        let name = name(step);
        let event = if name == failing {
            assert!(can_fail(step));
            Event::Failed
        } else if matches!(step, Step::SelectConfig(_)) {
            assert!(run.config().is_none());
            Event::Configured(config.clone())
        } else {
            Event::Completed
        };
        assert!(run.accepts(&event));
        assert_eq!(run.accepts(&Event::Completed), !matches!(step, Step::SelectConfig(_)));
        assert_eq!(run.accepts(&Event::Failed), can_fail(step));
        taken.push(name);
        run.advance(event);
    }
    assert!(!run.accepts(&Event::Completed) && !run.accepts(&Event::Failed));
    (taken, run.status())
}

#[test]
fn a_full_run() {
    let (taken, status) = steps(cli(Some("fw")), config(true, true, true, true), "");
    assert_eq!(
        taken,
        vec![
            "ChangeDir(fw)",
            "ReadCurrentDir",
            "SelectConfig(release)",
            "SetupLogging",
            "OpenChipDescription(a.yaml)",
            "AddTarget(a.yaml)",
            "BuildArtifact",
            "Announce",
            "Attach",
            "Flash",
            "FindCore",
            "Reset(Run)",
            "StartGdb(127.0.0.1:1337)",
            "RunRtt",
            "JoinGdb",
            "ReportDone(release)",
        ]
    );
    assert_eq!(status, RunStatus::Succeeded);
}

#[test]
fn a_bare_run() {
    let mut config = config(false, false, false, false);
    config.general.chip_descriptions.clear();
    let (taken, status) = steps(CliOptions { config: None, ..cli(None) }, config, "");
    assert_eq!(
        taken,
        vec![
            "ReadCurrentDir",
            "SelectConfig(default)",
            "SetupLogging",
            "BuildArtifact",
            "Announce",
            "Attach",
            "FindCore",
            "ReportDone(default)",
        ]
    );
    assert_eq!(status, RunStatus::Succeeded);
}

#[test]
fn descriptions_are_loaded_in_their_order() {
    let mut config = config(false, false, false, false);
    config.general.chip_descriptions.push("b.yaml".to_string());
    let names: Vec<String> = session(&cli(None), &config).iter().map(name).collect();
    assert_eq!(
        names[1..5],
        ["OpenChipDescription(a.yaml)", "AddTarget(a.yaml)", "OpenChipDescription(b.yaml)", "AddTarget(b.yaml)"]
    );
}

#[test]
fn a_failure_ends_the_run() {
    let (full, _) = steps(cli(Some("fw")), config(true, true, true, true), "");
    for failing in [
        "ChangeDir(fw)",
        "ReadCurrentDir",
        "SelectConfig(release)",
        "OpenChipDescription(a.yaml)",
        "AddTarget(a.yaml)",
        "BuildArtifact",
        "Attach",
        "Flash",
        "Reset(Run)",
        "RunRtt",
    ] {
        let k = full.iter().position(|step| step == failing).unwrap();
        let (taken, status) = steps(cli(Some("fw")), config(true, true, true, true), failing);
        assert_eq!(taken, full[..k + 1]);
        assert_eq!(status, RunStatus::Failed);
    }
}

#[test]
fn some_steps_cannot_fail() {
    let unfailing: Vec<String> = session(&cli(None), &config(true, true, true, true))
        .iter()
        .filter(|step| !can_fail(step))
        .map(name)
        .collect();
    assert_eq!(
        unfailing,
        vec![
            "SetupLogging",
            "Announce",
            "FindCore",
            "StartGdb(127.0.0.1:1337)",
            "JoinGdb",
            "ReportDone(release)",
        ]
    );
}

#[test]
fn after_the_reset_only_rtt_fails() {
    let (taken, status) = steps(cli(None), config(true, true, true, true), "RunRtt");
    assert_eq!(taken.last().unwrap(), "RunRtt");
    assert_eq!(status, RunStatus::Failed);
    let (taken, status) = steps(cli(None), config(true, true, true, false), "RunRtt");
    assert_eq!(taken[taken.len() - 2], "JoinGdb");
    assert_eq!(status, RunStatus::Succeeded);
}

#[test]
fn each_switch_has_its_steps() {
    for bits in 0..16 {
        let (flashing, reset, gdb, rtt) = (bits & 1 != 0, bits & 2 != 0, bits & 4 != 0, bits & 8 != 0);
        let (taken, _) = steps(cli(None), config(flashing, reset, gdb, rtt), "");
        let has = |start: &str| taken.iter().any(|step| step.starts_with(start));
        assert_eq!(has("Flash"), flashing);
        assert_eq!(has("Reset"), reset);
        assert_eq!(has("StartGdb"), gdb);
        assert_eq!(has("JoinGdb"), gdb);
        assert_eq!(has("RunRtt"), rtt);
    }
}

#[test]
fn the_configuration_is_kept() {
    let mut run = Embed::start(cli(None));
    run.advance(Event::Completed);
    run.advance(Event::Configured(config(true, false, false, false)));
    assert!(run.config().unwrap().flashing.enabled);
}

#[test]
fn how_the_target_is_reset() {
    let mut config = config(false, true, false, false);
    assert_eq!(reset_mode(&config), Some(ResetMode::Run));
    config.reset.halt_afterwards = true;
    assert_eq!(reset_mode(&config), Some(ResetMode::Halt { timeout_millis: 500, option_moved: false }));
    config.flashing.halt_afterwards = true;
    assert_eq!(reset_mode(&config), Some(ResetMode::Halt { timeout_millis: 500, option_moved: true }));
    config.reset.halt_afterwards = false;
    assert_eq!(reset_mode(&config), Some(ResetMode::Halt { timeout_millis: 500, option_moved: true }));
    config.reset.enabled = false;
    assert_eq!(reset_mode(&config), None);
}

#[test]
fn how_the_image_is_written() {
    let config = config(true, false, false, false);
    let options = download_options(&cli(None), &config);
    assert!(options.disable_progressbars);
    assert!(!options.disable_double_buffering);
    assert!(options.restore_unwritten);
    assert_eq!(options.flash_layout_output_path, None);
    assert!(!options.verify);
    assert!(session(&cli(None), &config)
        .iter()
        .any(|step| matches!(step, Step::Flash { do_chip_erase: true, .. })));
}

#[test]
fn the_gdb_stub_has_a_default_address() {
    assert_eq!(gdb_address(&None), "127.0.0.1:1337");
    assert_eq!(gdb_address(&Some("[::1]:2331".to_string())), "[::1]:2331");
}

#[test]
fn the_binary_is_named_after_its_file() {
    let named = Artifact { stem: Some("blinky".to_string()), path: "target/blinky.elf".to_string() };
    assert_eq!(named.name(), Ok("blinky".to_string()));
    let unnamed = Artifact { stem: None, path: "target/..".to_string() };
    assert_eq!(
        unnamed.name(),
        Err("Unable to determine binary file name from path target/..".to_string())
    );
}

#[test]
fn failures_with_a_context() {
    assert_eq!(
        failure_context(&Step::ChangeDir("fw".to_string())),
        Some("Unable to change working directory to fw".to_string())
    );
    assert_eq!(
        failure_context(&Step::AddTarget("a.yaml".to_string())),
        Some("failed to load the chip description from a.yaml".to_string())
    );
    assert_eq!(failure_context(&Step::OpenChipDescription("a.yaml".to_string())), None);
    assert_eq!(failure_context(&Step::BuildArtifact), None);
}
