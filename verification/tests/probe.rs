use cargo_embed::config::{
    CliOptions, Config, DebugProbeSelector, Flashing, Gdb, General, Probe, Reset, Rtt, WireProtocol,
};
use cargo_embed::hex::HexError;
use cargo_embed::run::{attach_event, options_event, Event};
use cargo_embed::probe::{
    after_attach, multiple_probes_message, probe_options, select_probe, AttachDecision, AttachOutcome,
    SelectorWarning,
};

fn probe(vid: Option<&str>, pid: Option<&str>) -> Probe {
    Probe {
        protocol: WireProtocol::Swd,
        usb_vid: vid.map(|s| s.to_string()),
        usb_pid: pid.map(|s| s.to_string()),
        serial: Some("42".to_string()),
        speed: Some(4000),
    }
}

fn config(probe: Probe) -> Config {
    Config {
        general: General { chip: Some("nrf52".to_string()), chip_descriptions: vec![], connect_under_reset: true },
        probe,
        flashing: Flashing {
            enabled: false,
            halt_afterwards: false,
            restore_unwritten_bytes: false,
            do_chip_erase: false,
        },
        reset: Reset { enabled: true, halt_afterwards: false },
        gdb: Gdb { enabled: false, gdb_connection_string: None },
        rtt: Rtt {
            enabled: false,
            up_channels: vec![],
            down_channels: vec![],
            timeout_nanos: 3_000_000_000,
            show_timestamps: true,
            show_location: false,
        },
    }
}

fn cli() -> CliOptions {
    CliOptions { config: None, chip: None, probe: None, disable_progressbars: false, work_dir: None }
}

#[test]
fn both_identifiers_select_a_probe() {
    let selection = select_probe(&None, &probe(Some("1366"), Some("1015"))).unwrap();
    let selector = selection.selector.unwrap();
    assert_eq!(selector.vendor_id, 0x1366);
    assert_eq!(selector.product_id, 0x1015);
    assert_eq!(selector.serial_number, Some("42".to_string()));
    assert_eq!(selection.warning, None);
}

#[test]
fn half_an_identifier_is_pointed_out() {
    let selection = select_probe(&None, &probe(Some("zz"), None)).unwrap();
    assert!(selection.selector.is_none());
    assert_eq!(selection.warning, Some(SelectorWarning::VendorIgnored));
    assert_eq!(SelectorWarning::VendorIgnored.message(), "USB VID ignored, because PID is not specified.");
    let selection = select_probe(&None, &probe(None, Some("1015"))).unwrap();
    assert!(selection.selector.is_none());
    assert_eq!(selection.warning, Some(SelectorWarning::ProductIgnored));
    assert_eq!(SelectorWarning::ProductIgnored.message(), "USB PID ignored, because VID is not specified.");
    let selection = select_probe(&None, &probe(None, None)).unwrap();
    assert!(selection.selector.is_none());
    assert_eq!(selection.warning, None);
}

#[test]
fn the_vendor_identifier_is_read_first() {
    assert_eq!(select_probe(&None, &probe(Some(""), Some("zz"))).unwrap_err(), HexError::Empty);
    assert_eq!(select_probe(&None, &probe(Some("1"), Some("zz"))).unwrap_err(), HexError::InvalidDigit);
    assert_eq!(select_probe(&None, &probe(Some("1"), Some("12345"))).unwrap_err(), HexError::TooLarge);
}

#[test]
fn the_command_line_takes_precedence() {
    let named = DebugProbeSelector { vendor_id: 1, product_id: 2, serial_number: None };
    let selection = select_probe(&Some(named.clone()), &probe(Some("zz"), None)).unwrap();
    assert_eq!(selection.selector.unwrap().vendor_id, 1);
    assert_eq!(selection.warning, None);

    let options = CliOptions { chip: Some("stm32".to_string()), probe: Some(named), ..cli() };
    let (options, _) = probe_options(&options, &config(probe(None, None))).unwrap();
    assert_eq!(options.chip, Some("stm32".to_string()));
    assert_eq!(options.probe.unwrap().product_id, 2);
}

#[test]
fn probe_options_follow_the_configuration() {
    let (options, warning) = probe_options(&cli(), &config(probe(None, Some("1")))).unwrap();
    assert_eq!(options.chip, Some("nrf52".to_string()));
    assert_eq!(options.chip_description_path, None);
    assert_eq!(options.protocol, Some(WireProtocol::Swd));
    assert!(options.probe.is_none());
    assert_eq!(options.speed, Some(4000));
    assert!(options.connect_under_reset);
    assert!(!options.dry_run);
    assert!(!options.allow_erase_all);
    assert_eq!(warning, Some(SelectorWarning::ProductIgnored));
    assert_eq!(probe_options(&cli(), &config(probe(Some("1"), Some("-")))).unwrap_err(), HexError::InvalidDigit);
}

#[test]
fn the_chip_may_be_erased_where_something_writes_to_it() {
    for (flashing, gdb) in [(false, false), (false, true), (true, false), (true, true)] {
        let mut config = config(probe(None, None));
        config.flashing.enabled = flashing;
        config.gdb.enabled = gdb;
        let (options, _) = probe_options(&cli(), &config).unwrap();
        assert_eq!(options.allow_erase_all, flashing || gdb);
    }
}

#[test]
fn several_probes_are_listed() {
    let expected = "The following devices were found:\n [0]: J-Link\n[1]: DAPLink\n Use '--probe VID:PID'\n You can also set the [default.probe] config attribute (in your Embed.toml) to select which probe to use. For usage examples see https://github.com/probe-rs/cargo-embed/blob/master/src/config/default.toml .";
    let probes = vec!["J-Link".to_string(), "DAPLink".to_string()];
    assert_eq!(multiple_probes_message(&probes), expected);
    match after_attach(&AttachOutcome::MultipleProbesFound(probes)) {
        AttachDecision::Refuse(text) => assert_eq!(text, expected),
        other => panic!("{other:?}"),
    }
    let many: Vec<String> = (0..12).map(|i| format!("p{i}")).collect();
    assert!(multiple_probes_message(&many).contains("[9]: p9\n[10]: p10\n[11]: p11\n Use"));
}

#[test]
fn a_target_that_does_not_answer_is_explained() {
    match after_attach(&AttachOutcome::AttachingFailed { connect_under_reset: false }) {
        AttachDecision::Explain { hints, context } => {
            assert_eq!(context, "failed attaching to target");
            assert_eq!(
                hints,
                vec![
                    "The target seems to be unable to be attached to.",
                    "A hard reset during attaching might help. This will reset the entire chip.",
                    "Set `general.connect_under_reset` in your cargo-embed configuration file to enable this feature.",
                ]
            );
        }
        other => panic!("{other:?}"),
    }
    match after_attach(&AttachOutcome::AttachingFailed { connect_under_reset: true }) {
        AttachDecision::Explain { hints, .. } => {
            assert_eq!(hints, vec!["The target seems to be unable to be attached to."])
        }
        other => panic!("{other:?}"),
    }
    assert!(matches!(after_attach(&AttachOutcome::Attached), AttachDecision::Proceed));
    assert!(matches!(after_attach(&AttachOutcome::OtherError), AttachDecision::PassOn));
}

#[test]
fn only_an_attached_probe_completes_the_step() {
    for (outcome, completed) in [
        (AttachOutcome::Attached, true),
        (AttachOutcome::MultipleProbesFound(vec![]), false),
        (AttachOutcome::AttachingFailed { connect_under_reset: true }, false),
        (AttachOutcome::OtherError, false),
    ] {
        let event = attach_event(&after_attach(&outcome));
        assert_eq!(matches!(event, Event::Completed), completed);
        assert_eq!(matches!(event, Event::Failed), !completed);
    }
    assert!(options_event(&probe_options(&cli(), &config(probe(None, None)))).is_none());
    let wrong = probe_options(&cli(), &config(probe(Some("x"), Some("1"))));
    assert!(matches!(options_event(&wrong), Some(Event::Failed)));
}
