use cargo_embed::run::Event;
use cargo_embed::show::{
    attached_event, loop_event, show_accepts, show_context, show_next, show_result, show_start, ShowEvent,
    Stage,
};
use cargo_embed::ui::UiAction;

const EVENTS: [ShowEvent; 5] = [
    ShowEvent::Attached { metadata: true },
    ShowEvent::Attached { metadata: false },
    ShowEvent::NoRtt,
    ShowEvent::Done,
    ShowEvent::Failed,
];

fn course(require_defmt: bool, events: &[ShowEvent]) -> Vec<Stage> {
    let mut stages = vec![show_start()];
    for &event in events {
        let stage = *stages.last().unwrap();
        assert!(show_accepts(stage, event));
        stages.push(show_next(stage, require_defmt, event));
    }
    stages
}

#[test]
fn the_hook_comes_before_the_interface() {
    let stages = course(
        true,
        &[
            ShowEvent::Attached { metadata: false },
            ShowEvent::Done,
            ShowEvent::Done,
            ShowEvent::Done,
            ShowEvent::Done,
        ],
    );
    assert_eq!(
        stages,
        vec![
            Stage::Attach,
            Stage::InstallHook { warn_defmt: true },
            Stage::NameLog,
            Stage::OpenUi,
            Stage::RunUi,
            Stage::Closed,
        ]
    );
}

#[test]
fn nothing_is_done_without_rtt() {
    assert_eq!(course(true, &[ShowEvent::NoRtt]), vec![Stage::Attach, Stage::Skipped]);
    assert_eq!(
        course(false, &[ShowEvent::Failed]),
        vec![Stage::Attach, Stage::Failed { attaching: true }]
    );
    for stage in [Stage::Skipped, Stage::Closed, Stage::Failed { attaching: true }] {
        for event in EVENTS {
            assert!(!show_accepts(stage, event));
        }
    }
}

#[test]
fn stages_that_can_fail() {
    for (stage, can_fail) in [
        (Stage::Attach, true),
        (Stage::InstallHook { warn_defmt: false }, false),
        (Stage::NameLog, false),
        (Stage::OpenUi, true),
        (Stage::RunUi, true),
    ] {
        assert_eq!(show_accepts(stage, ShowEvent::Failed), can_fail);
        assert_eq!(show_accepts(stage, ShowEvent::NoRtt), stage == Stage::Attach);
        assert_eq!(show_accepts(stage, ShowEvent::Done), stage != Stage::Attach);
    }
}

#[test]
fn only_attaching_has_a_context() {
    assert_eq!(
        show_context(Stage::Failed { attaching: true }),
        Some("Failed to attach to RTT".to_string())
    );
    for stage in [Stage::OpenUi, Stage::RunUi] {
        let ended = show_next(stage, false, ShowEvent::Failed);
        assert_eq!(ended, Stage::Failed { attaching: false });
        assert_eq!(show_context(ended), None);
    }
    assert_eq!(show_context(Stage::Skipped), None);
}

#[test]
fn frames_that_cannot_be_decoded_are_pointed_out() {
    for (require_defmt, metadata) in [(false, false), (false, true), (true, false), (true, true)] {
        assert_eq!(
            show_next(Stage::Attach, require_defmt, ShowEvent::Attached { metadata }),
            Stage::InstallHook { warn_defmt: require_defmt && !metadata }
        );
    }
}

#[test]
fn results_become_events() {
    assert_eq!(attached_event::<()>(&Ok(Some(true))), ShowEvent::Attached { metadata: true });
    assert_eq!(attached_event::<()>(&Ok(None)), ShowEvent::NoRtt);
    assert_eq!(attached_event(&Err("busy")), ShowEvent::Failed);
    assert_eq!(loop_event(UiAction::ShutDown), Some(ShowEvent::Done));
    assert_eq!(loop_event(UiAction::Fail), Some(ShowEvent::Failed));
    assert_eq!(loop_event(UiAction::Render), None);
    assert!(matches!(show_result(Stage::Skipped), Some(Event::Completed)));
    assert!(matches!(show_result(Stage::Closed), Some(Event::Completed)));
    assert!(matches!(show_result(Stage::Failed { attaching: false }), Some(Event::Failed)));
    assert!(show_result(Stage::RunUi).is_none());
}
