use cargo_embed::ui::{ui_accepts, ui_next, ui_start, UiAction, UiEvent};

#[test]
fn rounds_follow_each_other() {
    let mut action = ui_start();
    for _ in 0..3 {
        for expected in [
            UiAction::Render,
            UiAction::AcquireCore,
            UiAction::HandleEvent,
            UiAction::PollRtt,
            UiAction::Pause(10),
        ] {
            assert_eq!(action, expected);
            action = ui_next(action, UiEvent::Done);
        }
    }
}

const ACTIONS: [UiAction; 7] = [
    UiAction::Render,
    UiAction::AcquireCore,
    UiAction::HandleEvent,
    UiAction::PollRtt,
    UiAction::Pause(10),
    UiAction::ShutDown,
    UiAction::Fail,
];

#[test]
fn quitting_ends_the_loop() {
    assert_eq!(ui_next(UiAction::HandleEvent, UiEvent::Quit), UiAction::ShutDown);
    for action in ACTIONS {
        assert_eq!(ui_accepts(action, UiEvent::Quit), action == UiAction::HandleEvent);
    }
}

#[test]
fn a_failure_ends_the_loop() {
    assert_eq!(ui_next(UiAction::AcquireCore, UiEvent::Failed), UiAction::Fail);
    assert_eq!(ui_next(UiAction::PollRtt, UiEvent::Failed), UiAction::Fail);
    for action in ACTIONS {
        assert_eq!(
            ui_accepts(action, UiEvent::Failed),
            action == UiAction::AcquireCore || action == UiAction::PollRtt
        );
    }
}

#[test]
fn an_ended_loop_takes_no_event() {
    for event in [UiEvent::Done, UiEvent::Quit, UiEvent::Failed] {
        assert!(!ui_accepts(UiAction::ShutDown, event));
        assert!(!ui_accepts(UiAction::Fail, event));
    }
    for action in &ACTIONS[..5] {
        assert!(ui_accepts(*action, UiEvent::Done));
    }
}
