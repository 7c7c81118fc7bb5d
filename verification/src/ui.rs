//! The loop that shows the RTT channels.

use vstd::prelude::*;

verus! {

/// The pause between two rounds of the loop, in milliseconds.
pub const ROUND_PAUSE_MILLIS: u64 = 10;

/// What the loop does.
#[derive(Clone, Copy, Debug, PartialEq, Eq, Structural)]
pub enum UiAction {
    /// Draw the channels.
    Render,
    /// Lock the session and reach the core.
    AcquireCore,
    /// Handle what the user has typed.
    HandleEvent,
    /// Read the channels, then release the session.
    PollRtt,
    /// Pause for so many milliseconds.
    Pause(u64),
    /// Tell the user that the loop ends, and end without an error.
    ShutDown,
    /// End with the error that came.
    Fail,
}

/// What came of it.
#[derive(Clone, Copy, Debug, PartialEq, Eq, Structural)]
pub enum UiEvent {
    /// It was done.
    Done,
    /// The user has asked to quit.
    Quit,
    /// It failed.
    Failed,
}

/// The first action of the loop.
pub fn ui_start() -> (r: UiAction)
    ensures
        r == UiAction::Render,
{
    UiAction::Render
}

/// Whether the loop ends with an action.
pub open spec fn ends(action: UiAction) -> bool {
    action is ShutDown || action is Fail
}

/// What the loop does after an action: it draws, reaches the core, handles what was
/// typed, reads the channels and pauses, and so on, until the user quits or something
/// fails.
pub open spec fn ui_next_spec(action: UiAction, event: UiEvent) -> UiAction {
    if ends(action) {
        action
    } else {
        match event {
            UiEvent::Failed => UiAction::Fail,
            UiEvent::Quit => UiAction::ShutDown,
            UiEvent::Done => match action {
                UiAction::Render => UiAction::AcquireCore,
                UiAction::AcquireCore => UiAction::HandleEvent,
                UiAction::HandleEvent => UiAction::PollRtt,
                UiAction::PollRtt => UiAction::Pause(ROUND_PAUSE_MILLIS),
                UiAction::Pause(_) => UiAction::Render,
                UiAction::ShutDown => UiAction::ShutDown,
                UiAction::Fail => UiAction::Fail,
            },
        }
    }
}

/// Whether an event answers an action: only the handling of what was typed finds that the
/// user quits, and only reaching the core and reading the channels can fail.
pub open spec fn ui_expects(action: UiAction, event: UiEvent) -> bool {
    &&& !ends(action)
    &&& event is Quit ==> action is HandleEvent
    &&& event is Failed ==> action is AcquireCore || action is PollRtt
}

/// Tests whether an event answers an action.
pub fn ui_accepts(action: UiAction, event: UiEvent) -> (r: bool)
    ensures
        r == ui_expects(action, event),
        r <==> {
            &&& !(action is ShutDown || action is Fail)
            &&& {
                ||| event is Done
                ||| event is Quit && action is HandleEvent
                ||| event is Failed && (action is AcquireCore || action is PollRtt)
            }
        },
{
    match (action, event) {
        (UiAction::ShutDown, _) => false,
        (UiAction::Fail, _) => false,
        (_, UiEvent::Done) => true,
        (UiAction::HandleEvent, UiEvent::Quit) => true,
        (UiAction::AcquireCore, UiEvent::Failed) => true,
        (UiAction::PollRtt, UiEvent::Failed) => true,
        _ => false,
    }
}

/// Decides what the loop does after an action.
pub fn ui_next(action: UiAction, event: UiEvent) -> (r: UiAction)
    requires
        ui_expects(action, event),
    ensures
        r == ui_next_spec(action, event),
        r is Fail <==> event is Failed,
        r is ShutDown <==> event is Quit,
        event is Done ==> match action {
            UiAction::Render => r is AcquireCore,
            UiAction::AcquireCore => r is HandleEvent,
            UiAction::HandleEvent => r is PollRtt,
            UiAction::PollRtt => r == UiAction::Pause(10),
            _ => r is Render,
        },
{
    match event {
        UiEvent::Failed => UiAction::Fail,
        UiEvent::Quit => UiAction::ShutDown,
        UiEvent::Done => match action {
            UiAction::Render => UiAction::AcquireCore,
            UiAction::AcquireCore => UiAction::HandleEvent,
            UiAction::HandleEvent => UiAction::PollRtt,
            UiAction::PollRtt => UiAction::Pause(ROUND_PAUSE_MILLIS),
            UiAction::Pause(_) => UiAction::Render,
            UiAction::ShutDown => UiAction::ShutDown,
            UiAction::Fail => UiAction::Fail,
        },
    }
}

/// The action after a series of events.
pub open spec fn ui_after(events: Seq<UiEvent>) -> UiAction
    decreases events.len(),
{
    if events.len() == 0 {
        UiAction::Render
    } else {
        ui_next_spec(ui_after(events.drop_last()), events.last())
    }
}

/// The actions of one round, in their order.
pub open spec fn round_action(k: int) -> UiAction {
    if k == 0 {
        UiAction::Render
    } else if k == 1 {
        UiAction::AcquireCore
    } else if k == 2 {
        UiAction::HandleEvent
    } else if k == 3 {
        UiAction::PollRtt
    } else {
        UiAction::Pause(ROUND_PAUSE_MILLIS)
    }
}

/// As long as nothing fails and the user does not quit, the loop goes round: every round
/// draws, reaches the core anew, handles what was typed, reads the channels and pauses.
pub proof fn lemma_ui_rounds(events: Seq<UiEvent>)
    requires
        forall|k: int| 0 <= k < events.len() ==> #[trigger] events[k] == UiEvent::Done,
    ensures
        ui_after(events) == round_action(events.len() as int % 5),
        events.len() % 5 == 0 ==> ui_after(events) is Render,
        events.len() % 5 == 1 ==> ui_after(events) is AcquireCore,
        events.len() % 5 == 2 ==> ui_after(events) is HandleEvent,
        events.len() % 5 == 3 ==> ui_after(events) is PollRtt,
        events.len() % 5 == 4 ==> ui_after(events) == UiAction::Pause(10),
    decreases events.len(),
{
    if events.len() > 0 {
        lemma_ui_rounds(events.drop_last());
    }
}

/// The loop ends with the first event that is not a success: without an error where the
/// user quits, with the error where something failed. Nothing that comes later changes
/// that.
pub proof fn lemma_ui_ends(events: Seq<UiEvent>, n: int)
    requires
        0 <= n < events.len(),
        forall|k: int| 0 <= k < n ==> #[trigger] events[k] == UiEvent::Done,
        events[n] != UiEvent::Done,
    ensures
        ui_after(events) == if events[n] == UiEvent::Quit {
            UiAction::ShutDown
        } else {
            UiAction::Fail
        },
    decreases events.len(),
{
    let earlier = events.drop_last();
    if n < earlier.len() {
        lemma_ui_ends(earlier, n);
    } else {
        lemma_ui_rounds(earlier);
    }
}

/// Whether each event of a series answers the action before it.
pub open spec fn ui_answers(events: Seq<UiEvent>) -> bool
    decreases events.len(),
{
    if events.len() == 0 {
        true
    } else {
        ui_answers(events.drop_last()) && ui_expects(ui_after(events.drop_last()), events.last())
    }
}

/// The loop shuts down only in answer to the handling of what was typed, and it fails only
/// in answer to reaching the core or reading the channels. Either is its last event, and
/// every event before was a success.
pub proof fn lemma_ui_shuts_down_on_quit(events: Seq<UiEvent>)
    requires
        ui_answers(events),
    ensures
        ui_after(events) is ShutDown <==> {
            &&& events.len() > 0
            &&& events.last() == UiEvent::Quit
            &&& ui_after(events.drop_last()) == UiAction::HandleEvent
        },
        ui_after(events) is Fail <==> {
            &&& events.len() > 0
            &&& events.last() == UiEvent::Failed
            &&& {
                ||| ui_after(events.drop_last()) == UiAction::AcquireCore
                ||| ui_after(events.drop_last()) == UiAction::PollRtt
            }
        },
        forall|k: int| 0 <= k < events.len() - 1 ==> #[trigger] events[k] == UiEvent::Done,
    decreases events.len(),
{
    if events.len() > 0 {
        let earlier = events.drop_last();
        lemma_ui_shuts_down_on_quit(earlier);
        assert forall|k: int| 0 <= k < events.len() - 1 implies #[trigger] events[k]
            == UiEvent::Done by {
            assert(earlier[k] == events[k]);
            if k == earlier.len() - 1 {
                assert(!ends(ui_after(earlier)));
                assert(earlier.last() == events[k]);
            }
        }
    }
}

/// What an action is answered with: as long as the loop goes on with its success, the
/// handling of what was typed also with the wish to quit, and reaching the core and reading
/// the channels also with their failure.
pub proof fn lemma_ui_answers(action: UiAction, event: UiEvent)
    ensures
        ui_expects(action, event) <==> {
            &&& !(action is ShutDown || action is Fail)
            &&& {
                ||| event is Done
                ||| event is Quit && action is HandleEvent
                ||| event is Failed && (action is AcquireCore || action is PollRtt)
            }
        },
{
}

/// After every pause, however long, a new round starts, and an action that ends the loop
/// stays the last.
pub proof fn lemma_ui_goes_round(millis: u64, event: UiEvent)
    ensures
        ui_next_spec(UiAction::Pause(millis), UiEvent::Done) is Render,
        ui_next_spec(UiAction::ShutDown, event) is ShutDown,
        ui_next_spec(UiAction::Fail, event) is Fail,
{
}

} // verus!
