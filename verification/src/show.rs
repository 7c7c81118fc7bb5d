//! The course around the RTT channels: attach, prepare the terminal, name the log, open the
//! interface and run its loop.

use vstd::prelude::*;

use crate::attach::{attach_context, rtt_start, RttStart};
use crate::run::Event;
use crate::text::opt_text;
use crate::ui::UiAction;

verus! {

/// Where the course stands.
#[derive(Clone, Copy, Debug, PartialEq, Eq, Structural)]
pub enum Stage {
    /// Attach to RTT.
    Attach,
    /// Install the hook that cleans the terminal up after a panic.
    InstallHook {
        /// Whether the user is warned first that frames of `defmt` cannot be decoded.
        warn_defmt: bool,
    },
    /// Name the log.
    NameLog,
    /// Open the interface.
    OpenUi,
    /// Run the loop of the interface.
    RunUi,
    /// There is no RTT: the course has ended without an error.
    Skipped,
    /// The interface was closed: the course has ended without an error.
    Closed,
    /// The course has ended with the error that came.
    Failed {
        /// Whether it came from attaching, and is reported in that context.
        attaching: bool,
    },
}

/// What came of a stage.
#[derive(Clone, Copy, Debug, PartialEq, Eq, Structural)]
pub enum ShowEvent {
    /// RTT is attached to.
    Attached {
        /// Whether metadata of `defmt` was found.
        metadata: bool,
    },
    /// There is no RTT.
    NoRtt,
    /// The stage was gone through.
    Done,
    /// The stage failed.
    Failed,
}

/// Whether an event answers a stage: attaching finds RTT, finds none or fails; the hook and
/// the name of the log cannot fail; the interface can.
pub open spec fn show_expects(stage: Stage, event: ShowEvent) -> bool {
    match stage {
        Stage::Attach => !(event is Done),
        Stage::InstallHook { .. } => event is Done,
        Stage::NameLog => event is Done,
        Stage::OpenUi => event is Done || event is Failed,
        Stage::RunUi => event is Done || event is Failed,
        _ => false,
    }
}

/// The stage after an event. `require_defmt` says whether a channel carries `defmt` frames.
pub open spec fn show_next_spec(stage: Stage, require_defmt: bool, event: ShowEvent) -> Stage {
    match event {
        ShowEvent::Attached { metadata } => Stage::InstallHook {
            warn_defmt: require_defmt && !metadata,
        },
        ShowEvent::NoRtt => Stage::Skipped,
        ShowEvent::Failed => Stage::Failed { attaching: stage is Attach },
        ShowEvent::Done => match stage {
            Stage::InstallHook { .. } => Stage::NameLog,
            Stage::NameLog => Stage::OpenUi,
            Stage::OpenUi => Stage::RunUi,
            _ => Stage::Closed,
        },
    }
}

/// The first stage.
pub fn show_start() -> (r: Stage)
    ensures
        r == Stage::Attach,
{
    Stage::Attach
}

/// Tests whether an event answers a stage.
pub fn show_accepts(stage: Stage, event: ShowEvent) -> (r: bool)
    ensures
        r == show_expects(stage, event),
        r <==> {
            ||| stage is Attach && !(event is Done)
            ||| (stage is InstallHook || stage is NameLog) && event is Done
            ||| (stage is OpenUi || stage is RunUi) && (event is Done || event is Failed)
        },
{
    match (stage, event) {
        (Stage::Attach, ShowEvent::Done) => false,
        (Stage::Attach, _) => true,
        (Stage::InstallHook { .. }, ShowEvent::Done) => true,
        (Stage::NameLog, ShowEvent::Done) => true,
        (Stage::OpenUi, ShowEvent::Done) => true,
        (Stage::OpenUi, ShowEvent::Failed) => true,
        (Stage::RunUi, ShowEvent::Done) => true,
        (Stage::RunUi, ShowEvent::Failed) => true,
        _ => false,
    }
}

/// The stage once attaching has ended without an error.
fn attached(metadata: Option<bool>, require_defmt: bool) -> (r: Stage)
    ensures
        r == match metadata {
            Some(found) => Stage::InstallHook { warn_defmt: require_defmt && !found },
            None => Stage::Skipped,
        },
{
    match rtt_start(metadata, require_defmt) {
        RttStart::Show { warn_defmt } => Stage::InstallHook { warn_defmt },
        RttStart::Skip => Stage::Skipped,
    }
}

/// What came of attaching. The result says, of a target that is attached to, whether
/// metadata of `defmt` was found.
pub fn attached_event<E>(result: &Result<Option<bool>, E>) -> (r: ShowEvent)
    ensures
        r == match *result {
            Ok(Some(metadata)) => ShowEvent::Attached { metadata },
            Ok(None) => ShowEvent::NoRtt,
            Err(_) => ShowEvent::Failed,
        },
{
    match result {
        Ok(Some(metadata)) => ShowEvent::Attached { metadata: *metadata },
        Ok(None) => ShowEvent::NoRtt,
        Err(_) => ShowEvent::Failed,
    }
}

/// What came of the loop of the interface; `None` while it goes on.
pub fn loop_event(action: UiAction) -> (r: Option<ShowEvent>)
    ensures
        r == match action {
            UiAction::ShutDown => Some(ShowEvent::Done),
            UiAction::Fail => Some(ShowEvent::Failed),
            _ => None,
        },
{
    match action {
        UiAction::ShutDown => Some(ShowEvent::Done),
        UiAction::Fail => Some(ShowEvent::Failed),
        _ => None,
    }
}

/// What becomes of the step of a run that shows the channels; `None` before the course has
/// ended.
pub fn show_result(stage: Stage) -> (r: Option<Event>)
    ensures
        r is Some <==> stage is Skipped || stage is Closed || stage is Failed,
        r matches Some(event) ==> if stage is Failed {
            event is Failed
        } else {
            event is Completed
        },
{
    match stage {
        Stage::Skipped => Some(Event::Completed),
        Stage::Closed => Some(Event::Completed),
        Stage::Failed { .. } => Some(Event::Failed),
        _ => None,
    }
}

/// Decides the stage after an event.
pub fn show_next(stage: Stage, require_defmt: bool, event: ShowEvent) -> (r: Stage)
    requires
        show_expects(stage, event),
    ensures
        r == show_next_spec(stage, require_defmt, event),
{
    match event {
        ShowEvent::Attached { metadata } => attached(Some(metadata), require_defmt),
        ShowEvent::NoRtt => attached(None, require_defmt),
        ShowEvent::Failed => match stage {
            Stage::Attach => Stage::Failed { attaching: true },
            _ => Stage::Failed { attaching: false },
        },
        ShowEvent::Done => match stage {
            Stage::InstallHook { .. } => Stage::NameLog,
            Stage::NameLog => Stage::OpenUi,
            Stage::OpenUi => Stage::RunUi,
            _ => Stage::Closed,
        },
    }
}

/// The context in which the error is reported that the course has ended with; `None` where
/// it is reported as it came, or where there is none.
pub fn show_context(stage: Stage) -> (r: Option<String>)
    ensures
        opt_text(r) == if stage == (Stage::Failed { attaching: true }) {
            Some("Failed to attach to RTT"@)
        } else {
            None
        },
        r is Some <==> stage == (Stage::Failed { attaching: true }),
        r matches Some(text) ==> text@ == "Failed to attach to RTT"@,
{
    match stage {
        Stage::Failed { attaching: true } => Some(attach_context().to_owned()),
        _ => None,
    }
}

/// The stage after a series of events.
pub open spec fn show_after(require_defmt: bool, events: Seq<ShowEvent>) -> Stage
    decreases events.len(),
{
    if events.len() == 0 {
        Stage::Attach
    } else {
        show_next_spec(
            show_after(require_defmt, events.drop_last()),
            require_defmt,
            events.last(),
        )
    }
}

/// Whether each event of a series answers the stage before it.
pub open spec fn show_answers(require_defmt: bool, events: Seq<ShowEvent>) -> bool
    decreases events.len(),
{
    if events.len() == 0 {
        true
    } else {
        show_answers(require_defmt, events.drop_last()) && show_expects(
            show_after(require_defmt, events.drop_last()),
            events.last(),
        )
    }
}

/// The whole course: it attaches first. An error there ends it, in the context of attaching,
/// and where there is no RTT it ends without an error. Else the hook is installed, after a
/// warning where frames cannot be decoded, then the log is named, then the interface is
/// opened and its loop is run; an error of the interface ends the course as it came.
pub proof fn lemma_show_course(require_defmt: bool, events: Seq<ShowEvent>)
    requires
        show_answers(require_defmt, events),
    ensures
        events.len() <= 5,
        show_after(require_defmt, events) == if events.len() == 0 {
            Stage::Attach
        } else {
            match events[0] {
                ShowEvent::NoRtt => Stage::Skipped,
                ShowEvent::Attached { metadata } => if events.last() is Failed {
                    Stage::Failed { attaching: false }
                } else if events.len() == 1 {
                    Stage::InstallHook { warn_defmt: require_defmt && !metadata }
                } else if events.len() == 2 {
                    Stage::NameLog
                } else if events.len() == 3 {
                    Stage::OpenUi
                } else if events.len() == 4 {
                    Stage::RunUi
                } else {
                    Stage::Closed
                },
                _ => Stage::Failed { attaching: true },
            }
        },
        events.len() > 0 ==> !(events[0] is Done),
        events.len() > 1 ==> events[0] is Attached,
        forall|k: int| 1 <= k < events.len() - 1 ==> #[trigger] events[k] is Done,
        events.len() > 1 ==> events.last() is Done || (events.last() is Failed && events.len() > 3),
    decreases events.len(),
{
    if events.len() > 0 {
        let earlier = events.drop_last();
        lemma_show_course(require_defmt, earlier);
        if earlier.len() > 0 {
            assert(earlier[0] == events[0]);
            assert(earlier.last() == events[events.len() - 2]);
        }
        assert forall|k: int| 1 <= k < events.len() - 1 implies #[trigger] events[k] is Done by {
            assert(earlier[k] == events[k]);
        }
    }
}

/// The interface is opened and run only after RTT was attached to and the hook was
/// installed, and the hook is installed only after RTT was attached to.
pub proof fn lemma_hook_before_interface(require_defmt: bool, events: Seq<ShowEvent>)
    requires
        show_answers(require_defmt, events),
    ensures
        ({
            let stage = show_after(require_defmt, events);
            &&& stage is InstallHook || stage is NameLog || stage is OpenUi || stage is RunUi
                || stage is Closed ==> events.len() > 0 && events[0] is Attached
            &&& stage is OpenUi || stage is RunUi || stage is Closed ==> {
                &&& events.len() > 2
                &&& show_after(require_defmt, events.take(1)) is InstallHook
                &&& events[1] is Done
                &&& show_after(require_defmt, events.take(2)) is NameLog
                &&& events[2] is Done
            }
        }),
{
    lemma_show_course(require_defmt, events);
    if events.len() > 2 {
        assert(events.take(1).drop_last() =~= Seq::<ShowEvent>::empty());
        assert(events.take(2).drop_last() =~= events.take(1));
        assert(show_after(require_defmt, Seq::<ShowEvent>::empty()) == Stage::Attach);
        assert(show_after(require_defmt, events.take(1)) is InstallHook);
        assert(events[1] is Done);
        if events.len() == 3 {
            assert(events.last() == events[2]);
        } else {
            assert(events[2] is Done);
        }
    }
}

/// Without RTT, and where attaching fails, nothing more is done.
pub proof fn lemma_nothing_without_rtt(require_defmt: bool, events: Seq<ShowEvent>)
    requires
        show_answers(require_defmt, events),
        events.len() > 0,
        !(events[0] is Attached),
    ensures
        events.len() == 1,
        show_after(require_defmt, events) is Skipped || show_after(require_defmt, events) == (
        Stage::Failed { attaching: true }),
{
    lemma_show_course(require_defmt, events);
}

/// What a stage is answered with: attaching with anything but its passing, the hook and the
/// name of the log with their passing alone, the interface also with its failure, and a
/// course that has ended with nothing.
pub proof fn lemma_show_answers(stage: Stage, event: ShowEvent)
    ensures
        show_expects(stage, event) <==> {
            ||| stage is Attach && (event is Attached || event is NoRtt || event is Failed)
            ||| (stage is InstallHook || stage is NameLog) && event is Done
            ||| (stage is OpenUi || stage is RunUi) && (event is Done || event is Failed)
        },
{
}

/// The user is warned of frames exactly where a channel carries them and no metadata was
/// found, and an error has the context of attaching exactly where it came from attaching.
pub proof fn lemma_show_warns(stage: Stage, require_defmt: bool, event: ShowEvent)
    requires
        show_expects(stage, event),
    ensures
        ({
            let next = show_next_spec(stage, require_defmt, event);
            &&& next matches Stage::InstallHook { warn_defmt } ==> {
                &&& event matches ShowEvent::Attached { metadata }
                &&& warn_defmt <==> require_defmt && !metadata
            }
            &&& next matches Stage::Failed { attaching } ==> (attaching <==> stage is Attach)
            &&& next is Failed <==> event is Failed
            &&& next is Skipped <==> event is NoRtt
            &&& next is Closed <==> stage is RunUi && event is Done
        }),
{
}

} // verus!
