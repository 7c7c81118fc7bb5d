//! A run as a machine: it names the step to take, is told what came of it, and goes on
//! or ends.

use vstd::prelude::*;

use crate::config::{CliOptions, Config, DebugProbeSelector};
use crate::plan::{
    can_fail, can_fail_of, description_steps, lemma_description_steps_at, opening, opening_of,
    session, session_of, step_views, target_steps, ResetMode, Step, StepView,
};
use crate::hex::HexError;
use crate::probe::{attach_options, AttachDecision, ProbeOptions, SelectorWarning};

verus! {

/// What came of a step.
#[derive(Debug)]
pub enum Event {
    /// The step was taken.
    Completed,
    /// The configuration profile was selected.
    Configured(Config),
    /// The step failed; an answer only to a step that can fail.
    Failed,
}

/// What becomes of the step that attaches the probe once its options are decided: where
/// they could not be, it has failed before a probe was opened; else nothing yet.
pub fn options_event(options: &Result<(ProbeOptions, Option<SelectorWarning>), HexError>) -> (r:
    Option<Event>)
    ensures
        r is Some <==> options is Err,
        r matches Some(event) ==> event is Failed,
{
    match options {
        Ok(_) => None,
        Err(_) => Some(Event::Failed),
    }
}

/// What becomes of the step that attaches the probe: it is taken where the decision is to
/// go on, and has failed on every other decision.
pub fn attach_event(decision: &AttachDecision) -> (r: Event)
    ensures
        r is Completed <==> decision is Proceed,
        r is Failed <==> !(decision is Proceed),
{
    match decision {
        AttachDecision::Proceed => Event::Completed,
        _ => Event::Failed,
    }
}

/// How a run stands.
#[derive(Clone, Copy, Debug, PartialEq, Eq, Structural)]
pub enum RunStatus {
    /// There is a step to take.
    Running,
    /// All steps were taken.
    Succeeded,
    /// A step failed.
    Failed,
}

/// The state of a run.
pub struct EmbedView {
    /// The command line options.
    pub cli: CliOptions,
    /// The configuration, once it is selected.
    pub config: Option<Config>,
    /// How many steps were taken.
    pub position: nat,
    /// Whether a step failed.
    pub failed: bool,
}

impl EmbedView {
    /// The steps as far as they are known.
    pub open spec fn plan(self) -> Seq<StepView> {
        opening_of(self.cli) + (match self.config {
            Some(config) => session_of(self.cli, config),
            None => Seq::empty(),
        })
    }

    /// The steps up to the configuration are taken before it is known, the others
    /// afterwards.
    pub open spec fn wf(self) -> bool {
        &&& self.position <= self.plan().len()
        &&& self.config is Some <==> self.position >= opening_of(self.cli).len()
    }

    /// The step to take.
    pub open spec fn current(self) -> Option<StepView> {
        if self.failed || self.position >= self.plan().len() {
            None
        } else {
            Some(self.plan()[self.position as int])
        }
    }

    /// Whether an event answers the step to take: the selection of a profile is answered
    /// with the configuration, any other step with its completion, and a step that can
    /// fail also with its failure.
    pub open spec fn expects(self, event: Event) -> bool {
        &&& self.current() is Some
        &&& event is Configured <==> self.current()->0 is SelectConfig && event !is Failed
        &&& event is Failed ==> can_fail_of(self.current()->0)
    }

    /// The state after an event.
    pub open spec fn next(self, event: Event) -> EmbedView {
        match event {
            Event::Completed => EmbedView { position: self.position + 1, ..self },
            Event::Configured(config) => EmbedView {
                position: self.position + 1,
                config: Some(config),
                ..self
            },
            Event::Failed => EmbedView { failed: true, ..self },
        }
    }

    /// How the run stands.
    pub open spec fn status(self) -> RunStatus {
        if self.failed {
            RunStatus::Failed
        } else if self.position < self.plan().len() {
            RunStatus::Running
        } else {
            RunStatus::Succeeded
        }
    }
}

/// The state at the start.
pub open spec fn start_of(cli: CliOptions) -> EmbedView {
    EmbedView { cli, config: None, position: 0, failed: false }
}

proof fn lemma_description_steps(files: Seq<String>, i: int)
    requires
        0 <= i < description_steps(files).len(),
    ensures
        description_steps(files)[i] is OpenChipDescription || description_steps(files)[i] is AddTarget,
    decreases files.len(),
{
    if i < description_steps(files.drop_last()).len() {
        lemma_description_steps(files.drop_last(), i);
    }
}

/// The profile is selected by the last step before the configuration is known, and by
/// no other.
pub proof fn lemma_profile_selected_once(state: EmbedView)
    requires
        state.wf(),
        state.current() is Some,
    ensures
        state.current()->0 is SelectConfig <==> state.position + 1 == opening_of(state.cli).len(),
{
    let n = opening_of(state.cli).len() as int;
    if let Some(config) = state.config {
        let files = config.general.chip_descriptions@;
        let i = state.position - n;
        assert(state.plan()[state.position as int] == session_of(state.cli, config)[i]);
        if 1 <= i < 1 + description_steps(files).len() {
            lemma_description_steps(files, i - 1);
            assert(session_of(state.cli, config)[i] == description_steps(files)[i - 1]);
        } else if i >= 1 + description_steps(files).len() + 3 {
            let k = i - 4 - description_steps(files).len();
            assert(session_of(state.cli, config)[i] == target_steps(state.cli, config)[k]);
        }
    } else {
        assert(state.plan() =~= opening_of(state.cli));
    }
}

/// A run.
pub struct Embed {
    cli: CliOptions,
    config: Option<Config>,
    steps: Vec<Step>,
    position: usize,
    failed: bool,
}

impl View for Embed {
    type V = EmbedView;

    closed spec fn view(&self) -> EmbedView {
        EmbedView {
            cli: self.cli,
            config: self.config,
            position: self.position as nat,
            failed: self.failed,
        }
    }
}

impl Embed {
    /// The steps that are stored are those of the plan.
    pub closed spec fn inv(&self) -> bool {
        &&& self@.wf()
        &&& step_views(self.steps@) == self@.plan()
    }

    /// Starts a run.
    pub fn start(cli: CliOptions) -> (r: Embed)
        ensures
            r.inv(),
            r@ == start_of(cli),
    {
        let steps = opening(&cli);
        let r = Embed { cli, config: None, steps, position: 0, failed: false };
        assert(r@.plan() =~= opening_of(cli));
        r
    }

    /// The step to take; `None` once the run has ended.
    pub fn current(&self) -> (r: Option<&Step>)
        requires
            self.inv(),
        ensures
            match (r, self@.current()) {
                (Some(step), Some(expected)) => step@ == expected,
                (None, None) => true,
                _ => false,
            },
    {
        if self.failed || self.position >= self.steps.len() {
            None
        } else {
            assert(step_views(self.steps@)[self.position as int]
                == self.steps@[self.position as int]@);
            Some(&self.steps[self.position])
        }
    }

    /// Tests whether an event answers the step to take.
    pub fn accepts(&self, event: &Event) -> (r: bool)
        requires
            self.inv(),
        ensures
            r == self@.expects(*event),
    {
        match self.current() {
            None => false,
            Some(step) => {
                let selects = match step {
                    Step::SelectConfig(_) => true,
                    _ => false,
                };
                match event {
                    Event::Completed => !selects,
                    Event::Configured(_) => selects,
                    Event::Failed => can_fail(step),
                }
            },
        }
    }

    /// Takes note of what came of the step.
    pub fn advance(&mut self, event: Event)
        requires
            old(self).inv(),
            old(self)@.expects(event),
        ensures
            final(self).inv(),
            final(self)@ == old(self)@.next(event),
    {
        let ghost before = self@;
        let known_steps: usize = self.steps.len();
        proof {
            assert(self.position < known_steps);
            lemma_profile_selected_once(self@);
        }
        match event {
            Event::Completed => {
                self.position = self.position + 1;
            },
            Event::Configured(config) => {
                self.position = self.position + 1;
                let mut further = session(&self.cli, &config);
                let ghost known = self.steps@;
                let ghost added = further@;
                self.steps.append(&mut further);
                self.config = Some(config);
                proof {
                    assert(self.steps@ =~= known + added);
                    assert(before.plan() =~= opening_of(self.cli));
                    assert(step_views(self.steps@) =~= step_views(known) + step_views(added));
                }
            },
            Event::Failed => {
                self.failed = true;
            },
        }
    }

    /// How the run stands.
    pub fn status(&self) -> (r: RunStatus)
        requires
            self.inv(),
        ensures
            r == self@.status(),
    {
        if self.failed {
            RunStatus::Failed
        } else if self.position < self.steps.len() {
            RunStatus::Running
        } else {
            RunStatus::Succeeded
        }
    }

    /// The configuration, once it is selected.
    pub fn config(&self) -> (r: Option<&Config>)
        ensures
            match (r, self@.config) {
                (Some(config), Some(expected)) => *config == expected,
                (None, None) => true,
                _ => false,
            },
    {
        match &self.config {
            Some(config) => Some(config),
            None => None,
        }
    }
}

// ---------------------------------------------------------------------------
// Laws of whole runs
// ---------------------------------------------------------------------------

/// The state after a series of events.
pub open spec fn after(state: EmbedView, events: Seq<Event>) -> EmbedView
    decreases events.len(),
{
    if events.len() == 0 {
        state
    } else {
        after(state, events.drop_last()).next(events.last())
    }
}

/// Whether each event of a series answers the step that was to be taken.
pub open spec fn answers(state: EmbedView, events: Seq<Event>) -> bool
    decreases events.len(),
{
    if events.len() == 0 {
        true
    } else {
        answers(state, events.drop_last()) && after(state, events.drop_last()).expects(
            events.last(),
        )
    }
}

/// The step that an event of a series answers.
pub open spec fn answered(state: EmbedView, events: Seq<Event>, k: int) -> Option<StepView> {
    after(state, events.take(k)).current()
}

/// A run takes the steps of its plan in their order, each once: the event with the
/// number `k` answers the step with the number `k`. It goes on as long as no step
/// fails, and a failure is the last event of a run.
pub proof fn lemma_run_follows_plan(cli: CliOptions, events: Seq<Event>)
    requires
        answers(start_of(cli), events),
    ensures
        after(start_of(cli), events).wf(),
        after(start_of(cli), events).cli == cli,
        events.len() <= after(start_of(cli), events).plan().len(),
        forall|k: int|
            0 <= k < events.len() ==> #[trigger] answered(start_of(cli), events, k) == Some(
                after(start_of(cli), events).plan()[k],
            ),
        forall|k: int| 0 <= k < events.len() - 1 ==> !(#[trigger] events[k] is Failed),
        after(start_of(cli), events).failed <==> events.len() > 0 && events.last() is Failed,
        after(start_of(cli), events).position == if after(start_of(cli), events).failed {
            events.len() - 1
        } else {
            events.len() as int
        },
    decreases events.len(),
{
    let start = start_of(cli);
    let end = after(start, events);
    if events.len() == 0 {
        assert(end.plan() =~= opening_of(cli));
    } else {
        let earlier = events.drop_last();
        let before = after(start, earlier);
        lemma_run_follows_plan(cli, earlier);
        lemma_profile_selected_once(before);
        assert(before.plan() =~= end.plan().take(before.plan().len() as int));
        assert forall|k: int| 0 <= k < events.len() implies #[trigger] answered(start, events, k)
            == Some(end.plan()[k]) by {
            assert(events.take(k) =~= earlier.take(k));
            if k < earlier.len() {
                assert(answered(start, earlier, k) == Some(before.plan()[k]));
            } else {
                assert(earlier.take(k) =~= earlier);
            }
        }
        assert forall|k: int| 0 <= k < events.len() - 1 implies !(#[trigger] events[k]
            is Failed) by {
            if k < earlier.len() - 1 {
                assert(earlier[k] == events[k]);
            } else {
                assert(earlier.last() == events[k]);
            }
        }
    }
}

/// A run succeeds exactly when it has taken all steps of the plan for its options and
/// its configuration, and none of them failed.
pub proof fn lemma_success(cli: CliOptions, events: Seq<Event>)
    requires
        answers(start_of(cli), events),
    ensures
        after(start_of(cli), events).status() == RunStatus::Succeeded <==> {
            &&& after(start_of(cli), events).config matches Some(config)
            &&& events.len() == full_plan(cli, config).len()
            &&& !(events.last() is Failed)
        },
{
    lemma_run_follows_plan(cli, events);
    let end = after(start_of(cli), events);
    if end.config is None {
        assert(end.plan() =~= opening_of(cli));
    }
}

/// Once a run has ended, no step is named and no event is expected.
pub proof fn lemma_ended(state: EmbedView, event: Event)
    requires
        state.wf(),
        state.status() != RunStatus::Running,
    ensures
        state.current() is None,
        !state.expects(event),
{
}

/// All steps of a run.
pub open spec fn full_plan(cli: CliOptions, config: Config) -> Seq<StepView> {
    opening_of(cli) + session_of(cli, config)
}

/// The place of a step in the order of a run.
pub open spec fn rank(step: StepView) -> int {
    match step {
        StepView::ChangeDir(_) => 0,
        StepView::ReadCurrentDir => 1,
        StepView::SelectConfig(_) => 2,
        StepView::SetupLogging => 3,
        StepView::OpenChipDescription(_) => 4,
        StepView::AddTarget(_) => 4,
        StepView::BuildArtifact => 5,
        StepView::Announce => 6,
        StepView::Attach => 7,
        StepView::Flash { .. } => 8,
        StepView::FindCore => 9,
        StepView::Reset(_) => 10,
        StepView::StartGdb(_) => 11,
        StepView::RunRtt => 12,
        StepView::JoinGdb => 13,
        StepView::ReportDone(_) => 14,
    }
}

/// One for a step that is taken, zero for one that is not.
spec fn count(taken: bool) -> int {
    if taken {
        1
    } else {
        0
    }
}

proof fn lemma_target_rank(cli: CliOptions, config: Config, i: int)
    requires
        0 <= i < target_steps(cli, config).len(),
    ensures
        ({
            let flash = count(config.flashing.enabled);
            let reset = count(config.reset.enabled);
            let gdb = count(config.gdb.enabled);
            let rtt = count(config.rtt.enabled);
            &&& target_steps(cli, config).len() == flash + 1 + reset + gdb + rtt + gdb + 1
            &&& rank(target_steps(cli, config)[i]) == if i < flash {
                8int
            } else if i < flash + 1 {
                9
            } else if i < flash + 1 + reset {
                10
            } else if i < flash + 1 + reset + gdb {
                11
            } else if i < flash + 1 + reset + gdb + rtt {
                12
            } else if i < flash + 1 + reset + gdb + rtt + gdb {
                13
            } else {
                14
            }
        }),
{
}

/// In every plan the steps come in one fixed order, and each at most once; only the two
/// steps that load a description recur, once for each description.
pub proof fn lemma_order(cli: CliOptions, config: Config, i: int, j: int)
    requires
        0 <= i < j < full_plan(cli, config).len(),
    ensures
        ({
            ||| rank(full_plan(cli, config)[i]) < rank(full_plan(cli, config)[j])
            ||| rank(full_plan(cli, config)[i]) == 4 && rank(full_plan(cli, config)[j]) == 4
        }),
{
    lemma_rank_at(cli, config, i);
    lemma_rank_at(cli, config, j);
    let first = first_target_step(cli, config);
    if i >= first {
        lemma_target_rank(cli, config, i - first);
    }
    if j >= first {
        lemma_target_rank(cli, config, j - first);
    }
}

/// The number of steps up to the attached probe.
spec fn first_target_step(cli: CliOptions, config: Config) -> int {
    4 + opening_of(cli).len() as int + description_steps(config.general.chip_descriptions@).len()
}

proof fn lemma_rank_at(cli: CliOptions, config: Config, i: int)
    requires
        0 <= i < full_plan(cli, config).len(),
    ensures
        ({
            let plan = full_plan(cli, config);
            let n = opening_of(cli).len();
            let first = first_target_step(cli, config);
            &&& plan.len() == first + target_steps(cli, config).len()
            &&& i < n ==> plan[i] == opening_of(cli)[i]
            &&& i == n ==> plan[i] is SetupLogging
            &&& n < i < first - 3 ==> rank(plan[i]) == 4
            &&& i == first - 3 ==> plan[i] is BuildArtifact
            &&& i == first - 2 ==> plan[i] is Announce
            &&& i == first - 1 ==> plan[i] is Attach
            &&& i >= first ==> plan[i] == target_steps(cli, config)[i - first]
        }),
{
    let n = opening_of(cli).len() as int;
    let files = config.general.chip_descriptions@;
    let plan = full_plan(cli, config);
    if i >= n {
        assert(plan[i] == session_of(cli, config)[i - n]);
        if n < i < first_target_step(cli, config) - 3 {
            lemma_description_steps(files, i - n - 1);
            assert(plan[i] == description_steps(files)[i - n - 1]);
        }
    }
}

/// Whether a run takes a step of the given place.
pub open spec fn takes(cli: CliOptions, config: Config, place: int) -> bool {
    exists|i: int|
        0 <= i < full_plan(cli, config).len() && rank(#[trigger] full_plan(cli, config)[i]) == place
}

proof fn lemma_takes(cli: CliOptions, config: Config, place: int, i: int)
    requires
        0 <= i < target_steps(cli, config).len(),
        rank(target_steps(cli, config)[i]) == place,
    ensures
        takes(cli, config, place),
{
    let at = first_target_step(cli, config) + i;
    assert(full_plan(cli, config)[at] == target_steps(cli, config)[i]);
}

/// The image is written exactly when flashing is switched on, the target is reset exactly
/// when that is switched on, a GDB stub is started exactly when it is switched on and
/// waited for exactly when it was started, and RTT is run exactly when it is switched on.
/// The probe is always attached before.
pub proof fn lemma_switches(cli: CliOptions, config: Config, step: StepView)
    ensures
        takes(cli, config, rank(StepView::Attach)),
        step is Flash ==> (takes(cli, config, rank(step)) <==> config.flashing.enabled),
        step is Reset ==> (takes(cli, config, rank(step)) <==> config.reset.enabled),
        step is StartGdb ==> (takes(cli, config, rank(step)) <==> config.gdb.enabled),
        step is JoinGdb ==> (takes(cli, config, rank(step)) <==> config.gdb.enabled),
        step is RunRtt ==> (takes(cli, config, rank(step)) <==> config.rtt.enabled),
{
    let first = first_target_step(cli, config);
    let flash = count(config.flashing.enabled);
    let reset = count(config.reset.enabled);
    let gdb = count(config.gdb.enabled);
    let rtt = count(config.rtt.enabled);
    let last = target_steps(cli, config).len() - 1;
    lemma_target_rank(cli, config, last);
    lemma_rank_at(cli, config, first - 1);
    if takes(cli, config, rank(step)) && rank(step) >= 8 {
        let i = choose|i: int|
            0 <= i < full_plan(cli, config).len() && rank(#[trigger] full_plan(cli, config)[i])
                == rank(step);
        lemma_rank_at(cli, config, i);
        if i >= first {
            lemma_target_rank(cli, config, i - first);
        }
    }
    if step is Flash && config.flashing.enabled {
        lemma_target_rank(cli, config, 0);
        lemma_takes(cli, config, rank(step), 0);
    }
    if step is Reset && config.reset.enabled {
        lemma_target_rank(cli, config, flash + 1);
        lemma_takes(cli, config, rank(step), flash + 1);
    }
    if step is StartGdb && config.gdb.enabled {
        lemma_target_rank(cli, config, flash + 1 + reset);
        lemma_takes(cli, config, rank(step), flash + 1 + reset);
    }
    if step is RunRtt && config.rtt.enabled {
        lemma_target_rank(cli, config, flash + 1 + reset + gdb);
        lemma_takes(cli, config, rank(step), flash + 1 + reset + gdb);
    }
    if step is JoinGdb && config.gdb.enabled {
        lemma_target_rank(cli, config, flash + 1 + reset + gdb + rtt);
        lemma_takes(cli, config, rank(step), flash + 1 + reset + gdb + rtt);
    }
}

/// A reset halts the core exactly when one of the two options asks for it, within half a
/// second, and the user is told of the option that has moved exactly when that option asks
/// for it.
pub proof fn lemma_reset(cli: CliOptions, config: Config, i: int)
    requires
        0 <= i < full_plan(cli, config).len(),
    ensures
        full_plan(cli, config)[i] matches StepView::Reset(mode) ==> {
            &&& mode is Halt <==> config.flashing.halt_afterwards || config.reset.halt_afterwards
            &&& mode matches ResetMode::Halt { option_moved, .. } ==> option_moved
                == config.flashing.halt_afterwards
            &&& mode matches ResetMode::Halt { timeout_millis, .. } ==> timeout_millis == 500
        },
{
    lemma_rank_at(cli, config, i);
}

/// The probe may erase the whole chip exactly when a later step can write to its flash:
/// when the image is written or a GDB stub is started.
pub proof fn lemma_erase_needs_writer(
    cli: CliOptions,
    config: Config,
    selector: Option<DebugProbeSelector>,
    flash: StepView,
    gdb: StepView,
)
    requires
        flash is Flash,
        gdb is StartGdb,
    ensures
        attach_options(cli, config, selector).allow_erase_all <==> takes(cli, config, rank(flash))
            || takes(cli, config, rank(gdb)),
{
    lemma_switches(cli, config, flash);
    lemma_switches(cli, config, gdb);
}

/// A run that failed did so at a step that can fail.
pub proof fn lemma_failed_where_it_can(cli: CliOptions, events: Seq<Event>)
    requires
        answers(start_of(cli), events),
        after(start_of(cli), events).status() == RunStatus::Failed,
    ensures
        events.len() > 0,
        answered(start_of(cli), events, events.len() - 1) matches Some(step) && can_fail_of(step),
{
    lemma_run_follows_plan(cli, events);
    assert(events.take(events.len() - 1) =~= events.drop_last());
}

/// Whatever becomes of the GDB stub, the run goes on: its start and its end are answered
/// with their completion alone.
pub proof fn lemma_gdb_leaves_result_alone(state: EmbedView, event: Event)
    requires
        state.current() matches Some(step) && (step is StartGdb || step is JoinGdb),
        state.expects(event),
    ensures
        event is Completed,
        !state.next(event).failed,
{
}

/// Once the steps up to the reset are taken, the result of a run is that of RTT: the run
/// fails exactly when RTT is run and fails, and RTT is run only where it is switched on.
/// A run that succeeds has waited for the GDB stub, where one is switched on.
pub proof fn lemma_result_after_reset(cli: CliOptions, config: Config, events: Seq<Event>)
    requires
        answers(start_of(cli), events),
        after(start_of(cli), events).config == Some(config),
        after(start_of(cli), events).status() != RunStatus::Running,
        forall|k: int|
            0 <= k < events.len() && rank(full_plan(cli, config)[k]) <= 10 ==> !(#[trigger] events[k]
                is Failed),
    ensures
        after(start_of(cli), events).status() == RunStatus::Failed <==> exists|k: int|
            0 <= k < events.len() && #[trigger] answered(start_of(cli), events, k) == Some(
                StepView::RunRtt,
            ) && events[k] is Failed,
        after(start_of(cli), events).status() == RunStatus::Failed ==> config.rtt.enabled,
        after(start_of(cli), events).status() == RunStatus::Succeeded ==> {
            &&& config.rtt.enabled <==> exists|k: int|
                0 <= k < events.len() && #[trigger] answered(start_of(cli), events, k) == Some(
                    StepView::RunRtt,
                )
            &&& config.gdb.enabled <==> exists|k: int|
                0 <= k < events.len() && #[trigger] answered(start_of(cli), events, k) == Some(
                    StepView::JoinGdb,
                )
        },
{
    let start = start_of(cli);
    let end = after(start, events);
    let plan = full_plan(cli, config);
    lemma_run_follows_plan(cli, events);
    assert(end.plan() == plan);
    lemma_switches(cli, config, StepView::RunRtt);
    lemma_switches(cli, config, StepView::JoinGdb);
    if end.failed {
        let k = events.len() - 1;
        lemma_failed_where_it_can(cli, events);
        assert(answered(start, events, k) == Some(plan[k]));
        assert(events[k] is Failed);
        assert(plan[k] == StepView::RunRtt);
        assert(rank(plan[k]) == rank(StepView::RunRtt));
    } else {
        assert(events.len() == plan.len());
        assert forall|place: StepView|
            (place == StepView::RunRtt || place == StepView::JoinGdb) implies (takes(
            cli,
            config,
            #[trigger] rank(place),
        ) <==> exists|k: int|
            0 <= k < events.len() && #[trigger] answered(start, events, k) == Some(place)) by {
            if takes(cli, config, rank(place)) {
                let k = choose|k: int| 0 <= k < plan.len() && rank(#[trigger] plan[k]) == rank(place);
                assert(answered(start, events, k) == Some(plan[k]));
                assert(plan[k] == place);
            }
            if exists|k: int|
                0 <= k < events.len() && #[trigger] answered(start, events, k) == Some(place) {
                let k = choose|k: int|
                    0 <= k < events.len() && #[trigger] answered(start, events, k) == Some(place);
                assert(plan[k] == place);
                assert(rank(plan[k]) == rank(place));
            }
        }
        assert(takes(cli, config, rank(StepView::RunRtt)) == config.rtt.enabled);
        assert(takes(cli, config, rank(StepView::JoinGdb)) == config.gdb.enabled);
    }
}

// ---------------------------------------------------------------------------
// Laws of what the steps are given
// ---------------------------------------------------------------------------

/// The image is written as configured: the whole chip is erased first exactly where the
/// configuration asks for it, bytes that are not written are restored exactly where it asks
/// for it, progress bars are left out exactly where the command line asks for it, and
/// nothing else is set.
pub proof fn lemma_flash_as_configured(cli: CliOptions, config: Config, i: int)
    requires
        0 <= i < full_plan(cli, config).len(),
    ensures
        full_plan(cli, config)[i] matches StepView::Flash { options, do_chip_erase } ==> {
            &&& do_chip_erase == config.flashing.do_chip_erase
            &&& options.restore_unwritten == config.flashing.restore_unwritten_bytes
            &&& options.disable_progressbars == cli.disable_progressbars
            &&& !options.disable_double_buffering
            &&& !options.verify
            &&& options.flash_layout_output_path is None
        },
{
    lemma_rank_at(cli, config, i);
}

/// The GDB stub listens at the configured address, and at port 1337 of this machine where
/// none is configured.
pub proof fn lemma_gdb_address(cli: CliOptions, config: Config, i: int)
    requires
        0 <= i < full_plan(cli, config).len(),
    ensures
        full_plan(cli, config)[i] matches StepView::StartGdb(address) ==> {
            &&& config.gdb.gdb_connection_string matches Some(configured) ==> address
                == configured@
            &&& config.gdb.gdb_connection_string is None ==> address == "127.0.0.1:1337"@
        },
{
    lemma_rank_at(cli, config, i);
}

/// The profile that is selected and the one whose end is reported are the one of the command
/// line, or `default` where it names none. The directory that is changed to is the one of
/// the command line.
pub proof fn lemma_command_line_followed(cli: CliOptions, config: Config, i: int)
    requires
        0 <= i < full_plan(cli, config).len(),
    ensures
        full_plan(cli, config)[i] matches StepView::SelectConfig(name) ==> {
            &&& cli.config matches Some(profile) ==> name == profile@
            &&& cli.config is None ==> name == "default"@
        },
        full_plan(cli, config)[i] matches StepView::ReportDone(name) ==> {
            &&& cli.config matches Some(profile) ==> name == profile@
            &&& cli.config is None ==> name == "default"@
        },
        full_plan(cli, config)[i] matches StepView::ChangeDir(dir) ==> (cli.work_dir matches Some(
            asked,
        ) && dir == asked@),
{
    lemma_rank_at(cli, config, i);
}

/// The file of every description is opened and its target is added right afterwards, in the
/// order of the descriptions, behind the setup of logging.
pub proof fn lemma_descriptions_loaded(cli: CliOptions, config: Config, k: int)
    requires
        0 <= k < config.general.chip_descriptions@.len(),
    ensures
        ({
            let first = if cli.work_dir is Some {
                4int
            } else {
                3
            };
            let file = config.general.chip_descriptions@[k]@;
            &&& first + 2 * k + 1 < full_plan(cli, config).len()
            &&& full_plan(cli, config)[first + 2 * k] == StepView::OpenChipDescription(file)
            &&& full_plan(cli, config)[first + 2 * k + 1] == StepView::AddTarget(file)
        }),
{
    let files = config.general.chip_descriptions@;
    let n = opening_of(cli).len() as int;
    let loaded = description_steps(files);
    lemma_description_steps_at(files, k);
    assert(session_of(cli, config)[1 + 2 * k] == loaded[2 * k]);
    assert(session_of(cli, config)[2 + 2 * k] == loaded[2 * k + 1]);
    assert(full_plan(cli, config)[n + 1 + 2 * k] == session_of(cli, config)[1 + 2 * k]);
    assert(full_plan(cli, config)[n + 2 + 2 * k] == session_of(cli, config)[2 + 2 * k]);
}

proof fn lemma_descriptions_len(files: Seq<String>)
    ensures
        description_steps(files).len() == 2 * files.len(),
{
    if files.len() > 0 {
        lemma_description_steps_at(files, 0);
    }
}

/// Which steps a run takes, and at which place: the steps up to the attached probe and the
/// search for the core are always taken, the directory is changed only where the command
/// line asks for it, two steps load each description, every further step is taken exactly
/// where it is switched on, and the report is the last.
pub proof fn lemma_plan_shape(cli: CliOptions, config: Config, i: int)
    requires
        0 <= i < full_plan(cli, config).len(),
    ensures
        ({
            let step = full_plan(cli, config)[i];
            let dir = if cli.work_dir is Some { 1int } else { 0 };
            let flash = if config.flashing.enabled { 1int } else { 0 };
            let reset = if config.reset.enabled { 1int } else { 0 };
            let gdb = if config.gdb.enabled { 1int } else { 0 };
            let rtt = if config.rtt.enabled { 1int } else { 0 };
            let attach = dir + 5 + 2 * config.general.chip_descriptions@.len();
            let core = attach + 1 + flash;
            let last = core + reset + gdb + rtt + gdb + 1;
            &&& full_plan(cli, config).len() == last + 1
            &&& i < dir ==> step is ChangeDir
            &&& i == dir ==> step is ReadCurrentDir
            &&& i == dir + 1 ==> step is SelectConfig
            &&& i == dir + 2 ==> step is SetupLogging
            &&& dir + 2 < i < attach - 2 ==> step is OpenChipDescription || step is AddTarget
            &&& i == attach - 2 ==> step is BuildArtifact
            &&& i == attach - 1 ==> step is Announce
            &&& i == attach ==> step is Attach
            &&& attach < i < core ==> step is Flash
            &&& i == core ==> step is FindCore
            &&& core < i <= core + reset ==> step is Reset
            &&& core + reset < i <= core + reset + gdb ==> step is StartGdb
            &&& core + reset + gdb < i <= core + reset + gdb + rtt ==> step is RunRtt
            &&& core + reset + gdb + rtt < i < last ==> step is JoinGdb
            &&& i == last ==> step is ReportDone
        }),
{
    let first = first_target_step(cli, config);
    lemma_descriptions_len(config.general.chip_descriptions@);
    lemma_rank_at(cli, config, i);
    lemma_target_rank(cli, config, if i >= first {
        i - first
    } else {
        0
    });
}

/// A run keeps the options that it was started with, and goes by the configuration that it
/// was given and by no other: the one that answered the selection of the profile.
pub proof fn lemma_configuration_kept(cli: CliOptions, events: Seq<Event>, k: int)
    requires
        answers(start_of(cli), events),
    ensures
        after(start_of(cli), events).cli == cli,
        0 <= k < events.len() ==> (events[k] matches Event::Configured(config) ==> {
            &&& after(start_of(cli), events).config == Some(config)
            &&& after(start_of(cli), events).plan() == full_plan(cli, config)
        }),
        after(start_of(cli), events).config matches Some(config) ==> exists|j: int|
            0 <= j < events.len() && #[trigger] events[j] == Event::Configured(config),
    decreases events.len(),
{
    if events.len() > 0 {
        let earlier = events.drop_last();
        let before = after(start_of(cli), earlier);
        lemma_configuration_kept(cli, earlier, k);
        lemma_run_follows_plan(cli, earlier);
        lemma_profile_selected_once(before);
        if let Some(config) = before.config {
            let j = choose|j: int|
                0 <= j < earlier.len() && #[trigger] earlier[j] == Event::Configured(config);
            assert(events[j] == earlier[j]);
        }
        if 0 <= k < earlier.len() {
            assert(events[k] == earlier[k]);
        }
        if events.last() is Configured {
            assert(events[events.len() - 1] == events.last());
            if 0 <= k < earlier.len() && earlier[k] is Configured {
                assert(before.config is Some);
            }
        }
    }
}

/// A run starts at its first step with nothing decided. It stands as failed exactly when the
/// last event was a failure, and as running exactly while there is a step to take.
pub proof fn lemma_status(cli: CliOptions, events: Seq<Event>)
    requires
        answers(start_of(cli), events),
    ensures
        start_of(cli).config is None,
        start_of(cli).position == 0,
        ({
            let state = after(start_of(cli), events);
            &&& state.status() == RunStatus::Failed <==> events.len() > 0 && events.last() is Failed
            &&& state.status() == RunStatus::Running <==> state.current() is Some
        }),
{
    lemma_run_follows_plan(cli, events);
}

/// What a step is answered with: the selection of the profile with a configuration, every
/// other step with its completion, and a step also with its failure where it is one of
/// those that can fail.
pub proof fn lemma_answers(state: EmbedView, event: Event)
    ensures
        state.expects(event) <==> (state.current() matches Some(step) && {
            ||| event is Completed && !(step is SelectConfig)
            ||| event is Configured && step is SelectConfig
            ||| event is Failed && !(step is SetupLogging || step is Announce || step is FindCore
                || step is StartGdb || step is JoinGdb || step is ReportDone)
        }),
{
}

} // verus!
