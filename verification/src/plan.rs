//! The course of a run: which steps it takes, in which order, what they are given and
//! which of them can fail.

use vstd::prelude::*;

use crate::config::{config_name, profile_name, CliOptions, Config};
use crate::text::opt_text;

verus! {

/// How the image is written to the target.
#[derive(Debug)]
pub struct BinaryDownloadOptions {
    /// Whether progress bars are left out.
    pub disable_progressbars: bool,
    /// Whether only one buffer is used.
    pub disable_double_buffering: bool,
    /// Whether bytes that are erased but not written are restored.
    pub restore_unwritten: bool,
    /// Where a picture of the flash layout is written.
    pub flash_layout_output_path: Option<String>,
    /// Whether the image is read back.
    pub verify: bool,
}

/// How the target is reset.
#[derive(Clone, Copy, Debug, PartialEq, Eq, Structural)]
pub enum ResetMode {
    /// Reset, and let the core run.
    Run,
    /// Reset, and halt the core.
    Halt {
        /// For how long the core may take to halt, in milliseconds.
        timeout_millis: u64,
        /// Whether the user is told that the option that asks for it has moved.
        option_moved: bool,
    },
}

/// How long a core may take to halt, in milliseconds.
pub const HALT_TIMEOUT_MILLIS: u64 = 500;

/// A step of a run.
#[derive(Debug)]
pub enum Step {
    /// Change to the work directory.
    ChangeDir(String),
    /// Read the current directory.
    ReadCurrentDir,
    /// Select the configuration profile.
    SelectConfig(String),
    /// Set up logging.
    SetupLogging,
    /// Open the file with the description of a chip.
    OpenChipDescription(String),
    /// Add the target that the opened file describes.
    AddTarget(String),
    /// Have cargo build the binary, and find its name.
    BuildArtifact,
    /// Tell the user which profile and which binary are in use.
    Announce,
    /// Attach the probe to the target.
    Attach,
    /// Write the image to the target.
    Flash {
        /// How it is written.
        options: BinaryDownloadOptions,
        /// Whether the whole chip is erased first.
        do_chip_erase: bool,
    },
    /// Find the core that runs the image.
    FindCore,
    /// Reset the target.
    Reset(ResetMode),
    /// Start the GDB stub at an address.
    StartGdb(String),
    /// Attach to RTT and show its channels.
    RunRtt,
    /// Wait for the GDB stub to end.
    JoinGdb,
    /// Tell the user that the run has ended.
    ReportDone(String),
}

/// A step, with its texts as sequences of characters.
pub enum StepView {
    /// See [`Step::ChangeDir`].
    ChangeDir(Seq<char>),
    /// See [`Step::ReadCurrentDir`].
    ReadCurrentDir,
    /// See [`Step::SelectConfig`].
    SelectConfig(Seq<char>),
    /// See [`Step::SetupLogging`].
    SetupLogging,
    /// See [`Step::OpenChipDescription`].
    OpenChipDescription(Seq<char>),
    /// See [`Step::AddTarget`].
    AddTarget(Seq<char>),
    /// See [`Step::BuildArtifact`].
    BuildArtifact,
    /// See [`Step::Announce`].
    Announce,
    /// See [`Step::Attach`].
    Attach,
    /// See [`Step::Flash`].
    Flash {
        /// How it is written.
        options: BinaryDownloadOptions,
        /// Whether the whole chip is erased first.
        do_chip_erase: bool,
    },
    /// See [`Step::FindCore`].
    FindCore,
    /// See [`Step::Reset`].
    Reset(ResetMode),
    /// See [`Step::StartGdb`].
    StartGdb(Seq<char>),
    /// See [`Step::RunRtt`].
    RunRtt,
    /// See [`Step::JoinGdb`].
    JoinGdb,
    /// See [`Step::ReportDone`].
    ReportDone(Seq<char>),
}

impl View for Step {
    type V = StepView;

    open spec fn view(&self) -> StepView {
        match *self {
            Step::ChangeDir(dir) => StepView::ChangeDir(dir@),
            Step::ReadCurrentDir => StepView::ReadCurrentDir,
            Step::SelectConfig(name) => StepView::SelectConfig(name@),
            Step::SetupLogging => StepView::SetupLogging,
            Step::OpenChipDescription(file) => StepView::OpenChipDescription(file@),
            Step::AddTarget(file) => StepView::AddTarget(file@),
            Step::BuildArtifact => StepView::BuildArtifact,
            Step::Announce => StepView::Announce,
            Step::Attach => StepView::Attach,
            Step::Flash { options, do_chip_erase } => StepView::Flash { options, do_chip_erase },
            Step::FindCore => StepView::FindCore,
            Step::Reset(mode) => StepView::Reset(mode),
            Step::StartGdb(address) => StepView::StartGdb(address@),
            Step::RunRtt => StepView::RunRtt,
            Step::JoinGdb => StepView::JoinGdb,
            Step::ReportDone(name) => StepView::ReportDone(name@),
        }
    }
}

/// The views of a sequence of steps.
pub open spec fn step_views(steps: Seq<Step>) -> Seq<StepView> {
    Seq::new(steps.len(), |i: int| steps[i]@)
}

/// A step that is taken only under a condition.
pub open spec fn step_if(condition: bool, step: StepView) -> Seq<StepView> {
    if condition {
        seq![step]
    } else {
        Seq::empty()
    }
}

// ---------------------------------------------------------------------------
// What the steps are given
// ---------------------------------------------------------------------------

/// How the image is written.
pub open spec fn download_options_of(cli: CliOptions, config: Config) -> BinaryDownloadOptions {
    BinaryDownloadOptions {
        disable_progressbars: cli.disable_progressbars,
        disable_double_buffering: false,
        restore_unwritten: config.flashing.restore_unwritten_bytes,
        flash_layout_output_path: None,
        verify: false,
    }
}

/// Decides how the image is written.
pub fn download_options(cli: &CliOptions, config: &Config) -> (r: BinaryDownloadOptions)
    ensures
        r == download_options_of(*cli, *config),
        r.disable_progressbars == cli.disable_progressbars,
        r.restore_unwritten == config.flashing.restore_unwritten_bytes,
        !r.disable_double_buffering,
        r.flash_layout_output_path is None,
        !r.verify,
{
    BinaryDownloadOptions {
        disable_progressbars: cli.disable_progressbars,
        disable_double_buffering: false,
        restore_unwritten: config.flashing.restore_unwritten_bytes,
        flash_layout_output_path: None,
        verify: false,
    }
}

/// How the target is reset, if at all: the core is halted where either section asks
/// for it, and an option in the section that it has moved from is pointed out.
pub open spec fn reset_mode_of(config: Config) -> Option<ResetMode> {
    if !config.reset.enabled {
        None
    } else if config.flashing.halt_afterwards || config.reset.halt_afterwards {
        Some(
            ResetMode::Halt {
                timeout_millis: HALT_TIMEOUT_MILLIS,
                option_moved: config.flashing.halt_afterwards,
            },
        )
    } else {
        Some(ResetMode::Run)
    }
}

/// Decides how the target is reset, if at all.
pub fn reset_mode(config: &Config) -> (r: Option<ResetMode>)
    ensures
        r == reset_mode_of(*config),
        r is Some <==> config.reset.enabled,
        r matches Some(mode) ==> (mode is Halt <==> config.flashing.halt_afterwards
            || config.reset.halt_afterwards),
        r matches Some(ResetMode::Halt { timeout_millis, option_moved }) ==> timeout_millis == 500
            && option_moved == config.flashing.halt_afterwards,
{
    if !config.reset.enabled {
        return None;
    }
    if config.flashing.halt_afterwards {
        Some(ResetMode::Halt { timeout_millis: HALT_TIMEOUT_MILLIS, option_moved: true })
    } else if config.reset.halt_afterwards {
        Some(ResetMode::Halt { timeout_millis: HALT_TIMEOUT_MILLIS, option_moved: false })
    } else {
        Some(ResetMode::Run)
    }
}

/// The address of the GDB stub.
pub open spec fn gdb_address_of(address: Option<String>) -> Seq<char> {
    match address {
        Some(address) => address@,
        None => "127.0.0.1:1337"@,
    }
}

/// The address at which the GDB stub listens.
pub fn gdb_address(address: &Option<String>) -> (r: String)
    ensures
        r@ == gdb_address_of(*address),
        address matches Some(configured) ==> r@ == configured@,
        address is None ==> r@ == "127.0.0.1:1337"@,
{
    match address {
        Some(address) => address.clone(),
        None => "127.0.0.1:1337".to_owned(),
    }
}

/// The binary that cargo has built.
#[derive(Debug)]
pub struct Artifact {
    /// The name of the file without its extension; `None` where the path has no file
    /// name or the name is not valid Unicode.
    pub stem: Option<String>,
    /// The path, as it is shown to the user.
    pub path: String,
}

impl Artifact {
    /// The name of the binary, or the text of the error where it has none.
    pub fn name(&self) -> (r: Result<String, String>)
        ensures
            match (self.stem, r) {
                (Some(stem), Ok(name)) => name == stem,
                (None, Err(text)) => text@ == "Unable to determine binary file name from path "@
                    + self.path@,
                _ => false,
            },
    {
        match &self.stem {
            Some(stem) => Ok(stem.clone()),
            None => Err(
                "Unable to determine binary file name from path ".to_owned().concat(
                    self.path.as_str(),
                ),
            ),
        }
    }
}

/// The context in which the failure of a step is reported.
pub open spec fn failure_context_of(step: StepView) -> Option<Seq<char>> {
    match step {
        StepView::ChangeDir(dir) => Some("Unable to change working directory to "@ + dir),
        StepView::AddTarget(file) => Some("failed to load the chip description from "@ + file),
        _ => None,
    }
}

/// The context in which the failure of a step is reported; `None` where the error is
/// reported as it came.
pub fn failure_context(step: &Step) -> (r: Option<String>)
    ensures
        opt_text(r) == failure_context_of(step@),
        r is Some <==> step is ChangeDir || step is AddTarget,
        step matches Step::ChangeDir(dir) ==> (r matches Some(text) && text@
            == "Unable to change working directory to "@ + dir@),
        step matches Step::AddTarget(file) ==> (r matches Some(text) && text@
            == "failed to load the chip description from "@ + file@),
{
    match step {
        Step::ChangeDir(dir) => Some(
            "Unable to change working directory to ".to_owned().concat(dir.as_str()),
        ),
        Step::AddTarget(file) => Some(
            "failed to load the chip description from ".to_owned().concat(file.as_str()),
        ),
        _ => None,
    }
}

/// Whether a step can fail. Logging and the lines for the user are set up and written
/// without a result. The core that runs the image is always found. What becomes of the GDB
/// stub, which runs beside the other steps, has no part in the result of the run.
pub open spec fn can_fail_of(step: StepView) -> bool {
    match step {
        StepView::SetupLogging => false,
        StepView::Announce => false,
        StepView::FindCore => false,
        StepView::StartGdb(_) => false,
        StepView::JoinGdb => false,
        StepView::ReportDone(_) => false,
        _ => true,
    }
}

/// Tests whether a step can fail.
pub fn can_fail(step: &Step) -> (r: bool)
    ensures
        r == can_fail_of(step@),
        !r <==> step is SetupLogging || step is Announce || step is FindCore || step is StartGdb
            || step is JoinGdb || step is ReportDone,
{
    match step {
        Step::SetupLogging => false,
        Step::Announce => false,
        Step::FindCore => false,
        Step::StartGdb(_) => false,
        Step::JoinGdb => false,
        Step::ReportDone(_) => false,
        _ => true,
    }
}

// ---------------------------------------------------------------------------
// The plan
// ---------------------------------------------------------------------------

/// The steps up to the configuration.
pub open spec fn opening_of(cli: CliOptions) -> Seq<StepView> {
    (match cli.work_dir {
        Some(dir) => seq![StepView::ChangeDir(dir@)],
        None => Seq::empty(),
    }) + seq![StepView::ReadCurrentDir, StepView::SelectConfig(profile_name(cli.config))]
}

/// Plans the steps up to the configuration.
pub fn opening(cli: &CliOptions) -> (r: Vec<Step>)
    ensures
        step_views(r@) == opening_of(*cli),
        r@.len() == if cli.work_dir is Some {
            3int
        } else {
            2
        },
        cli.work_dir matches Some(dir) ==> (r@[0] matches Step::ChangeDir(to) && to@ == dir@),
        r@[r@.len() - 2] is ReadCurrentDir,
        r@.last() matches Step::SelectConfig(name) && {
            &&& cli.config matches Some(profile) ==> name@ == profile@
            &&& cli.config is None ==> name@ == "default"@
        },
{
    let mut steps: Vec<Step> = Vec::new();
    if let Some(dir) = &cli.work_dir {
        steps.push(Step::ChangeDir(dir.clone()));
    }
    steps.push(Step::ReadCurrentDir);
    steps.push(Step::SelectConfig(config_name(&cli.config)));
    assert(step_views(steps@) =~= opening_of(*cli));
    steps
}

/// The steps that load the descriptions of further chips.
pub open spec fn description_steps(files: Seq<String>) -> Seq<StepView>
    decreases files.len(),
{
    if files.len() == 0 {
        Seq::empty()
    } else {
        description_steps(files.drop_last()) + seq![
            StepView::OpenChipDescription(files.last()@),
            StepView::AddTarget(files.last()@),
        ]
    }
}

/// The steps from the attached probe on.
pub open spec fn target_steps(cli: CliOptions, config: Config) -> Seq<StepView> {
    step_if(
        config.flashing.enabled,
        StepView::Flash {
            options: download_options_of(cli, config),
            do_chip_erase: config.flashing.do_chip_erase,
        },
    ) + seq![StepView::FindCore] + (match reset_mode_of(config) {
        Some(mode) => seq![StepView::Reset(mode)],
        None => Seq::empty(),
    }) + step_if(
        config.gdb.enabled,
        StepView::StartGdb(gdb_address_of(config.gdb.gdb_connection_string)),
    ) + step_if(config.rtt.enabled, StepView::RunRtt) + step_if(
        config.gdb.enabled,
        StepView::JoinGdb,
    ) + seq![StepView::ReportDone(profile_name(cli.config))]
}

/// The steps from the configuration on.
pub open spec fn session_of(cli: CliOptions, config: Config) -> Seq<StepView> {
    seq![StepView::SetupLogging] + description_steps(config.general.chip_descriptions@) + seq![
        StepView::BuildArtifact,
        StepView::Announce,
        StepView::Attach,
    ] + target_steps(cli, config)
}

/// Writes the steps from the configuration on.
fn session_steps(cli: &CliOptions, config: &Config) -> (r: Vec<Step>)
    ensures
        step_views(r@) == session_of(*cli, *config),
{
    let mut steps: Vec<Step> = Vec::new();
    steps.push(Step::SetupLogging);
    let ghost files = config.general.chip_descriptions@;
    let mut i: usize = 0;
    assert(files.take(0) =~= Seq::<String>::empty());
    assert(step_views(steps@) =~= seq![StepView::SetupLogging] + description_steps(files.take(0)));
    while i < config.general.chip_descriptions.len()
        invariant
            files == config.general.chip_descriptions@,
            i <= files.len(),
            step_views(steps@) == seq![StepView::SetupLogging] + description_steps(
                files.take(i as int),
            ),
        decreases files.len() - i,
    {
        let ghost before = step_views(steps@);
        let file = &config.general.chip_descriptions[i];
        steps.push(Step::OpenChipDescription(file.clone()));
        steps.push(Step::AddTarget(file.clone()));
        proof {
            assert(files.take(i + 1).drop_last() =~= files.take(i as int));
            assert(files.take(i + 1).last() == files[i as int]);
            assert(step_views(steps@) =~= before + seq![
                StepView::OpenChipDescription(file@),
                StepView::AddTarget(file@),
            ]);
            assert(step_views(steps@) =~= seq![StepView::SetupLogging] + description_steps(
                files.take(i + 1),
            ));
        }
        i = i + 1;
    }
    assert(files.take(files.len() as int) =~= files);
    let ghost head = step_views(steps@);
    steps.push(Step::BuildArtifact);
    steps.push(Step::Announce);
    steps.push(Step::Attach);
    if config.flashing.enabled {
        steps.push(
            Step::Flash {
                options: download_options(cli, config),
                do_chip_erase: config.flashing.do_chip_erase,
            },
        );
    }
    steps.push(Step::FindCore);
    if let Some(mode) = reset_mode(config) {
        steps.push(Step::Reset(mode));
    }
    if config.gdb.enabled {
        steps.push(Step::StartGdb(gdb_address(&config.gdb.gdb_connection_string)));
    }
    if config.rtt.enabled {
        steps.push(Step::RunRtt);
    }
    if config.gdb.enabled {
        steps.push(Step::JoinGdb);
    }
    steps.push(Step::ReportDone(config_name(&cli.config)));
    assert(step_views(steps@) =~= session_of(*cli, *config));
    steps
}

/// Plans the steps from the configuration on.
pub fn session(cli: &CliOptions, config: &Config) -> (r: Vec<Step>)
    ensures
        step_views(r@) == session_of(*cli, *config),
        forall|i: int|
            0 <= i < r@.len() ==> (#[trigger] r@[i] matches Step::Flash { options, do_chip_erase }
                ==> {
                &&& do_chip_erase == config.flashing.do_chip_erase
                &&& options.restore_unwritten == config.flashing.restore_unwritten_bytes
                &&& options.disable_progressbars == cli.disable_progressbars
            }),
        forall|i: int|
            0 <= i < r@.len() ==> (#[trigger] r@[i] matches Step::StartGdb(address) ==> {
                &&& config.gdb.gdb_connection_string matches Some(configured) ==> address@
                    == configured@
                &&& config.gdb.gdb_connection_string is None ==> address@ == "127.0.0.1:1337"@
            }),
        forall|i: int|
            0 <= i < r@.len() ==> (#[trigger] r@[i] matches Step::Reset(mode) ==> (mode is Halt
                <==> config.flashing.halt_afterwards || config.reset.halt_afterwards)),
        forall|i: int|
            0 <= i < r@.len() ==> (#[trigger] r@[i] matches Step::ReportDone(name) ==> {
                &&& cli.config matches Some(profile) ==> name@ == profile@
                &&& cli.config is None ==> name@ == "default"@
            }),
{
    let steps = session_steps(cli, config);
    proof {
        lemma_session_steps(*cli, *config, steps@);
    }
    steps
}

// ---------------------------------------------------------------------------
// Laws of the plan
// ---------------------------------------------------------------------------

/// Whether what a step of a session is given is what the options and the configuration ask
/// for.
spec fn session_payload(cli: CliOptions, config: Config, step: StepView) -> bool {
    match step {
        StepView::Flash { options, do_chip_erase } => {
            &&& do_chip_erase == config.flashing.do_chip_erase
            &&& options.restore_unwritten == config.flashing.restore_unwritten_bytes
            &&& options.disable_progressbars == cli.disable_progressbars
            &&& !options.disable_double_buffering
            &&& options.flash_layout_output_path is None
            &&& !options.verify
        },
        StepView::StartGdb(address) => {
            &&& config.gdb.gdb_connection_string matches Some(configured) ==> address
                == configured@
            &&& config.gdb.gdb_connection_string is None ==> address == "127.0.0.1:1337"@
        },
        StepView::Reset(mode) => {
            &&& mode is Halt <==> config.flashing.halt_afterwards || config.reset.halt_afterwards
            &&& mode matches ResetMode::Halt { timeout_millis, option_moved } ==> timeout_millis
                == 500 && option_moved == config.flashing.halt_afterwards
        },
        StepView::ReportDone(name) => {
            &&& cli.config matches Some(profile) ==> name == profile@
            &&& cli.config is None ==> name == "default"@
        },
        _ => true,
    }
}

proof fn lemma_target_payload(cli: CliOptions, config: Config, i: int)
    requires
        0 <= i < target_steps(cli, config).len(),
    ensures
        session_payload(cli, config, target_steps(cli, config)[i]),
{
}

proof fn lemma_session_payload(cli: CliOptions, config: Config, i: int)
    requires
        0 <= i < session_of(cli, config).len(),
    ensures
        session_payload(cli, config, session_of(cli, config)[i]),
{
    let files = config.general.chip_descriptions@;
    let d = description_steps(files).len();
    let target = target_steps(cli, config);
    if 1 <= i < 1 + d {
        assert(session_of(cli, config)[i] == description_steps(files)[i - 1]);
        lemma_description_steps_len(files);
        lemma_description_steps_at(files, (i - 1) / 2);
    } else if i >= 4 + d {
        assert(session_of(cli, config)[i] == target[i - 4 - d]);
        lemma_target_payload(cli, config, i - 4 - d);
    }
}

proof fn lemma_session_steps(cli: CliOptions, config: Config, steps: Seq<Step>)
    requires
        step_views(steps) == session_of(cli, config),
    ensures
        forall|i: int|
            0 <= i < steps.len() ==> session_payload(cli, config, (#[trigger] steps[i])@),
{
    assert forall|i: int| 0 <= i < steps.len() implies session_payload(
        cli,
        config,
        (#[trigger] steps[i])@,
    ) by {
        assert(step_views(steps)[i] == steps[i]@);
        lemma_session_payload(cli, config, i);
    }
}

proof fn lemma_description_steps_len(files: Seq<String>)
    ensures
        description_steps(files).len() == 2 * files.len(),
    decreases files.len(),
{
    if files.len() > 0 {
        lemma_description_steps_len(files.drop_last());
    }
}

/// Every description has its two steps, in the order of the descriptions: its file is
/// opened, then its target is added.
pub proof fn lemma_description_steps_at(files: Seq<String>, k: int)
    requires
        0 <= k < files.len(),
    ensures
        description_steps(files).len() == 2 * files.len(),
        description_steps(files)[2 * k] == StepView::OpenChipDescription(files[k]@),
        description_steps(files)[2 * k + 1] == StepView::AddTarget(files[k]@),
    decreases files.len(),
{
    lemma_description_steps_len(files);
    lemma_description_steps_len(files.drop_last());
    if k < files.len() - 1 {
        lemma_description_steps_at(files.drop_last(), k);
    }
}

/// The view of a step tells its kind and all that it is given.
pub proof fn lemma_step_view(step: Step)
    ensures
        match step {
            Step::ChangeDir(dir) => step@ matches StepView::ChangeDir(text) && text == dir@,
            Step::ReadCurrentDir => step@ is ReadCurrentDir,
            Step::SelectConfig(name) => step@ matches StepView::SelectConfig(text) && text == name@,
            Step::SetupLogging => step@ is SetupLogging,
            Step::OpenChipDescription(file) => step@ matches StepView::OpenChipDescription(text)
                && text == file@,
            Step::AddTarget(file) => step@ matches StepView::AddTarget(text) && text == file@,
            Step::BuildArtifact => step@ is BuildArtifact,
            Step::Announce => step@ is Announce,
            Step::Attach => step@ is Attach,
            Step::Flash { options: given, do_chip_erase: erase } => step@ matches StepView::Flash {
                options,
                do_chip_erase,
            } && options == given && do_chip_erase == erase,
            Step::FindCore => step@ is FindCore,
            Step::Reset(given) => step@ matches StepView::Reset(mode) && mode == given,
            Step::StartGdb(address) => step@ matches StepView::StartGdb(text) && text == address@,
            Step::RunRtt => step@ is RunRtt,
            Step::JoinGdb => step@ is JoinGdb,
            Step::ReportDone(name) => step@ matches StepView::ReportDone(text) && text == name@,
        },
{
}

/// A failure is put into a context that ends with the directory or the file that the step
/// was given, exactly where the step changes the directory or adds a target.
pub proof fn lemma_failure_context(step: StepView)
    ensures
        failure_context_of(step) is Some <==> step is ChangeDir || step is AddTarget,
        step matches StepView::ChangeDir(dir) ==> failure_context_of(step)
            == Some("Unable to change working directory to "@ + dir),
        step matches StepView::AddTarget(file) ==> failure_context_of(step)
            == Some("failed to load the chip description from "@ + file),
{
}

/// Whether a step can fail rests on its kind alone.
pub proof fn lemma_can_fail(step: StepView)
    ensures
        can_fail_of(step) <==> {
            ||| step is ChangeDir
            ||| step is ReadCurrentDir
            ||| step is SelectConfig
            ||| step is OpenChipDescription
            ||| step is AddTarget
            ||| step is BuildArtifact
            ||| step is Attach
            ||| step is Flash
            ||| step is Reset
            ||| step is RunRtt
        },
{
}

} // verus!
