//! Which probe is opened, how it is attached to the target, and what follows from it.

use vstd::prelude::*;

use crate::config::{copy_selector, copy_text, CliOptions, Config, DebugProbeSelector, Probe};
use crate::config::WireProtocol;
use crate::hex::{
    hex_u16, hex_value, lemma_hex_u16_ok, parse_hex_u16, without_plus, HexError,
};
use crate::text::{
    decimal_nat, decimal_u128, lemma_decimal_nat_value, lemma_lines_concat, lemma_one_line, lines,
    texts, unbroken,
};

verus! {

/// Half of a USB identifier that is of no use without the other half.
#[derive(Clone, Copy, Debug, PartialEq, Eq, Structural)]
pub enum SelectorWarning {
    /// A vendor identifier is configured without a product identifier.
    VendorIgnored,
    /// A product identifier is configured without a vendor identifier.
    ProductIgnored,
}

impl SelectorWarning {
    /// The text of the warning.
    pub fn message(self) -> (r: &'static str)
        ensures
            r@ == match self {
                SelectorWarning::VendorIgnored =>
                    "USB VID ignored, because PID is not specified."@,
                SelectorWarning::ProductIgnored =>
                    "USB PID ignored, because VID is not specified."@,
            },
    {
        match self {
            SelectorWarning::VendorIgnored => "USB VID ignored, because PID is not specified.",
            SelectorWarning::ProductIgnored => "USB PID ignored, because VID is not specified.",
        }
    }
}

/// The probe to open, if one is asked for, and what the user is warned of.
#[derive(Debug)]
pub struct Selection {
    /// The probe to open.
    pub selector: Option<DebugProbeSelector>,
    /// What is wrong with the configured identifiers.
    pub warning: Option<SelectorWarning>,
}

/// The probe that the configuration asks for: it takes both identifiers. The vendor
/// identifier is read first.
pub open spec fn configured_probe(config: Probe) -> Result<Selection, HexError> {
    match (config.usb_vid, config.usb_pid) {
        (Some(vid), Some(pid)) => match (hex_u16(vid@), hex_u16(pid@)) {
            (Err(e), _) => Err(e),
            (Ok(_), Err(e)) => Err(e),
            (Ok(vendor_id), Ok(product_id)) => Ok(
                Selection {
                    selector: Some(
                        DebugProbeSelector {
                            vendor_id: vendor_id as u16,
                            product_id: product_id as u16,
                            serial_number: config.serial,
                        },
                    ),
                    warning: None,
                },
            ),
        },
        (Some(_), None) => Ok(
            Selection { selector: None, warning: Some(SelectorWarning::VendorIgnored) },
        ),
        (None, Some(_)) => Ok(
            Selection { selector: None, warning: Some(SelectorWarning::ProductIgnored) },
        ),
        (None, None) => Ok(Selection { selector: None, warning: None }),
    }
}

/// The probe to open: the one that the command line names, else the configured one.
pub open spec fn selection(cli: Option<DebugProbeSelector>, config: Probe) -> Result<
    Selection,
    HexError,
> {
    match cli {
        Some(selector) => Ok(Selection { selector: Some(selector), warning: None }),
        None => configured_probe(config),
    }
}

/// Decides which probe to open.
pub fn select_probe(cli: &Option<DebugProbeSelector>, config: &Probe) -> (r: Result<
    Selection,
    HexError,
>)
    ensures
        r == selection(*cli, *config),
        cli is Some ==> (r matches Ok(s) && s.selector == *cli && s.warning is None),
        cli is None ==> (config.usb_vid matches Some(vid) ==> (config.usb_pid matches Some(pid) ==> {
            &&& r matches Ok(s) ==> {
                &&& s.selector matches Some(sel)
                &&& sel.vendor_id == hex_value(without_plus(vid@))
                &&& sel.product_id == hex_value(without_plus(pid@))
                &&& sel.serial_number == config.serial
                &&& s.warning is None
            }
            &&& r is Ok <==> hex_u16(vid@) is Ok && hex_u16(pid@) is Ok
        })),
        cli is None && (config.usb_vid is None || config.usb_pid is None) ==> (r matches Ok(s)
            && s.selector is None && (s.warning == Some(SelectorWarning::VendorIgnored)
            <==> config.usb_vid is Some) && (s.warning == Some(SelectorWarning::ProductIgnored)
            <==> config.usb_pid is Some)),
{
    proof {
        lemma_selection(*cli, *config);
    }
    if let Some(selector) = cli {
        return Ok(Selection { selector: Some(copy_selector(selector)), warning: None });
    }
    match (&config.usb_vid, &config.usb_pid) {
        (Some(vid), Some(pid)) => {
            let vendor_id = match parse_hex_u16(vid.as_str()) {
                Ok(id) => id,
                Err(e) => return Err(e),
            };
            let product_id = match parse_hex_u16(pid.as_str()) {
                Ok(id) => id,
                Err(e) => return Err(e),
            };
            Ok(
                Selection {
                    selector: Some(
                        DebugProbeSelector {
                            vendor_id,
                            product_id,
                            serial_number: copy_text(&config.serial),
                        },
                    ),
                    warning: None,
                },
            )
        },
        (Some(_), None) => Ok(
            Selection { selector: None, warning: Some(SelectorWarning::VendorIgnored) },
        ),
        (None, Some(_)) => Ok(
            Selection { selector: None, warning: Some(SelectorWarning::ProductIgnored) },
        ),
        (None, None) => Ok(Selection { selector: None, warning: None }),
    }
}

/// How the probe is attached to the target.
#[derive(Debug)]
pub struct ProbeOptions {
    /// The name of the chip.
    pub chip: Option<String>,
    /// A file with a description of the chip.
    pub chip_description_path: Option<String>,
    /// The wire protocol.
    pub protocol: Option<WireProtocol>,
    /// The probe to open.
    pub probe: Option<DebugProbeSelector>,
    /// The speed of the wire protocol in kHz.
    pub speed: Option<u32>,
    /// Whether the target is held in reset meanwhile.
    pub connect_under_reset: bool,
    /// Whether nothing is written to the target.
    pub dry_run: bool,
    /// Whether the whole chip may be erased, as unlocking may need it.
    pub allow_erase_all: bool,
}

/// The name of the chip: the one of the command line, else the configured one.
pub open spec fn chosen_chip(cli: CliOptions, config: Config) -> Option<String> {
    if cli.chip is Some {
        cli.chip
    } else {
        config.general.chip
    }
}

/// How the given probe is attached.
pub open spec fn attach_options(
    cli: CliOptions,
    config: Config,
    selector: Option<DebugProbeSelector>,
) -> ProbeOptions {
    ProbeOptions {
        chip: chosen_chip(cli, config),
        chip_description_path: None,
        protocol: Some(config.probe.protocol),
        probe: selector,
        speed: config.probe.speed,
        connect_under_reset: config.general.connect_under_reset,
        dry_run: false,
        allow_erase_all: config.flashing.enabled || config.gdb.enabled,
    }
}

/// Decides how the probe is attached, and what the user is warned of.
pub fn probe_options(cli: &CliOptions, config: &Config) -> (r: Result<
    (ProbeOptions, Option<SelectorWarning>),
    HexError,
>)
    ensures
        match (r, selection(cli.probe, config.probe)) {
            (Ok((options, warning)), Ok(selection)) => {
                &&& options == attach_options(*cli, *config, selection.selector)
                &&& warning == selection.warning
            },
            (Err(e), Err(expected)) => e == expected,
            _ => false,
        },
        r matches Ok((options, _)) ==> {
            &&& cli.chip is Some ==> options.chip == cli.chip
            &&& cli.chip is None ==> options.chip == config.general.chip
            &&& options.chip_description_path is None
            &&& options.protocol == Some(config.probe.protocol)
            &&& options.speed == config.probe.speed
            &&& options.connect_under_reset == config.general.connect_under_reset
            &&& !options.dry_run
            &&& options.allow_erase_all <==> config.flashing.enabled || config.gdb.enabled
            &&& cli.probe is Some ==> options.probe == cli.probe
        },
{
    let selection = match select_probe(&cli.probe, &config.probe) {
        Ok(selection) => selection,
        Err(e) => return Err(e),
    };
    let chip = if cli.chip.is_some() {
        copy_text(&cli.chip)
    } else {
        copy_text(&config.general.chip)
    };
    let options = ProbeOptions {
        chip,
        chip_description_path: None,
        protocol: Some(config.probe.protocol),
        probe: selection.selector,
        speed: config.probe.speed,
        connect_under_reset: config.general.connect_under_reset,
        dry_run: false,
        allow_erase_all: config.flashing.enabled || config.gdb.enabled,
    };
    Ok((options, selection.warning))
}

/// What came of attaching the probe.
#[derive(Debug)]
pub enum AttachOutcome {
    /// The probe is attached.
    Attached,
    /// Several probes were found; each is described.
    MultipleProbesFound(Vec<String>),
    /// The probe was opened, but the target did not answer.
    AttachingFailed {
        /// Whether the target was held in reset meanwhile.
        connect_under_reset: bool,
    },
    /// Another error.
    OtherError,
}

/// What follows from it.
#[derive(Debug)]
pub enum AttachDecision {
    /// Go on.
    Proceed,
    /// End with an error of this text.
    Refuse(String),
    /// Tell the user the hints, then end with the error that came, in this context.
    Explain {
        /// Hints for the user.
        hints: Vec<String>,
        /// What was attempted.
        context: String,
    },
    /// End with the error that came.
    PassOn,
}

/// The numbered list of the probes, one to a line.
pub open spec fn probe_list(probes: Seq<Seq<char>>) -> Seq<char>
    decreases probes.len(),
{
    if probes.len() == 0 {
        Seq::empty()
    } else {
        probe_list(probes.drop_last()) + ("["@ + decimal_nat((probes.len() - 1) as nat) + "]: "@
            + probes.last() + "\n"@)
    }
}

/// What the user is told where several probes were found.
pub open spec fn multiple_probes_text(probes: Seq<Seq<char>>) -> Seq<char> {
    "The following devices were found:\n "@ + probe_list(probes)
        + " Use '--probe VID:PID'\n You can also set the [default.probe] config attribute (in your Embed.toml) to select which probe to use. For usage examples see https://github.com/probe-rs/cargo-embed/blob/master/src/config/default.toml ."@
}

/// The hints for a target that does not answer.
pub open spec fn attach_hints(connect_under_reset: bool) -> Seq<Seq<char>> {
    if connect_under_reset {
        seq!["The target seems to be unable to be attached to."@]
    } else {
        seq![
            "The target seems to be unable to be attached to."@,
            "A hard reset during attaching might help. This will reset the entire chip."@,
            "Set `general.connect_under_reset` in your cargo-embed configuration file to enable this feature."@,
        ]
    }
}

/// Writes what the user is told where several probes were found.
pub fn multiple_probes_message(probes: &Vec<String>) -> (r: String)
    ensures
        r@ == multiple_probes_text(texts(probes@)),
{
    let mut list = String::new();
    let mut i: usize = 0;
    let ghost all = texts(probes@);
    assert(all.take(0) =~= Seq::<Seq<char>>::empty());
    while i < probes.len()
        invariant
            i <= probes.len(),
            all == texts(probes@),
            list@ == probe_list(all.take(i as int)),
        decreases probes.len() - i,
    {
        let ghost before = list@;
        list.append("[");
        list.append(decimal_u128(i as u128).as_str());
        list.append("]: ");
        list.append(probes[i].as_str());
        list.append("\n");
        proof {
            let taken = all.take(i + 1);
            assert(taken.drop_last() =~= all.take(i as int));
            assert(taken.last() == probes@[i as int]@);
            assert(list@ =~= before + ("["@ + decimal_nat(i as nat) + "]: "@ + taken.last()
                + "\n"@));
        }
        i = i + 1;
    }
    assert(all.take(all.len() as int) =~= all);
    let mut out = "The following devices were found:\n ".to_owned();
    out.append(list.as_str());
    out.append(
        " Use '--probe VID:PID'\n You can also set the [default.probe] config attribute (in your Embed.toml) to select which probe to use. For usage examples see https://github.com/probe-rs/cargo-embed/blob/master/src/config/default.toml .",
    );
    out
}

/// Decides what follows from the attempt to attach the probe.
pub fn after_attach(outcome: &AttachOutcome) -> (r: AttachDecision)
    ensures
        match *outcome {
            AttachOutcome::Attached => r is Proceed,
            AttachOutcome::MultipleProbesFound(probes) => r matches AttachDecision::Refuse(text)
                && text@ == multiple_probes_text(texts(probes@)),
            AttachOutcome::AttachingFailed { connect_under_reset } =>
                r matches AttachDecision::Explain { hints, context } && texts(hints@)
                == attach_hints(connect_under_reset) && context@ == "failed attaching to target"@,
            AttachOutcome::OtherError => r is PassOn,
        },
{
    match outcome {
        AttachOutcome::Attached => AttachDecision::Proceed,
        AttachOutcome::MultipleProbesFound(probes) => AttachDecision::Refuse(
            multiple_probes_message(probes),
        ),
        AttachOutcome::AttachingFailed { connect_under_reset } => {
            let mut hints: Vec<String> = Vec::new();
            hints.push("The target seems to be unable to be attached to.".to_owned());
            if !*connect_under_reset {
                hints.push(
                    "A hard reset during attaching might help. This will reset the entire chip.".to_owned(),
                );
                hints.push(
                    "Set `general.connect_under_reset` in your cargo-embed configuration file to enable this feature.".to_owned(),
                );
            }
            assert(texts(hints@) =~= attach_hints(*connect_under_reset));
            AttachDecision::Explain { hints, context: "failed attaching to target".to_owned() }
        },
        AttachOutcome::OtherError => AttachDecision::PassOn,
    }
}

/// A probe on the command line is taken whatever is configured. Without one, a probe is
/// selected exactly when both identifiers are configured and read as hexadecimal numbers
/// of sixteen bits, and it is the one with just those numbers, in their places, and the
/// configured serial number. An error comes only from a configured identifier, and that
/// of the vendor identifier comes first. Half an identifier selects nothing, and the user
/// is warned of it.
pub proof fn lemma_selection(cli: Option<DebugProbeSelector>, config: Probe)
    ensures
        cli is Some ==> selection(cli, config) == Ok::<Selection, HexError>(
            Selection { selector: cli, warning: None },
        ),
        cli is None ==> ({
            (selection(cli, config) matches Ok(selection) && selection.selector is Some) <==> {
                &&& config.usb_vid matches Some(vid)
                &&& config.usb_pid matches Some(pid)
                &&& hex_u16(vid@) is Ok
                &&& hex_u16(pid@) is Ok
            }
        }),
        selection(cli, config) is Err ==> config.usb_vid is Some && config.usb_pid is Some,
        cli is None ==> (config.usb_vid matches Some(vid) ==> (config.usb_pid matches Some(pid) ==> {
            &&& selection(cli, config) matches Ok(s) ==> {
                &&& s.selector matches Some(sel)
                &&& sel.vendor_id == hex_value(without_plus(vid@))
                &&& sel.product_id == hex_value(without_plus(pid@))
                &&& sel.serial_number == config.serial
                &&& s.warning is None
            }
            &&& hex_u16(vid@) matches Err(e) ==> selection(cli, config) == Err::<
                Selection,
                HexError,
            >(e)
            &&& hex_u16(vid@) is Ok ==> (hex_u16(pid@) matches Err(e) ==> selection(cli, config)
                == Err::<Selection, HexError>(e))
        })),
        cli is None && (config.usb_vid is None || config.usb_pid is None) ==> (selection(cli, config)
            matches Ok(s) && s.selector is None && (s.warning == Some(
            SelectorWarning::VendorIgnored,
        ) <==> config.usb_vid is Some) && (s.warning == Some(SelectorWarning::ProductIgnored)
            <==> config.usb_pid is Some)),
{
    if let Some(vid) = config.usb_vid {
        lemma_hex_u16_ok(vid@);
    }
    if let Some(pid) = config.usb_pid {
        lemma_hex_u16_ok(pid@);
    }
}

/// Every option is what was asked for: the chip of the command line, else the configured
/// one, the selected probe, and the configured protocol, speed and connection under reset.
/// The whole chip may be erased exactly where flashing or GDB is switched on; nothing else
/// is set.
pub proof fn lemma_attach_options(
    cli: CliOptions,
    config: Config,
    selector: Option<DebugProbeSelector>,
)
    ensures
        ({
            let options = attach_options(cli, config, selector);
            &&& cli.chip is Some ==> options.chip == cli.chip
            &&& cli.chip is None ==> options.chip == config.general.chip
            &&& options.chip_description_path is None
            &&& options.protocol == Some(config.probe.protocol)
            &&& options.probe == selector
            &&& options.speed == config.probe.speed
            &&& options.connect_under_reset == config.general.connect_under_reset
            &&& !options.dry_run
            &&& options.allow_erase_all <==> config.flashing.enabled || config.gdb.enabled
        }),
{
}

/// Two configurations that differ in the protocol, in the speed or in the connection under
/// reset give options that differ in it, whatever else they hold.
pub proof fn lemma_attach_options_differ(
    cli: CliOptions,
    a: Config,
    b: Config,
    selector: Option<DebugProbeSelector>,
)
    ensures
        ({
            let first = attach_options(cli, a, selector);
            let second = attach_options(cli, b, selector);
            &&& first.protocol == second.protocol <==> a.probe.protocol == b.probe.protocol
            &&& first.speed == second.speed <==> a.probe.speed == b.probe.speed
            &&& first.connect_under_reset == second.connect_under_reset
                <==> a.general.connect_under_reset == b.general.connect_under_reset
        }),
{
}

/// Each probe stands on a line of its own, behind its number, in the order in which the
/// probes were found.
pub proof fn lemma_probe_list_lines(probes: Seq<Seq<char>>)
    requires
        forall|k: int| 0 <= k < probes.len() ==> unbroken(#[trigger] probes[k]),
        forall|k: int|
            0 <= k < probes.len() ==> (#[trigger] probes[k]).len() == 0 || probes[k].last() != '\r',
    ensures
        probe_list(probes).len() > 0 ==> probe_list(probes).last() == '\n',
        lines(probe_list(probes)).len() == probes.len(),
        forall|k: int|
            0 <= k < probes.len() ==> #[trigger] lines(probe_list(probes))[k] == seq!['[']
                + decimal_nat(k as nat) + seq![']', ':', ' '] + probes[k],
    decreases probes.len(),
{
    if probes.len() > 0 {
        let earlier = probes.drop_last();
        assert forall|k: int| 0 <= k < earlier.len() implies unbroken(#[trigger] earlier[k])
            && (earlier[k].len() == 0 || earlier[k].last() != '\r') by {
            assert(earlier[k] == probes[k]);
        }
        lemma_probe_list_lines(earlier);
        let n = (probes.len() - 1) as nat;
        let body = seq!['['] + decimal_nat(n) + seq![']', ':', ' '] + probes.last();
        reveal_strlit("[");
        reveal_strlit("]: ");
        reveal_strlit("\n");
        lemma_decimal_nat_value(n);
        assert(unbroken(probes[n as int]));
        assert(probe_list(probes) =~= probe_list(earlier) + body.push('\n'));
        assert(unbroken(body));
        assert(body.last() != '\r');
        lemma_one_line(body);
        lemma_lines_concat(probe_list(earlier), body.push('\n'));
        assert forall|k: int| 0 <= k < probes.len() implies #[trigger] lines(probe_list(probes))[k]
            == seq!['['] + decimal_nat(k as nat) + seq![']', ':', ' '] + probes[k] by {
            if k < earlier.len() {
                assert(lines(probe_list(probes))[k] == lines(probe_list(earlier))[k]);
                assert(earlier[k] == probes[k]);
            }
        }
    } else {
        assert(lines(probe_list(probes)) =~= Seq::<Seq<char>>::empty());
    }
}

/// The text on several probes holds the whole list, behind the same opening and before the
/// same advice for every list.
pub proof fn lemma_multiple_probes_text(probes: Seq<Seq<char>>, others: Seq<Seq<char>>)
    ensures
        ({
            let opening = "The following devices were found:\n "@;
            let text = multiple_probes_text(probes);
            let other = multiple_probes_text(others);
            &&& text.take(opening.len() as int) == opening
            &&& text.subrange(
                opening.len() as int,
                (opening.len() + probe_list(probes).len()) as int,
            ) == probe_list(probes)
            &&& text.skip((opening.len() + probe_list(probes).len()) as int) == other.skip(
                (opening.len() + probe_list(others).len()) as int,
            )
        }),
{
    let opening = "The following devices were found:\n "@;
    let text = multiple_probes_text(probes);
    let other = multiple_probes_text(others);
    assert(text.take(opening.len() as int) =~= opening);
    assert(text.subrange(opening.len() as int, (opening.len() + probe_list(probes).len()) as int)
        =~= probe_list(probes));
    assert(text.skip((opening.len() + probe_list(probes).len()) as int) =~= other.skip(
        (opening.len() + probe_list(others).len()) as int,
    ));
}

/// The first hint always comes, and the two on a hard reset exactly where none was made.
pub proof fn lemma_attach_hints(connect_under_reset: bool)
    ensures
        attach_hints(connect_under_reset).len() == if connect_under_reset {
            1int
        } else {
            3
        },
        attach_hints(connect_under_reset)[0] == "The target seems to be unable to be attached to."@,
        !connect_under_reset ==> attach_hints(connect_under_reset)[1]
            == "A hard reset during attaching might help. This will reset the entire chip."@
            && attach_hints(connect_under_reset)[2]
            == "Set `general.connect_under_reset` in your cargo-embed configuration file to enable this feature."@,
{
}

/// A further probe adds its line at the end of the list, under the next number, and leaves
/// the rest as it was; without probes the list is empty.
pub proof fn lemma_probe_list_grows(probes: Seq<Seq<char>>, probe: Seq<char>)
    ensures
        probe_list(Seq::<Seq<char>>::empty()).len() == 0,
        probe_list(probes.push(probe)) == probe_list(probes) + seq!['['] + decimal_nat(probes.len())
            + seq![']', ':', ' '] + probe + seq!['\n'],
{
    reveal_strlit("[");
    reveal_strlit("]: ");
    reveal_strlit("\n");
    assert(probes.push(probe).drop_last() =~= probes);
    assert(probe_list(probes.push(probe)) =~= probe_list(probes) + seq!['['] + decimal_nat(
        probes.len(),
    ) + seq![']', ':', ' '] + probe + seq!['\n']);
}

} // verus!
