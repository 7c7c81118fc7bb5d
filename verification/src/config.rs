//! The configuration profile and the command line options that the decisions read.

use vstd::prelude::*;

verus! {

/// The wire protocol between probe and target.
#[derive(Clone, Copy, Debug, PartialEq, Eq, Structural)]
pub enum WireProtocol {
    /// Serial Wire Debug.
    Swd,
    /// JTAG.
    Jtag,
}

/// How the data of an RTT channel is encoded.
#[derive(Clone, Copy, Debug, PartialEq, Eq, Structural)]
pub enum DataFormat {
    /// Text.
    String,
    /// Raw bytes in little endian order.
    BinaryLE,
    /// Frames of `defmt`.
    Defmt,
}

/// What the target does when an RTT channel is full.
#[derive(Clone, Copy, Debug, PartialEq, Eq, Structural)]
pub enum ChannelMode {
    /// Drop the whole write.
    NoBlockSkip,
    /// Write as much as fits.
    NoBlockTrim,
    /// Wait.
    BlockIfFull,
}

/// The probe to open.
#[derive(Clone, Debug)]
pub struct DebugProbeSelector {
    /// The USB vendor identifier.
    pub vendor_id: u16,
    /// The USB product identifier.
    pub product_id: u16,
    /// The serial number, where one probe has to be told from another of its kind.
    pub serial_number: Option<String>,
}

/// The `general` section.
#[derive(Clone, Debug)]
pub struct General {
    /// The name of the chip.
    pub chip: Option<String>,
    /// Files with descriptions of further chips.
    pub chip_descriptions: Vec<String>,
    /// Whether the target is held in reset while the probe attaches.
    pub connect_under_reset: bool,
}

/// The `probe` section.
#[derive(Clone, Debug)]
pub struct Probe {
    /// The wire protocol.
    pub protocol: WireProtocol,
    /// The USB vendor identifier, in hexadecimal.
    pub usb_vid: Option<String>,
    /// The USB product identifier, in hexadecimal.
    pub usb_pid: Option<String>,
    /// The serial number.
    pub serial: Option<String>,
    /// The speed of the wire protocol in kHz.
    pub speed: Option<u32>,
}

/// The `flashing` section.
#[derive(Clone, Copy, Debug)]
pub struct Flashing {
    /// Whether the image is written to the target.
    pub enabled: bool,
    /// Whether the core is halted afterwards; this option has moved to `reset`.
    pub halt_afterwards: bool,
    /// Whether bytes that are erased but not written are restored.
    pub restore_unwritten_bytes: bool,
    /// Whether the whole chip is erased first.
    pub do_chip_erase: bool,
}

/// The `reset` section.
#[derive(Clone, Copy, Debug)]
pub struct Reset {
    /// Whether the target is reset.
    pub enabled: bool,
    /// Whether the core is halted after the reset.
    pub halt_afterwards: bool,
}

/// The `gdb` section.
#[derive(Clone, Debug)]
pub struct Gdb {
    /// Whether a GDB stub is started.
    pub enabled: bool,
    /// The address at which the stub listens.
    pub gdb_connection_string: Option<String>,
}

/// An RTT channel from target to host, as configured.
#[derive(Clone, Debug)]
pub struct UpChannelConfig {
    /// The number of the channel.
    pub channel: usize,
    /// The mode that the channel is put into, if any.
    pub mode: Option<ChannelMode>,
    /// How the data is encoded.
    pub format: DataFormat,
    /// Whether the location in the source is shown, where it differs from the default.
    pub show_location: Option<bool>,
    /// Whether time stamps are shown, where it differs from the default.
    pub show_timestamps: Option<bool>,
    /// How `defmt` frames are written.
    pub defmt_log_format: Option<String>,
}

/// An RTT channel from host to target, as configured.
#[derive(Clone, Debug)]
pub struct DownChannelConfig {
    /// The number of the channel.
    pub channel: usize,
}

/// The `rtt` section.
#[derive(Clone, Debug)]
pub struct Rtt {
    /// Whether RTT is used.
    pub enabled: bool,
    /// The channels from target to host.
    pub up_channels: Vec<UpChannelConfig>,
    /// The channels from host to target.
    pub down_channels: Vec<DownChannelConfig>,
    /// For how long attaching is retried, in nanoseconds.
    pub timeout_nanos: u128,
    /// Whether time stamps are shown by default.
    pub show_timestamps: bool,
    /// Whether locations in the source are shown by default.
    pub show_location: bool,
}

/// A configuration profile.
#[derive(Clone, Debug)]
pub struct Config {
    /// The `general` section.
    pub general: General,
    /// The `probe` section.
    pub probe: Probe,
    /// The `flashing` section.
    pub flashing: Flashing,
    /// The `reset` section.
    pub reset: Reset,
    /// The `gdb` section.
    pub gdb: Gdb,
    /// The `rtt` section.
    pub rtt: Rtt,
}

/// The command line options.
#[derive(Clone, Debug)]
pub struct CliOptions {
    /// The name of the configuration profile.
    pub config: Option<String>,
    /// The name of the chip.
    pub chip: Option<String>,
    /// The probe to open.
    pub probe: Option<DebugProbeSelector>,
    /// Whether progress bars are left out.
    pub disable_progressbars: bool,
    /// The work directory, as it is shown to the user.
    pub work_dir: Option<String>,
}

/// The profile that is used where the command line names none.
pub open spec fn profile_name(config: Option<String>) -> Seq<char> {
    match config {
        Some(name) => name@,
        None => "default"@,
    }
}

/// The name of the configuration profile to use.
pub fn config_name(config: &Option<String>) -> (r: String)
    ensures
        r@ == profile_name(*config),
        config matches Some(name) ==> r@ == name@,
        config is None ==> r@ == "default"@,
{
    match config {
        Some(name) => name.clone(),
        None => "default".to_owned(),
    }
}

/// Copies an optional string.
pub(crate) fn copy_text(text: &Option<String>) -> (r: Option<String>)
    ensures
        r == *text,
{
    match text {
        Some(s) => Some(s.clone()),
        None => None,
    }
}

/// Copies a selector.
pub(crate) fn copy_selector(selector: &DebugProbeSelector) -> (r: DebugProbeSelector)
    ensures
        r == *selector,
{
    DebugProbeSelector {
        vendor_id: selector.vendor_id,
        product_id: selector.product_id,
        serial_number: copy_text(&selector.serial_number),
    }
}

} // verus!
