//! The RTT channels that are opened, from the channels that are configured.

use vstd::prelude::*;

use crate::config::{copy_text, ChannelMode, DataFormat, DownChannelConfig, Rtt, UpChannelConfig};

verus! {

/// How an RTT channel is opened.
#[derive(Debug)]
pub struct RttChannelConfig {
    /// The number of the channel.
    pub channel_number: Option<usize>,
    /// The name of the channel.
    pub channel_name: Option<String>,
    /// How the data is encoded.
    pub data_format: DataFormat,
    /// Whether time stamps are shown.
    pub show_timestamps: bool,
    /// Whether locations in the source are shown.
    pub show_location: bool,
    /// How `defmt` frames are written.
    pub defmt_log_format: Option<String>,
    /// The mode that the channel is put into, if any.
    pub mode: Option<ChannelMode>,
}

/// How RTT is used.
#[derive(Debug)]
pub struct RttConfig {
    /// Whether RTT is used.
    pub enabled: bool,
    /// How log messages are written.
    pub log_format: Option<String>,
    /// The channels.
    pub channels: Vec<RttChannelConfig>,
}

/// Whether a channel from target to host is configured under a number.
pub open spec fn has_up_channel(rtt: Rtt, channel: usize) -> bool {
    exists|i: int| 0 <= i < rtt.up_channels@.len() && #[trigger] rtt.up_channels@[i].channel == channel
}

impl Rtt {
    /// The first channel from target to host with the given number.
    pub fn up_channel_config(&self, channel: usize) -> (r: Option<&UpChannelConfig>)
        ensures
            match r {
                Some(found) => exists|i: int|
                    {
                        &&& 0 <= i < self.up_channels@.len()
                        &&& *found == #[trigger] self.up_channels@[i]
                        &&& found.channel == channel
                        &&& forall|k: int|
                            0 <= k < i ==> (#[trigger] self.up_channels@[k]).channel != channel
                    },
                None => !has_up_channel(*self, channel) && forall|k: int|
                    0 <= k < self.up_channels@.len() ==> (#[trigger] self.up_channels@[k]).channel
                        != channel,
            },
    {
        let mut i: usize = 0;
        while i < self.up_channels.len()
            invariant
                i <= self.up_channels@.len(),
                forall|k: int| 0 <= k < i ==> (#[trigger] self.up_channels@[k]).channel != channel,
            decreases self.up_channels@.len() - i,
        {
            if self.up_channels[i].channel == channel {
                assert(self.up_channels@[i as int].channel == channel);
                return Some(&self.up_channels[i]);
            }
            i = i + 1;
        }
        None
    }
}

/// A choice that is made for one channel, or else for all of them.
pub open spec fn choice(own: Option<bool>, common: bool) -> bool {
    match own {
        Some(own) => own,
        None => common,
    }
}

/// How a configured channel from target to host is opened.
pub open spec fn up_entry(rtt: Rtt, up: UpChannelConfig) -> RttChannelConfig {
    RttChannelConfig {
        channel_number: Some(up.channel),
        channel_name: None,
        data_format: up.format,
        show_timestamps: choice(up.show_timestamps, rtt.show_timestamps),
        show_location: choice(up.show_location, rtt.show_location),
        defmt_log_format: up.defmt_log_format,
        mode: up.mode,
    }
}

/// How a channel is opened that is only written to.
pub open spec fn down_entry(down: DownChannelConfig) -> RttChannelConfig {
    RttChannelConfig {
        channel_number: Some(down.channel),
        channel_name: None,
        data_format: DataFormat::String,
        show_timestamps: false,
        show_location: false,
        defmt_log_format: None,
        mode: None,
    }
}

/// The entries of the channels from target to host.
pub open spec fn up_entries(rtt: Rtt) -> Seq<RttChannelConfig> {
    rtt.up_channels@.map_values(|up: UpChannelConfig| up_entry(rtt, up))
}

/// The channels from host to target whose number no channel from target to host has.
pub open spec fn down_only(rtt: Rtt, downs: Seq<DownChannelConfig>) -> Seq<DownChannelConfig> {
    downs.filter(|down: DownChannelConfig| !has_up_channel(rtt, down.channel))
}

/// The entries of channels that are only written to.
pub open spec fn down_entries(downs: Seq<DownChannelConfig>) -> Seq<RttChannelConfig> {
    downs.map_values(|down: DownChannelConfig| down_entry(down))
}

/// All entries: a channel that only host to target is configured for gets one of its own.
pub open spec fn entries(rtt: Rtt) -> Seq<RttChannelConfig> {
    up_entries(rtt) + down_entries(down_only(rtt, rtt.down_channels@))
}

/// Whether a configured channel carries `defmt` frames.
pub open spec fn uses_defmt(rtt: Rtt) -> bool {
    exists|i: int|
        0 <= i < rtt.up_channels@.len() && #[trigger] rtt.up_channels@[i].format
            == DataFormat::Defmt
}

/// Decides how the channels are opened, and whether `defmt` metadata is needed.
pub fn rtt_channels(rtt: &Rtt) -> (r: (RttConfig, bool))
    ensures
        r.0.enabled,
        r.0.log_format is None,
        r.0.channels@ == entries(*rtt),
        r.1 == uses_defmt(*rtt),
        r.1 <==> exists|i: int|
            0 <= i < rtt.up_channels@.len() && #[trigger] rtt.up_channels@[i].format
                == DataFormat::Defmt,
        r.0.channels@.len() >= rtt.up_channels@.len(),
        forall|i: int|
            0 <= i < rtt.up_channels@.len() ==> opened_as_configured(
                *rtt,
                rtt.up_channels@[i],
                #[trigger] r.0.channels@[i],
            ),
        forall|i: int|
            rtt.up_channels@.len() <= i < r.0.channels@.len() ==> opened_for_writing(
                #[trigger] r.0.channels@[i],
            ),
{
    let mut channels: Vec<RttChannelConfig> = Vec::new();
    let mut require_defmt = false;
    let mut i: usize = 0;
    while i < rtt.up_channels.len()
        invariant
            i <= rtt.up_channels@.len(),
            channels@ =~= up_entries(*rtt).take(i as int),
            require_defmt <==> exists|k: int|
                0 <= k < i && #[trigger] rtt.up_channels@[k].format == DataFormat::Defmt,
        decreases rtt.up_channels@.len() - i,
    {
        let up = &rtt.up_channels[i];
        channels.push(
            RttChannelConfig {
                channel_number: Some(up.channel),
                channel_name: None,
                data_format: up.format,
                show_timestamps: match up.show_timestamps {
                    Some(own) => own,
                    None => rtt.show_timestamps,
                },
                show_location: match up.show_location {
                    Some(own) => own,
                    None => rtt.show_location,
                },
                defmt_log_format: copy_text(&up.defmt_log_format),
                mode: up.mode,
            },
        );
        if up.format == DataFormat::Defmt {
            assert(rtt.up_channels@[i as int].format == DataFormat::Defmt);
            require_defmt = true;
        }
        i = i + 1;
    }
    let ghost downs = rtt.down_channels@;
    let mut j: usize = 0;
    proof {
        reveal(Seq::filter);
        assert(downs.take(0) =~= Seq::<DownChannelConfig>::empty());
        assert(down_entries(down_only(*rtt, downs.take(0))) =~= Seq::<RttChannelConfig>::empty());
    }
    while j < rtt.down_channels.len()
        invariant
            downs == rtt.down_channels@,
            j <= downs.len(),
            channels@ =~= up_entries(*rtt) + down_entries(down_only(*rtt, downs.take(j as int))),
        decreases downs.len() - j,
    {
        let down = &rtt.down_channels[j];
        let read = rtt.up_channel_config(down.channel).is_some();
        proof {
            reveal(Seq::filter);
            assert(downs.take(j + 1).drop_last() =~= downs.take(j as int));
            assert(downs.take(j + 1).last() == *down);
            assert(read == has_up_channel(*rtt, down.channel));
            let earlier = down_only(*rtt, downs.take(j as int));
            assert(down_only(*rtt, downs.take(j + 1)) == if read {
                earlier
            } else {
                earlier.push(*down)
            });
            assert(down_entries(earlier.push(*down)) =~= down_entries(earlier).push(
                down_entry(*down),
            ));
        }
        if !read {
            channels.push(
                RttChannelConfig {
                    channel_number: Some(down.channel),
                    channel_name: None,
                    data_format: DataFormat::String,
                    show_timestamps: false,
                    show_location: false,
                    defmt_log_format: None,
                    mode: None,
                },
            );
        }
        j = j + 1;
    }
    assert(downs.take(downs.len() as int) =~= downs);
    proof {
        assert forall|i: int| 0 <= i < rtt.up_channels@.len() implies opened_as_configured(
            *rtt,
            rtt.up_channels@[i],
            #[trigger] channels@[i],
        ) by {
            lemma_up_channel_opened_as_configured(*rtt, i);
        }
        assert forall|i: int| rtt.up_channels@.len() <= i < channels@.len() implies opened_for_writing(
            #[trigger] channels@[i],
        ) by {
            lemma_down_channel_opened_for_writing(*rtt, i);
        }
    }
    (RttConfig { enabled: true, log_format: None, channels }, require_defmt)
}

/// Whether an entry stands for a channel number.
pub open spec fn opens(entries: Seq<RttChannelConfig>, channel: usize) -> bool {
    exists|i: int| 0 <= i < entries.len() && #[trigger] entries[i].channel_number == Some(channel)
}

/// Whether a channel number is configured, in either direction.
pub open spec fn configured(rtt: Rtt, channel: usize) -> bool {
    has_up_channel(rtt, channel) || exists|i: int|
        0 <= i < rtt.down_channels@.len() && #[trigger] rtt.down_channels@[i].channel == channel
}

/// The channels that are opened are the configured ones: no configured channel is left
/// out, and no other is opened.
pub proof fn lemma_configured_channels_opened(rtt: Rtt, channel: usize)
    ensures
        opens(entries(rtt), channel) <==> configured(rtt, channel),
{
    let downs = rtt.down_channels@;
    let unread = |down: DownChannelConfig| !has_up_channel(rtt, down.channel);
    let only = down_only(rtt, downs);
    let ups = up_entries(rtt);
    if opens(entries(rtt), channel) {
        let i = choose|i: int|
            0 <= i < entries(rtt).len() && #[trigger] entries(rtt)[i].channel_number == Some(channel);
        if i < ups.len() {
            assert(rtt.up_channels@[i].channel == channel);
        } else {
            let down = only[i - ups.len()];
            assert(only.contains(down));
            downs.lemma_filter_contains_rev(unread, down);
            let k = choose|k: int| 0 <= k < downs.len() && downs[k] == down;
            assert(downs[k].channel == channel);
        }
    }
    if has_up_channel(rtt, channel) {
        let i = choose|i: int|
            0 <= i < rtt.up_channels@.len() && #[trigger] rtt.up_channels@[i].channel == channel;
        assert(entries(rtt)[i].channel_number == Some(channel));
    } else if configured(rtt, channel) {
        let k = choose|k: int| 0 <= k < downs.len() && #[trigger] downs[k].channel == channel;
        downs.lemma_filter_contains(unread, k);
        assert(only.contains(downs[k]));
        let j = choose|j: int| 0 <= j < only.len() && only[j] == downs[k];
        assert(entries(rtt)[ups.len() + j].channel_number == Some(channel));
    }
}

/// The metadata of `defmt` is needed exactly when a channel that is opened carries its
/// frames.
pub proof fn lemma_defmt_needed(rtt: Rtt)
    ensures
        uses_defmt(rtt) <==> exists|i: int|
            0 <= i < entries(rtt).len() && #[trigger] entries(rtt)[i].data_format
                == DataFormat::Defmt,
{
    if uses_defmt(rtt) {
        let i = choose|i: int|
            0 <= i < rtt.up_channels@.len() && #[trigger] rtt.up_channels@[i].format
                == DataFormat::Defmt;
        assert(entries(rtt)[i].data_format == DataFormat::Defmt);
    }
    if exists|i: int|
        0 <= i < entries(rtt).len() && #[trigger] entries(rtt)[i].data_format
            == DataFormat::Defmt {
        let i = choose|i: int|
            0 <= i < entries(rtt).len() && #[trigger] entries(rtt)[i].data_format
                == DataFormat::Defmt;
        assert(i < up_entries(rtt).len());
        assert(rtt.up_channels@[i].format == DataFormat::Defmt);
    }
}

/// Whether an entry opens a configured channel with all of its settings: its number, its
/// format, its mode and its way of writing `defmt` frames, and its own choice of time
/// stamps and locations where it has one, else the common one.
pub open spec fn opened_as_configured(rtt: Rtt, up: UpChannelConfig, entry: RttChannelConfig) -> bool {
    &&& entry.channel_number == Some(up.channel)
    &&& entry.channel_name is None
    &&& entry.data_format == up.format
    &&& entry.mode == up.mode
    &&& entry.defmt_log_format == up.defmt_log_format
    &&& up.show_timestamps is Some ==> up.show_timestamps == Some(entry.show_timestamps)
    &&& up.show_timestamps is None ==> entry.show_timestamps == rtt.show_timestamps
    &&& up.show_location is Some ==> up.show_location == Some(entry.show_location)
    &&& up.show_location is None ==> entry.show_location == rtt.show_location
}

/// Whether an entry opens a channel that is not read from: as text, with nothing shown.
pub open spec fn opened_for_writing(entry: RttChannelConfig) -> bool {
    &&& entry.channel_number is Some
    &&& entry.channel_name is None
    &&& entry.data_format == DataFormat::String
    &&& !entry.show_timestamps
    &&& !entry.show_location
    &&& entry.defmt_log_format is None
    &&& entry.mode is None
}

/// The entry with the number `i` opens the channel from target to host with the number `i`
/// just as it is configured: number, format, mode, `defmt` format, and its own choice of
/// time stamps and locations, else the common one.
pub proof fn lemma_up_channel_opened_as_configured(rtt: Rtt, i: int)
    requires
        0 <= i < rtt.up_channels@.len(),
    ensures
        i < entries(rtt).len(),
        ({
            let up = rtt.up_channels@[i];
            let entry = entries(rtt)[i];
            &&& entry.channel_number == Some(up.channel)
            &&& entry.channel_name is None
            &&& entry.data_format == up.format
            &&& entry.mode == up.mode
            &&& entry.defmt_log_format == up.defmt_log_format
            &&& up.show_timestamps is Some ==> up.show_timestamps == Some(entry.show_timestamps)
            &&& up.show_timestamps is None ==> entry.show_timestamps == rtt.show_timestamps
            &&& up.show_location is Some ==> up.show_location == Some(entry.show_location)
            &&& up.show_location is None ==> entry.show_location == rtt.show_location
        }),
        opened_as_configured(rtt, rtt.up_channels@[i], entries(rtt)[i]),
{
}

/// Every entry behind those of the channels from target to host stands for a configured
/// channel from host to target whose number none of the others has, and opens it as text,
/// with nothing shown and no mode set.
pub proof fn lemma_down_channel_opened_for_writing(rtt: Rtt, i: int)
    requires
        rtt.up_channels@.len() <= i < entries(rtt).len(),
    ensures
        ({
            let entry = entries(rtt)[i];
            &&& entry.channel_number matches Some(channel)
            &&& forall|k: int|
                0 <= k < rtt.up_channels@.len() ==> (#[trigger] rtt.up_channels@[k]).channel
                    != channel
            &&& exists|k: int|
                0 <= k < rtt.down_channels@.len() && #[trigger] rtt.down_channels@[k].channel
                    == channel
            &&& entry.channel_name is None
            &&& entry.data_format == DataFormat::String
            &&& !entry.show_timestamps
            &&& !entry.show_location
            &&& entry.defmt_log_format is None
            &&& entry.mode is None
        }),
        opened_for_writing(entries(rtt)[i]),
{
    let downs = rtt.down_channels@;
    let unread = |down: DownChannelConfig| !has_up_channel(rtt, down.channel);
    let only = down_only(rtt, downs);
    let j = i - up_entries(rtt).len();
    assert(only.contains(only[j]));
    downs.lemma_filter_contains_rev(unread, only[j]);
    downs.lemma_filter_pred(unread, j);
    let k = choose|k: int| 0 <= k < downs.len() && downs[k] == only[j];
    assert(downs[k].channel == only[j].channel);
}

/// A further channel from host to target adds one entry, with its number, behind all
/// others, where no channel from target to host has that number; else it changes nothing.
/// Without channels from host to target there are as many entries as channels.
pub proof fn lemma_further_down_channel(rtt: Rtt, more: Rtt, down: DownChannelConfig)
    requires
        more.up_channels == rtt.up_channels,
        more.show_timestamps == rtt.show_timestamps,
        more.show_location == rtt.show_location,
        more.down_channels@ == rtt.down_channels@.push(down),
    ensures
        (exists|k: int|
            0 <= k < rtt.up_channels@.len() && #[trigger] rtt.up_channels@[k].channel
                == down.channel) ==> entries(more) == entries(rtt),
        (forall|k: int|
            0 <= k < rtt.up_channels@.len() ==> (#[trigger] rtt.up_channels@[k]).channel
                != down.channel) ==> {
            &&& entries(more).len() == entries(rtt).len() + 1
            &&& entries(more).drop_last() == entries(rtt)
            &&& entries(more).last().channel_number == Some(down.channel)
        },
        rtt.down_channels@.len() == 0 ==> entries(rtt).len() == rtt.up_channels@.len(),
{
    reveal(Seq::filter);
    let downs = rtt.down_channels@;
    let unread = |d: DownChannelConfig| !has_up_channel(rtt, d.channel);
    let unread_more = |d: DownChannelConfig| !has_up_channel(more, d.channel);
    assert(unread =~= unread_more);
    assert(downs.push(down).drop_last() =~= downs);
    assert(up_entries(more) =~= up_entries(rtt));
    if has_up_channel(rtt, down.channel) {
        assert(down_only(more, more.down_channels@) == down_only(rtt, downs));
    } else {
        assert(down_only(more, more.down_channels@) == down_only(rtt, downs).push(down));
        assert(entries(more) =~= entries(rtt).push(down_entry(down)));
        assert(entries(more).drop_last() =~= entries(rtt));
    }
}

} // verus!
