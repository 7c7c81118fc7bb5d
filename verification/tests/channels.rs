use cargo_embed::channels::rtt_channels;
use cargo_embed::config::{ChannelMode, DataFormat, DownChannelConfig, Rtt, UpChannelConfig};

fn up(channel: usize, format: DataFormat) -> UpChannelConfig {
    UpChannelConfig {
        channel,
        mode: None,
        format,
        show_location: None,
        show_timestamps: None,
        defmt_log_format: None,
    }
}

fn rtt(up_channels: Vec<UpChannelConfig>, down: &[usize]) -> Rtt {
    Rtt {
        enabled: true,
        up_channels,
        down_channels: down.iter().map(|&channel| DownChannelConfig { channel }).collect(),
        timeout_nanos: 0,
        show_timestamps: true,
        show_location: false,
    }
}

fn numbers(rtt: &Rtt) -> Vec<Option<usize>> {
    rtt_channels(rtt).0.channels.iter().map(|channel| channel.channel_number).collect()
}

#[test]
fn channels_keep_their_settings() {
    let mut own = up(2, DataFormat::Defmt);
    own.show_timestamps = Some(false);
    own.show_location = Some(true);
    own.defmt_log_format = Some("{L} {s}".to_string());
    own.mode = Some(ChannelMode::BlockIfFull);
    let (config, require_defmt) = rtt_channels(&rtt(vec![up(0, DataFormat::BinaryLE), own], &[]));
    assert!(config.enabled);
    assert_eq!(config.log_format, None);
    assert!(require_defmt);

    let common = &config.channels[0];
    assert_eq!(common.channel_number, Some(0));
    assert_eq!(common.channel_name, None);
    assert_eq!(common.data_format, DataFormat::BinaryLE);
    assert!(common.show_timestamps);
    assert!(!common.show_location);
    assert_eq!(common.defmt_log_format, None);
    assert_eq!(common.mode, None);

    let own = &config.channels[1];
    assert_eq!(own.channel_number, Some(2));
    assert_eq!(own.data_format, DataFormat::Defmt);
    assert!(!own.show_timestamps);
    assert!(own.show_location);
    assert_eq!(own.defmt_log_format, Some("{L} {s}".to_string()));
    assert_eq!(own.mode, Some(ChannelMode::BlockIfFull));
}

#[test]
fn down_channels_without_up_channels_are_added() {
    let rtt = rtt(vec![up(1, DataFormat::String), up(0, DataFormat::String)], &[0, 3, 1, 4, 3]);
    assert_eq!(numbers(&rtt), vec![Some(1), Some(0), Some(3), Some(4), Some(3)]);
    let (config, require_defmt) = rtt_channels(&rtt);
    assert!(!require_defmt);
    let added = &config.channels[2];
    assert_eq!(added.channel_name, None);
    assert_eq!(added.data_format, DataFormat::String);
    assert!(!added.show_timestamps);
    assert!(!added.show_location);
    assert_eq!(added.defmt_log_format, None);
    assert_eq!(added.mode, None);
}

#[test]
fn every_configured_channel_is_opened_and_no_other() {
    let rtt = rtt(vec![up(5, DataFormat::Defmt), up(5, DataFormat::String)], &[5, 7]);
    let numbers = numbers(&rtt);
    for channel in 0..10 {
        assert_eq!(numbers.contains(&Some(channel)), channel == 5 || channel == 7);
    }
}

#[test]
fn no_channels() {
    let (config, require_defmt) = rtt_channels(&rtt(vec![], &[]));
    assert!(config.channels.is_empty());
    assert!(!require_defmt);
}

#[test]
fn the_first_up_channel_of_a_number_is_found() {
    let rtt = rtt(vec![up(1, DataFormat::String), up(2, DataFormat::Defmt), up(2, DataFormat::String)], &[]);
    assert_eq!(rtt.up_channel_config(2).unwrap().format, DataFormat::Defmt);
    assert!(rtt.up_channel_config(0).is_none());
}
