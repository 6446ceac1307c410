//! Input devices and the counts of the audio callback.
use whispercli::audio::{
    capture_name, check_sample_kind, input_devices, select_microphone, stream_error_message,
    AudioCallbackStats, AudioCallbackStatsSnapshot, DeviceReading, InputConfig, MicrophoneChoice,
    SampleKind,
};

fn device(name: Option<&str>) -> DeviceReading {
    DeviceReading { name: name.map(|name| name.to_string()), config: None }
}

#[test]
fn devices_are_listed_with_their_configuration() {
    let readings = vec![
        DeviceReading {
            name: Some("USB".to_string()),
            config: Some(InputConfig {
                sample_rate: 48000,
                channels: 2,
                sample_format: "F32".to_string(),
            }),
        },
        device(None),
    ];
    let infos = input_devices(&None, &readings);
    assert_eq!(infos.len(), 2);
    assert_eq!(infos[0].index, 0);
    assert_eq!(infos[0].name, "USB");
    assert_eq!(infos[0].config, "48000 Hz, 2 ch, F32");
    assert!(!infos[0].is_default);
    assert_eq!(infos[1].index, 1);
    assert_eq!(infos[1].name, "Input device 2");
    assert_eq!(infos[1].config, "unavailable");
    let copy = infos[0].clone();
    assert_eq!((copy.name, copy.config), ("USB".to_string(), "48000 Hz, 2 ch, F32".to_string()));
}

#[test]
fn only_the_first_of_equal_names_is_default() {
    let readings = vec![device(Some("A")), device(Some("B")), device(Some("B"))];
    let marks: Vec<bool> = input_devices(&Some("B".to_string()), &readings)
        .iter()
        .map(|info| info.is_default)
        .collect();
    assert_eq!(marks, vec![false, true, false]);
}

#[test]
fn no_device_is_default_if_none_has_the_name() {
    let readings = vec![device(Some("A")), device(None)];
    assert!(input_devices(&Some("B".to_string()), &readings).iter().all(|info| !info.is_default));
    assert!(input_devices(&None, &readings).iter().all(|info| !info.is_default));
    assert!(input_devices(&Some("B".to_string()), &vec![]).is_empty());
}

#[test]
fn a_made_up_name_can_be_the_default() {
    let infos = input_devices(&Some("Input device 1".to_string()), &vec![device(None)]);
    assert!(infos[0].is_default);
}

#[test]
fn selected_microphone_is_found_by_name() {
    let names = vec![Some("A".to_string()), None, Some("B".to_string()), Some("B".to_string())];
    assert_eq!(select_microphone(Some("B"), &names, false).unwrap(), MicrophoneChoice::Listed(2));
    assert_eq!(
        select_microphone(Some("C"), &names, true).unwrap_err().message(),
        "Selected microphone was not found: C"
    );
}

#[test]
fn default_microphone_is_taken_where_none_is_selected() {
    assert_eq!(select_microphone(None, &vec![], true).unwrap(), MicrophoneChoice::Default);
    assert_eq!(
        select_microphone(None, &vec![Some("A".to_string())], false).unwrap_err().message(),
        "No default microphone is available"
    );
}

#[test]
fn recordings_without_a_name_get_one() {
    assert_eq!(capture_name(Some("USB".to_string())), "USB");
    assert_eq!(capture_name(None), "Microphone");
}

#[test]
fn other_sample_formats_are_refused() {
    for kind in [
        SampleKind::F32,
        SampleKind::F64,
        SampleKind::I8,
        SampleKind::I16,
        SampleKind::I32,
        SampleKind::U8,
        SampleKind::U16,
        SampleKind::U32,
    ] {
        assert!(check_sample_kind(&kind).is_ok());
    }
    assert_eq!(
        check_sample_kind(&SampleKind::Other("I64".to_string())).unwrap_err().message(),
        "Unsupported input sample format: I64"
    );
}

#[test]
fn stream_errors_say_where_they_come_from() {
    assert_eq!(stream_error_message("gone"), "Microphone stream error: gone");
}

#[test]
fn drops_are_counted_apart() {
    let mut stats = AudioCallbackStats::default();
    assert_eq!(stats.snapshot(), AudioCallbackStatsSnapshot::default());
    stats.record_dropped_audio_chunk();
    stats.record_dropped_audio_chunk();
    stats.record_dropped_level_update();
    assert_eq!(
        stats.snapshot(),
        AudioCallbackStatsSnapshot { dropped_audio_chunks: 2, dropped_level_updates: 1 }
    );
}

#[test]
fn every_drop_is_counted_in_whatever_order() {
    let mut stats = AudioCallbackStats::default();
    for i in 0..300 {
        if i % 3 == 0 {
            stats.record_dropped_audio_chunk();
        } else {
            stats.record_dropped_level_update();
        }
    }
    let counts = stats.snapshot();
    assert_eq!((counts.dropped_audio_chunks, counts.dropped_level_updates), (100, 200));
    assert_eq!(stats.snapshot(), counts);
}

#[test]
fn deliveries_count_what_was_not_taken() {
    let mut stats = AudioCallbackStats::default();
    stats.record_delivery(true, true);
    stats.record_delivery(false, true);
    stats.record_delivery(true, false);
    stats.record_delivery(false, false);
    stats.record_delivery(false, true);
    assert_eq!(
        stats.snapshot(),
        AudioCallbackStatsSnapshot { dropped_audio_chunks: 2, dropped_level_updates: 3 }
    );
}
