//! The level meter, the capture latch, sample conversion, resampling, and
//! the log ring — all over fixed-point samples (millionths of full scale).

use openwhisperai::audio::{
    normalize_u16_sample, sample_from_i16, find_device, AudioCaptureService, AudioDevice,
    AudioError,
};
use openwhisperai::capture::CaptureLatch;
use openwhisperai::hotkeys::{Hotkey, HotkeyActionEvent, HotkeyKey, HotkeyModifiers, HotkeyState};
use openwhisperai::logstore::{LogEntry, LogStore};
use openwhisperai::meter::{LevelMeter, LevelReading};
use openwhisperai::resample::{downmix_to_mono, resample_to_16k_mono};

#[test]
fn meter_reports_silence_for_empty_samples() {
    let mut meter = LevelMeter::new();
    meter.update(&[]);
    assert_eq!(meter.reading(), LevelReading::silence());
}

#[test]
fn meter_computes_peak_and_rms() {
    let mut meter = LevelMeter::new();
    meter.update(&[0, 500_000, -500_000]);
    let reading = meter.reading();
    assert_eq!(reading.peak, 500_000);
    // sqrt(mean([0, 0.5^2, 0.5^2])) = sqrt(1/6) ~ 0.4082482, i.e. 408248
    // millionths, exact to the unit.
    assert_eq!(reading.rms, 408_248);
    assert!(!reading.clipped);
}

#[test]
fn meter_flags_clipping() {
    let mut meter = LevelMeter::new();
    meter.update(&[200_000, -1_200_000]);
    let reading = meter.reading();
    assert!(reading.clipped);
    assert_eq!(reading.peak, 1_200_000);
}

#[test]
fn meter_reset_returns_to_silence() {
    let mut meter = LevelMeter::new();
    meter.update(&[750_000]);
    assert!(meter.reading().peak > 0);
    meter.reset();
    assert_eq!(meter.reading(), LevelReading::silence());
}

#[test]
fn meter_exactly_full_scale_clips() {
    let mut meter = LevelMeter::new();
    meter.update(&[1_000_000]);
    let reading = meter.reading();
    assert!(reading.clipped);
    assert_eq!(reading.peak, 1_000_000);
    assert_eq!(reading.rms, 1_000_000);
}

fn ptt_event(state: HotkeyState) -> HotkeyActionEvent {
    HotkeyActionEvent {
        action: "ptt".to_string(),
        hotkey: Hotkey {
            key: HotkeyKey::F9,
            modifiers: HotkeyModifiers::none(),
        },
        state,
    }
}

#[test]
fn ptt_capture_buffers_samples_when_active() {
    let mut gate = CaptureLatch::new("ptt".to_string());

    gate.on_samples(&[100_000, 200_000]);
    assert!(gate.take_audio().is_empty());

    gate.handle_hotkey_action(&ptt_event(HotkeyState::Pressed));
    gate.on_samples(&[250_000, -250_000, 500_000]);

    let captured = gate.take_audio();
    assert_eq!(captured, vec![250_000, -250_000, 500_000]);

    gate.handle_hotkey_action(&ptt_event(HotkeyState::Released));
    gate.on_samples(&[300_000]);
    assert!(gate.take_audio().is_empty());
}

#[test]
fn ptt_capture_ignores_unrelated_actions() {
    let mut gate = CaptureLatch::new("ptt".to_string());
    let event = HotkeyActionEvent {
        action: "other".to_string(),
        hotkey: Hotkey {
            key: HotkeyKey::F10,
            modifiers: HotkeyModifiers::none(),
        },
        state: HotkeyState::Pressed,
    };
    gate.handle_hotkey_action(&event);
    gate.on_samples(&[100_000]);
    assert!(gate.take_audio().is_empty());
}

#[test]
fn ptt_capture_pressed_clears_previous_capture() {
    let mut gate = CaptureLatch::new("ptt".to_string());
    gate.handle_hotkey_action(&ptt_event(HotkeyState::Pressed));
    gate.on_samples(&[1, 2, 3]);
    gate.handle_hotkey_action(&ptt_event(HotkeyState::Pressed));
    gate.on_samples(&[4]);
    assert_eq!(gate.take_audio(), vec![4]);
}

#[test]
fn u16_normalization_centers_at_zero() {
    let min = normalize_u16_sample(u16::MIN);
    let mid = normalize_u16_sample(0x8000);
    let max = normalize_u16_sample(u16::MAX);

    assert_eq!(min, -1_000_000);
    assert_eq!(mid, 0);
    assert!(max <= 1_000_000);
    assert!(max > 990_000);
}

#[test]
fn i16_conversion_spans_full_scale() {
    assert_eq!(sample_from_i16(0), 0);
    assert_eq!(sample_from_i16(i16::MAX), 1_000_000);
    assert_eq!(sample_from_i16(-i16::MAX), -1_000_000);
    assert!(sample_from_i16(i16::MIN) <= -1_000_000);
}

#[test]
fn resample_downmixes_stereo_to_mono() {
    // [1.0, -1.0, 0.5, 0.5] at 16 kHz stereo becomes mono [0.0, 0.5].
    let audio = vec![1_000_000, -1_000_000, 500_000, 500_000];
    let output = resample_to_16k_mono(audio, 16_000, 2);
    assert_eq!(output, vec![0, 500_000]);
}

#[test]
fn resample_linearly_interpolates() {
    // [0.0, 1.0, 0.0, -1.0, 0.0] at 44.1 kHz: two output samples, the
    // second interpolated at source position 2.75625 = -0.75625.
    let audio = vec![0, 1_000_000, 0, -1_000_000, 0];
    let output = resample_to_16k_mono(audio, 44_100, 1);
    assert_eq!(output.len(), 2);
    assert_eq!(output[0], 0);
    assert_eq!(output[1], -756_250);
}

#[test]
fn resample_passes_16k_mono_through() {
    let audio = vec![1, 2, 3];
    assert_eq!(resample_to_16k_mono(audio.clone(), 16_000, 1), audio);
}

#[test]
fn downmix_averages_and_truncates_toward_zero() {
    assert_eq!(downmix_to_mono(vec![1, 2], 2), vec![1]);
    assert_eq!(downmix_to_mono(vec![-1, -2], 2), vec![-1]);
    assert_eq!(downmix_to_mono(vec![5, 5, 5], 2), vec![5]);
    assert_eq!(downmix_to_mono(vec![1, 2, 3], 0), Vec::<i32>::new());
}

#[test]
fn find_device_matches_by_id() {
    let devices = vec![
        AudioDevice {
            id: "default:Mic".to_string(),
            name: "Mic".to_string(),
            sample_rate: 48_000,
            channels: 2,
        },
        AudioDevice {
            id: "1:USB".to_string(),
            name: "USB".to_string(),
            sample_rate: 44_100,
            channels: 1,
        },
    ];
    assert_eq!(find_device(&devices, "1:USB"), Some(1));
    assert_eq!(find_device(&devices, "2:Other"), None);
}

fn mock_device(id: &str) -> AudioDevice {
    AudioDevice {
        id: id.to_string(),
        name: "Mock".to_string(),
        sample_rate: 48_000,
        channels: 2,
    }
}

#[test]
fn capture_service_tracks_running_state() {
    let mut service = AudioCaptureService::new();
    assert!(!service.is_running());
    service
        .start(Some(mock_device("0:Mock")))
        .expect("start capture");
    assert!(service.is_running());
    service.stop().expect("stop capture");
    assert!(!service.is_running());
}

#[test]
fn capture_service_sets_default_device_on_start() {
    let mut service = AudioCaptureService::new();
    service
        .start(Some(mock_device("0:Mock")))
        .expect("start capture");

    let selected = service.selected_device().expect("device selected");
    assert_eq!(selected.id, "0:Mock");
}

#[test]
fn capture_service_refuses_double_start_and_idle_stop() {
    let mut service = AudioCaptureService::new();
    assert!(matches!(service.stop(), Err(AudioError::NotRunning)));
    service
        .start(Some(mock_device("0:Mock")))
        .expect("start capture");
    assert!(matches!(
        service.start(Some(mock_device("1:Other"))),
        Err(AudioError::AlreadyRunning)
    ));
}

#[test]
fn capture_service_selects_from_refreshed_list() {
    let mut service = AudioCaptureService::new();
    service.refresh_devices(vec![mock_device("0:Mock"), mock_device("1:USB")]);
    assert!(matches!(
        service.select_device("2:Ghost"),
        Err(AudioError::DeviceNotFound)
    ));
    service.select_device("1:USB").expect("select device");
    // The selected device wins over the backend default on start.
    let opened = service.start(Some(mock_device("0:Mock"))).expect("start");
    assert_eq!(opened.id, "1:USB");
}

fn entry(message: &str) -> LogEntry {
    LogEntry {
        level: "info".to_string(),
        target: "test".to_string(),
        message: message.to_string(),
        timestamp_ms: 0,
    }
}

#[test]
fn log_store_respects_capacity() {
    let mut store = LogStore::new(2);

    store.push(entry("first"));
    store.push(entry("second"));
    store.push(entry("third"));

    let entries = store.entries();
    assert_eq!(entries.len(), 2);
    assert_eq!(entries[0].message, "second");
    assert_eq!(entries[1].message, "third");
}
