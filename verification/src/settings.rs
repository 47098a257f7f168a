//! Application settings, the backend state vocabulary, and the model
//! status payload published to the UI.

use vstd::prelude::*;
use vstd::string::StringExecFns;
use crate::text::dec_digits;

verus! {

#[derive(Debug, Clone, PartialEq, Eq)]
pub enum BackendState {
    Idle,
    Recording,
    Processing,
    Error { message: String },
}

#[derive(Debug, Clone, PartialEq, Eq)]
pub enum BackendEvent {
    StartRecording,
    StopRecording,
    StartProcessing,
    FinishProcessing,
    Fail { message: String },
    Reset,
}

#[derive(Debug, Clone, Copy, PartialEq, Eq, Structural)]
pub enum ModelInstallStatus {
    Ready,
    Installed,
    Downloading,
    Queued,
    Pending,
    Failed,
    Error,
    Unknown,
}

impl Default for ModelInstallStatus {
    fn default() -> (r: Self)
        ensures
            r is Unknown,
    {
        ModelInstallStatus::Unknown
    }
}

/// One row of the model status snapshot.  Progress is a percentage.
#[derive(Debug, Clone, PartialEq, Eq)]
pub struct ModelStatusItem {
    pub id: String,
    pub name: String,
    pub status: ModelInstallStatus,
    pub total_bytes: u64,
    pub downloaded_bytes: u64,
    pub speed_bytes_per_sec: u64,
    pub eta_seconds: u64,
    pub progress: u32,
    pub active: bool,
}

#[derive(Debug, Clone, PartialEq, Eq)]
pub struct ModelStatusPayload {
    pub models: Vec<ModelStatusItem>,
    pub active_model: Option<String>,
    pub queue_count: usize,
}

#[derive(Debug, Clone, Copy, PartialEq, Eq, Structural)]
pub enum OverlayPosition {
    Docked,
    Floating,
    Compact,
}

/// Where a finished transcript goes.
#[derive(Debug, Clone, Copy, PartialEq, Eq, Structural)]
pub enum OutputMode {
    UiOnly,
    Clipboard,
    DirectWrite,
}

#[derive(Debug, Clone, PartialEq, Eq)]
pub struct AppSettings {
    pub input_device: String,
    pub noise_reduction: bool,
    pub auto_language: bool,
    pub latency_ms: u16,
    pub auto_export: bool,
    pub overlay_position: OverlayPosition,
    pub show_timestamps: bool,
    pub auto_punctuation: bool,
    pub output_mode: OutputMode,
}

impl Default for AppSettings {
    fn default() -> (r: Self)
        ensures
            r.input_device@ == "default"@,
            r.noise_reduction,
            !r.auto_language,
            r.latency_ms == 600,
            r.auto_export,
            r.overlay_position is Docked,
            r.show_timestamps,
            r.auto_punctuation,
            r.output_mode is Clipboard,
    {
        AppSettings {
            input_device: String::from_str("default"),
            noise_reduction: true,
            auto_language: false,
            latency_ms: 600,
            auto_export: true,
            overlay_position: OverlayPosition::Docked,
            show_timestamps: true,
            auto_punctuation: true,
            output_mode: OutputMode::Clipboard,
        }
    }
}

/// A partial settings change: absent fields keep their old values.
#[derive(Debug, Clone, PartialEq, Eq)]
pub struct SettingsUpdate {
    pub input_device: Option<String>,
    pub noise_reduction: Option<bool>,
    pub auto_language: Option<bool>,
    pub latency_ms: Option<u16>,
    pub auto_export: Option<bool>,
    pub overlay_position: Option<OverlayPosition>,
    pub show_timestamps: Option<bool>,
    pub auto_punctuation: Option<bool>,
    pub output_mode: Option<OutputMode>,
}

impl Default for SettingsUpdate {
    fn default() -> (r: Self)
        ensures
            r == (SettingsUpdate {
                input_device: None,
                noise_reduction: None,
                auto_language: None,
                latency_ms: None,
                auto_export: None,
                overlay_position: None,
                show_timestamps: None,
                auto_punctuation: None,
                output_mode: None,
            }),
    {
        SettingsUpdate {
            input_device: None,
            noise_reduction: None,
            auto_language: None,
            latency_ms: None,
            auto_export: None,
            overlay_position: None,
            show_timestamps: None,
            auto_punctuation: None,
            output_mode: None,
        }
    }
}

/// The settings that result from applying `update` over `base`.
pub open spec fn spec_apply_update(base: AppSettings, update: SettingsUpdate) -> AppSettings {
    AppSettings {
        input_device: match update.input_device {
            Some(v) => v,
            None => base.input_device,
        },
        noise_reduction: match update.noise_reduction {
            Some(v) => v,
            None => base.noise_reduction,
        },
        auto_language: match update.auto_language {
            Some(v) => v,
            None => base.auto_language,
        },
        latency_ms: match update.latency_ms {
            Some(v) => v,
            None => base.latency_ms,
        },
        auto_export: match update.auto_export {
            Some(v) => v,
            None => base.auto_export,
        },
        overlay_position: match update.overlay_position {
            Some(v) => v,
            None => base.overlay_position,
        },
        show_timestamps: match update.show_timestamps {
            Some(v) => v,
            None => base.show_timestamps,
        },
        auto_punctuation: match update.auto_punctuation {
            Some(v) => v,
            None => base.auto_punctuation,
        },
        output_mode: match update.output_mode {
            Some(v) => v,
            None => base.output_mode,
        },
    }
}

impl AppSettings {
    /// Merges a partial update over these settings.
    pub fn apply_update(&self, update: SettingsUpdate) -> (r: AppSettings)
        ensures
            r == spec_apply_update(*self, update),
    {
        AppSettings {
            input_device: match update.input_device {
                Some(v) => v,
                None => self.input_device.clone(),
            },
            noise_reduction: match update.noise_reduction {
                Some(v) => v,
                None => self.noise_reduction,
            },
            auto_language: match update.auto_language {
                Some(v) => v,
                None => self.auto_language,
            },
            latency_ms: match update.latency_ms {
                Some(v) => v,
                None => self.latency_ms,
            },
            auto_export: match update.auto_export {
                Some(v) => v,
                None => self.auto_export,
            },
            overlay_position: match update.overlay_position {
                Some(v) => v,
                None => self.overlay_position,
            },
            show_timestamps: match update.show_timestamps {
                Some(v) => v,
                None => self.show_timestamps,
            },
            auto_punctuation: match update.auto_punctuation {
                Some(v) => v,
                None => self.auto_punctuation,
            },
            output_mode: match update.output_mode {
                Some(v) => v,
                None => self.output_mode,
            },
        }
    }

    /// Duplicates the settings value.
    pub fn duplicate(&self) -> (r: AppSettings)
        ensures
            r == *self,
    {
        AppSettings {
            input_device: self.input_device.clone(),
            noise_reduction: self.noise_reduction,
            auto_language: self.auto_language,
            latency_ms: self.latency_ms,
            auto_export: self.auto_export,
            overlay_position: self.overlay_position,
            show_timestamps: self.show_timestamps,
            auto_punctuation: self.auto_punctuation,
            output_mode: self.output_mode,
        }
    }
}

#[derive(Debug, Clone, PartialEq, Eq)]
pub struct AppVersion {
    pub major: u8,
    pub minor: u8,
    pub patch: u8,
}

/// The dotted rendering of a version.
pub open spec fn spec_version_string(major: int, minor: int, patch: int) -> Seq<char> {
    dec_digits(major) + seq!['.'] + dec_digits(minor) + seq!['.'] + dec_digits(patch)
}

impl AppVersion {
    pub fn new(major: u8, minor: u8, patch: u8) -> (r: Self)
        ensures
            r == (AppVersion { major, minor, patch }),
    {
        AppVersion { major, minor, patch }
    }

    /// `major.minor.patch` in decimal.
    pub fn as_string(&self) -> (r: String)
        ensures
            r@ == spec_version_string(self.major as int, self.minor as int, self.patch as int),
    {
        let mut out = crate::text::u64_to_string(self.major as u64);
        out.append(".");
        crate::text::append_u64(&mut out, self.minor as u64);
        out.append(".");
        crate::text::append_u64(&mut out, self.patch as u64);
        proof {
            reveal_strlit(".");
            assert(out@ =~= spec_version_string(
                self.major as int,
                self.minor as int,
                self.patch as int,
            ));
        }
        out
    }
}

} // verus!
