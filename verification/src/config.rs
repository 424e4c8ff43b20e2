//! The shape of the engine's configuration.
//!
//! Durations and loudness figures are carried in a number type `N` of the
//! caller's choice: nothing here computes with them.

use vstd::prelude::*;

use crate::crossfade::{CrossfadeMode, CrossfadeThresholds};
use crate::text::same_text;

verus! {

broadcast use vstd::string::group_string_axioms;

/// The whole configuration of one station's engine.
#[derive(Debug, Clone)]
pub struct EngineConfig<N> {
    pub station: StationConfig,
    pub control_api: ControlApiConfig,
    pub callbacks: CallbacksConfig,
    pub paths: PathsConfig,
    pub crossfade: CrossfadeConfig<N>,
    pub harbor: HarborConfig<N>,
    pub audio_processing: AudioProcessingConfig,
    /// Present only if the station has a local Icecast frontend; without it
    /// `mounts` means nothing.
    pub icecast_output: Option<IcecastOutputConfig>,
    /// The local mount points.
    pub mounts: Vec<MountConfig>,
    /// The third-party relays, with or without a local frontend.
    pub remotes: Vec<RemoteConfig>,
    /// Present only when HLS output is on.
    pub hls: Option<HlsConfig<N>>,
    /// The HLS renditions; without `hls` they mean nothing.
    pub hls_streams: Vec<HlsStreamConfig>,
}

/// Who the station is.
#[derive(Debug, Clone)]
pub struct StationConfig {
    pub id: i64,
    pub name: String,
    pub replaygain_enabled: bool,
}

/// Where the control API listens, and the key that it asks for.
#[derive(Debug, Clone)]
pub struct ControlApiConfig {
    pub bind_address: String,
    pub port: u16,
    pub api_key: String,
}

/// Where the station's callbacks are, and the key that they ask for.
#[derive(Debug, Clone)]
pub struct CallbacksConfig {
    pub base_url: String,
    pub api_key: String,
    pub station_id: i64,
}

/// Files on disk.
#[derive(Debug, Clone)]
pub struct PathsConfig {
    pub log_file: String,
    /// What is played when no track can be had; without it, silence.
    pub fallback_file_path: Option<String>,
    /// Where the mixed audio is written as raw samples; without it, nowhere.
    pub pipeline_output_path: Option<String>,
}

/// Crossfade tuning.
#[derive(Debug, Clone)]
pub struct CrossfadeConfig<N> {
    /// `smart`, `normal`, `disabled` or `none`.
    pub mode: String,
    /// The default fade, in seconds.
    pub fade_seconds: N,
    pub high: N,
    pub medium: N,
    pub margin: N,
}

/// The crossfade mode of this name; a name that is not known means normal.
pub open spec fn named_mode(name: Seq<char>) -> CrossfadeMode {
    if name == "smart"@ {
        CrossfadeMode::Smart
    } else if name == "disabled"@ || name == "none"@ {
        CrossfadeMode::Disabled
    } else {
        CrossfadeMode::Normal
    }
}

impl<N: Copy> CrossfadeConfig<N> {
    /// The crossfade mode that is configured.
    pub fn mode(&self) -> (mode: CrossfadeMode)
        ensures
            mode == named_mode(self.mode@),
    {
        if same_text(self.mode.as_str(), "smart") {
            CrossfadeMode::Smart
        } else if same_text(self.mode.as_str(), "disabled") || same_text(
            self.mode.as_str(),
            "none",
        ) {
            CrossfadeMode::Disabled
        } else {
            CrossfadeMode::Normal
        }
    }

    /// The loudness thresholds of smart crossfades.
    pub fn thresholds(&self) -> (t: CrossfadeThresholds<N>)
        ensures
            t == (CrossfadeThresholds { high: self.high, medium: self.medium, margin: self.margin }),
    {
        CrossfadeThresholds { high: self.high, medium: self.medium, margin: self.margin }
    }
}

/// Live-DJ input.
#[derive(Debug, Clone)]
pub struct HarborConfig<N> {
    /// Whether the harbor listens at all.
    pub enabled: bool,
    pub bind_address: String,
    pub port: u16,
    /// The one mount point that is accepted.
    pub mount_point: String,
    pub charset: String,
    /// Input buffering in seconds: reported, and not otherwise acted on.
    pub buffer_secs: Option<N>,
    pub max_buffer_secs: Option<N>,
}

impl<N> Default for HarborConfig<N> {
    fn default() -> (cfg: HarborConfig<N>)
        ensures
            !cfg.enabled,
            cfg.bind_address@ == "0.0.0.0"@,
            cfg.port == 8005,
            cfg.mount_point@ == "/"@,
            cfg.charset@ == "UTF-8"@,
            cfg.buffer_secs is None,
            cfg.max_buffer_secs is None,
    {
        HarborConfig {
            enabled: false,
            bind_address: "0.0.0.0".to_owned(),
            port: 8005,
            mount_point: "/".to_owned(),
            charset: "UTF-8".to_owned(),
            buffer_secs: None,
            max_buffer_secs: None,
        }
    }
}

/// Audio post-processing.
#[derive(Debug, Clone)]
pub struct AudioProcessingConfig {
    /// `none`, `nrj` or `stereo_tool`; any other name means none.
    pub method: String,
    /// Whether live audio is processed too.
    pub include_live: bool,
    pub stereo_tool_binary: Option<String>,
    pub stereo_tool_preset_path: Option<String>,
    /// Absent where the station has no licence key.
    pub stereo_tool_license_key: Option<String>,
}

impl Default for AudioProcessingConfig {
    fn default() -> (cfg: AudioProcessingConfig)
        ensures
            cfg.method@ == "none"@,
            !cfg.include_live,
            cfg.stereo_tool_binary is None,
            cfg.stereo_tool_preset_path is None,
            cfg.stereo_tool_license_key is None,
    {
        AudioProcessingConfig {
            method: "none".to_owned(),
            include_live: false,
            stereo_tool_binary: None,
            stereo_tool_preset_path: None,
            stereo_tool_license_key: None,
        }
    }
}

/// The local Icecast frontend.
#[derive(Debug, Clone)]
pub struct IcecastOutputConfig {
    pub host: String,
    pub port: u16,
    pub source_password: String,
}

/// One local mount point.
#[derive(Debug, Clone)]
pub struct MountConfig {
    pub path: String,
    pub format: String,
    pub bitrate: u32,
    pub is_public: bool,
}

/// One third-party relay.
#[derive(Debug, Clone)]
pub struct RemoteConfig {
    pub host: String,
    pub port: u16,
    pub mount: String,
    /// Absent where no source user name is configured.
    pub username: Option<String>,
    pub password: String,
    pub format: String,
    pub bitrate: u32,
    pub is_public: bool,
    pub protocol: String,
}

/// Segmented HLS output on disk.
#[derive(Debug, Clone)]
pub struct HlsConfig<N> {
    pub base_dir: String,
    /// The length of a segment, in seconds.
    pub segment_secs: N,
    pub segments_in_playlist: u32,
    /// How many segments that left the playlist are kept on disk.
    pub segments_overhead: u32,
}

/// One HLS rendition.
#[derive(Debug, Clone)]
pub struct HlsStreamConfig {
    pub name: String,
    pub bitrate: u32,
}

} // verus!
